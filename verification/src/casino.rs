//! Casino texts and the parsing of the amounts typed into casino forms.
use vstd::prelude::*;
use crate::text::{dec, join, views, trim, trimmed_chars, push_dec, join_strings, push_char, string_of,
    string_of_range, same_text};

verus! {

/// Most tables the casino keeps open at once.
pub const MAX_TABLES: usize = 12;

/// Largest amount a casino form accepts.
pub const AMOUNT_LIMIT: u64 = 10_000_000_000;

/// The casino games.
#[derive(Clone, Copy, Debug, PartialEq, Eq, Structural)]
pub enum GameKind {
    Holdem,
    Blackjack,
}

impl GameKind {
    /// Display name of the game.
    pub open spec fn name_spec(self) -> Seq<char> {
        match self {
            GameKind::Holdem => "홀덤"@,
            GameKind::Blackjack => "블랙잭"@,
        }
    }

    /// The key of the game in form ids.
    pub open spec fn key_spec(self) -> Seq<char> {
        match self {
            GameKind::Holdem => "holdem"@,
            GameKind::Blackjack => "blackjack"@,
        }
    }

    /// The key of the game in form ids (`GameKind::key`).
    pub fn key(self) -> (s: &'static str)
        ensures
            s@ == self.key_spec(),
    {
        match self {
            GameKind::Holdem => "holdem",
            GameKind::Blackjack => "blackjack",
        }
    }

    /// Display name of the game (`GameKind::value`).
    pub fn value(self) -> (s: &'static str)
        ensures
            s@ == self.name_spec(),
    {
        match self {
            GameKind::Holdem => "홀덤",
            GameKind::Blackjack => "블랙잭",
        }
    }
}

/// The game picked in the table-creation command.
#[derive(Clone, Copy, Debug, PartialEq, Eq, Structural)]
pub enum CasinoGameChoice {
    Holdem,
    Blackjack,
}

impl CasinoGameChoice {
    /// The name shown for the choice.
    pub fn name(self) -> (s: &'static str)
        ensures
            s@ == self.kind_spec().name_spec(),
    {
        match self {
            CasinoGameChoice::Holdem => "홀덤",
            CasinoGameChoice::Blackjack => "블랙잭",
        }
    }

    /// The game the choice stands for.
    pub open spec fn kind_spec(self) -> GameKind {
        match self {
            CasinoGameChoice::Holdem => GameKind::Holdem,
            CasinoGameChoice::Blackjack => GameKind::Blackjack,
        }
    }

    /// The game the choice stands for (`CasinoGameChoice::kind`).
    pub fn kind(self) -> (k: GameKind)
        ensures
            k == self.kind_spec(),
    {
        match self {
            CasinoGameChoice::Holdem => GameKind::Holdem,
            CasinoGameChoice::Blackjack => GameKind::Blackjack,
        }
    }
}

/// What the casino panel shows of one table.
pub struct TableSummary {
    pub id: String,
    pub kind: GameKind,
    pub kind_text: String,
    pub name: String,
    pub seated: usize,
    pub seat_count: usize,
    pub playing: bool,
    pub phase_text: Option<String>,
    pub channel_id: Option<u64>,
    pub stakes: String,
}

/// The first paragraph of the casino panel.
pub const PANEL_INTRO: &'static str = "버튼으로 테이블에 들어가거나 내 코인을 확인할 수 있습니다. 관리자는 테이블을 만들고, 설정을 바꾸고, 닫을 수 있습니다.";

/// What the panel says when no table is open.
pub const PANEL_EMPTY: &'static str = "열려 있는 테이블이 없습니다. 관리자는 아래 버튼으로 테이블을 만들 수 있습니다.";

/// One table's line on the casino panel.
pub open spec fn table_line(t: TableSummary) -> Seq<char> {
    "🎴 **"@ + t.name@ + "** · "@ + t.kind_text@ + " · "@ + t.stakes@ + " · "@ + dec(t.seated as nat) + "/"@
        + dec(t.seat_count as nat) + "명 · "@ + (if t.playing { "진행 중"@ } else { "대기 중"@ })
        + match t.channel_id {
            Some(id) => " · <#"@ + dec(id as nat) + ">"@,
            None => Seq::empty(),
        }
}

/// The casino panel: the introduction, then the open tables, or a note that
/// none is open.
pub open spec fn casino_panel(summaries: Seq<TableSummary>) -> Seq<char> {
    if summaries.len() == 0 {
        PANEL_INTRO@ + "\n\n"@ + PANEL_EMPTY@
    } else {
        join(
            seq![PANEL_INTRO@, "열린 테이블 ("@ + dec(summaries.len()) + "/"@ + dec(MAX_TABLES as nat) + ")"@]
                + summaries.map_values(|t: TableSummary| table_line(t)),
            "\n\n"@,
        )
    }
}

fn table_line_text(t: &TableSummary) -> (s: String)
    ensures
        s@ == table_line(*t),
{
    let mut s = String::from_str("🎴 **");
    s.append(t.name.as_str());
    s.append("** · ");
    s.append(t.kind_text.as_str());
    s.append(" · ");
    s.append(t.stakes.as_str());
    s.append(" · ");
    push_dec(&mut s, t.seated as u64);
    s.append("/");
    push_dec(&mut s, t.seat_count as u64);
    s.append("명 · ");
    if t.playing {
        s.append("진행 중");
    } else {
        s.append("대기 중");
    }
    match t.channel_id {
        Some(id) => {
            s.append(" · <#");
            push_dec(&mut s, id);
            s.append(">");
        },
        None => {
            assert(s@ + Seq::<char>::empty() =~= s@);
        },
    }
    s
}

/// The casino panel (`render_casino_panel`).
pub fn render_casino_panel(summaries: &[TableSummary]) -> (s: String)
    ensures
        s@ == casino_panel(summaries@),
{
    if summaries.len() == 0 {
        let mut s = String::from_str(PANEL_INTRO);
        s.append("\n\n");
        s.append(PANEL_EMPTY);
        return s;
    }
    let mut lines: Vec<String> = Vec::new();
    lines.push(String::from_str(PANEL_INTRO));
    let mut head = String::from_str("열린 테이블 (");
    push_dec(&mut head, summaries.len() as u64);
    head.append("/");
    push_dec(&mut head, MAX_TABLES as u64);
    head.append(")");
    lines.push(head);
    let ghost start = views(lines@);
    assert(start =~= seq![PANEL_INTRO@,
        "열린 테이블 ("@ + dec(summaries@.len()) + "/"@ + dec(MAX_TABLES as nat) + ")"@]);
    let mut i: usize = 0;
    while i < summaries.len()
        invariant
            i <= summaries@.len(),
            lines@.len() == i + 2,
            views(lines@).take(2) == start,
            forall|k: int| 0 <= k < i ==> (#[trigger] lines@[k + 2])@ == table_line(summaries@[k]),
        decreases summaries@.len() - i,
    {
        let line = table_line_text(&summaries[i]);
        lines.push(line);
        assert(views(lines@).take(2) =~= start);
        i = i + 1;
    }
    proof {
        let want = start + summaries@.map_values(|t: TableSummary| table_line(t));
        assert forall|k: int| 0 <= k < want.len() implies #[trigger] views(lines@)[k] == want[k] by {
            if k < 2 {
                assert(views(lines@).take(2)[k] == views(lines@)[k]);
            } else {
                assert(lines@[(k - 2) + 2]@ == table_line(summaries@[k - 2]));
            }
        }
        assert(views(lines@) =~= want);
    }
    join_strings(&lines, "\n\n")
}

/// How a card code ("Ts", "9h", "??") is shown: rank ('T' as "10") then suit
/// symbol; a hidden card is "🂠".
pub open spec fn card_face(card: Seq<char>) -> Seq<char> {
    if card == "??"@ {
        "🂠"@
    } else if card.len() == 0 {
        card
    } else {
        let rank = if card[0] == 'T' { "10"@ } else { seq![card[0]] };
        let suit = if card.len() < 2 {
            Seq::<char>::empty()
        } else if card[1] == 's' {
            "♠"@
        } else if card[1] == 'h' {
            "♥"@
        } else if card[1] == 'd' {
            "♦"@
        } else if card[1] == 'c' {
            "♣"@
        } else {
            Seq::<char>::empty()
        };
        rank + suit
    }
}

/// How a card code is shown (`card_text`).
pub fn card_text(card: &str) -> (s: String)
    ensures
        s@ == card_face(card@),
{
    if same_text(card, "??") {
        return String::from_str("🂠");
    }
    let n = card.unicode_len();
    if n == 0 {
        return String::from_str(card);
    }
    let first = card.get_char(0);
    let mut s = if first == 'T' {
        String::from_str("10")
    } else {
        let mut r = String::new();
        push_char(&mut r, first);
        r
    };
    if n >= 2 {
        let second = card.get_char(1);
        if second == 's' {
            s.append("♠");
        } else if second == 'h' {
            s.append("♥");
        } else if second == 'd' {
            s.append("♦");
        } else if second == 'c' {
            s.append("♣");
        }
    }
    proof {
        reveal_strlit("10");
    }
    assert(s@ =~= card_face(card@));
    s
}

/// A list of cards separated by spaces, or "-" for none.
pub open spec fn cards_face(cards: Seq<Seq<char>>) -> Seq<char> {
    if cards.len() == 0 {
        "-"@
    } else {
        join(cards.map_values(|c: Seq<char>| card_face(c)), " "@)
    }
}

/// A list of cards (`cards_text`).
pub fn cards_text(cards: &[String]) -> (s: String)
    ensures
        s@ == cards_face(views(cards@)),
{
    if cards.len() == 0 {
        return String::from_str("-");
    }
    let mut faces: Vec<String> = Vec::new();
    let mut i: usize = 0;
    while i < cards.len()
        invariant
            i <= cards@.len(),
            faces@.len() == i,
            forall|k: int| 0 <= k < i ==> (#[trigger] faces@[k])@ == card_face(cards@[k]@),
        decreases cards@.len() - i,
    {
        faces.push(card_text(cards[i].as_str()));
        i = i + 1;
    }
    assert(views(faces@) =~= views(cards@).map_values(|c: Seq<char>| card_face(c)));
    join_strings(&faces, " ")
}

/// The characters that amounts may use as digit-group separators.
pub open spec fn is_separator(c: char) -> bool {
    c == ',' || c == '_' || c == ' '
}

/// `s` without digit-group separators.
pub open spec fn drop_separators(s: Seq<char>) -> Seq<char>
    decreases s.len(),
{
    if s.len() == 0 {
        s
    } else if is_separator(s.last()) {
        drop_separators(s.drop_last())
    } else {
        drop_separators(s.drop_last()).push(s.last())
    }
}

/// `s` without one trailing '원'.
pub open spec fn strip_won(s: Seq<char>) -> Seq<char> {
    if s.len() > 0 && s.last() == '원' { s.drop_last() } else { s }
}

/// Every character is an ASCII digit.
pub open spec fn all_digits(s: Seq<char>) -> bool {
    forall|i: int| 0 <= i < s.len() ==> '0' <= #[trigger] s[i] <= '9'
}

/// The number an ASCII digit string stands for.
pub open spec fn digits_value(s: Seq<char>) -> nat
    decreases s.len(),
{
    if s.len() == 0 {
        0
    } else {
        digits_value(s.drop_last()) * 10 + (s.last() as nat - '0' as nat) as nat
    }
}

/// What an amount field means: nothing for a blank field; otherwise the
/// number it holds once white space, one trailing '원' and digit-group
/// separators are dropped, up to `AMOUNT_LIMIT`; anything else is refused
/// with a message that repeats the input.
pub open spec fn amount_spec(text: Seq<char>) -> Result<Option<i64>, Seq<char>> {
    let t = trim(text);
    if t.len() == 0 {
        Ok(None)
    } else {
        let v = drop_separators(strip_won(t));
        if v.len() == 0 || !all_digits(v) || digits_value(v) > AMOUNT_LIMIT {
            Err("숫자로 입력하세요: "@ + text)
        } else {
            Ok(Some(digits_value(v) as i64))
        }
    }
}

/// The result of a function returning `String` errors matches one over
/// character sequences.
pub open spec fn matches_spec<T>(r: Result<T, String>, s: Result<T, Seq<char>>) -> bool {
    match (r, s) {
        (Ok(a), Ok(b)) => a == b,
        (Err(e), Err(f)) => e@ == f,
        _ => false,
    }
}

/// A prefix of a digit string is worth no more than the whole.
pub proof fn lemma_digits_prefix(s: Seq<char>, k: int)
    requires
        0 <= k <= s.len(),
    ensures
        digits_value(s.take(k)) <= digits_value(s),
    decreases s.len(),
{
    if k < s.len() {
        assert(s.drop_last().take(k) =~= s.take(k));
        lemma_digits_prefix(s.drop_last(), k);
    } else {
        assert(s.take(k) =~= s);
    }
}

/// Reads an amount field (`parse_amount`).
pub fn parse_amount(text: &str) -> (r: Result<Option<i64>, String>)
    ensures
        matches_spec(r, amount_spec(text@)),
{
    let t = trimmed_chars(text);
    if t.len() == 0 {
        return Ok(None);
    }
    let end = if t[t.len() - 1] == '원' { t.len() - 1 } else { t.len() };
    let ghost stripped = strip_won(t@);
    assert(t@.take(end as int) =~= stripped);
    let mut v: Vec<char> = Vec::new();
    let mut i: usize = 0;
    while i < end
        invariant
            end <= t@.len(),
            i <= end,
            stripped == t@.take(end as int),
            v@ == drop_separators(stripped.take(i as int)),
        decreases end - i,
    {
        let c = t[i];
        assert(stripped.take(i as int + 1).drop_last() =~= stripped.take(i as int));
        if !(c == ',' || c == '_' || c == ' ') {
            v.push(c);
        }
        i = i + 1;
    }
    assert(stripped.take(end as int) =~= stripped);
    let ghost value = v@;
    if v.len() == 0 {
        let mut e = String::from_str("숫자로 입력하세요: ");
        e.append(text);
        return Err(e);
    }
    let mut acc: u64 = 0;
    let mut k: usize = 0;
    while k < v.len()
        invariant
            value == v@,
            t@ == trim(text@),
            t@.len() > 0,
            stripped == strip_won(t@),
            value == drop_separators(stripped),
            k <= v@.len(),
            all_digits(v@.take(k as int)),
            acc == digits_value(v@.take(k as int)),
            acc <= AMOUNT_LIMIT,
        decreases v@.len() - k,
    {
        let c = v[k];
        assert(v@.take(k as int + 1).drop_last() =~= v@.take(k as int));
        if !('0' <= c && c <= '9') {
            let mut e = String::from_str("숫자로 입력하세요: ");
            e.append(text);
            return Err(e);
        }
        let d = (c as u32 - '0' as u32) as u64;
        let next = acc * 10 + d;
        if next > AMOUNT_LIMIT {
            proof {
                if all_digits(v@) {
                    lemma_digits_prefix(v@, k as int + 1);
                }
            }
            let mut e = String::from_str("숫자로 입력하세요: ");
            e.append(text);
            return Err(e);
        }
        acc = next;
        k = k + 1;
    }
    assert(v@.take(v@.len() as int) =~= v@);
    Ok(Some(acc as i64))
}

/// Position of the first `c` in `s`.
pub open spec fn find_char(s: Seq<char>, c: char) -> Option<nat>
    decreases s.len(),
{
    if s.len() == 0 {
        None
    } else if s[0] == c {
        Some(0)
    } else {
        match find_char(s.drop_first(), c) {
            Some(i) => Some(i + 1),
            None => None,
        }
    }
}

fn first_position(v: &Vec<char>, c: char) -> (r: Option<usize>)
    ensures
        match r {
            Some(i) => find_char(v@, c) == Some(i as nat),
            None => find_char(v@, c) is None,
        },
{
    let mut i: usize = 0;
    assert(v@.skip(0) =~= v@);
    while i < v.len()
        invariant
            i <= v@.len(),
            find_char(v@, c) == match find_char(v@.skip(i as int), c) {
                Some(p) => Some((p + i) as nat),
                None => None::<nat>,
            },
        decreases v@.len() - i,
    {
        assert(v@.skip(i as int).drop_first() =~= v@.skip(i as int + 1));
        assert(v@.skip(i as int)[0] == v@[i as int]);
        if v[i] == c {
            return Some(i);
        }
        i = i + 1;
    }
    None
}

fn holds_char(v: &Vec<char>, from: usize, c: char) -> (b: bool)
    requires
        from <= v@.len(),
    ensures
        b == v@.skip(from as int).contains(c),
{
    let mut i = from;
    while i < v.len()
        invariant
            from <= i <= v@.len(),
            forall|k: int| from <= k < i ==> v@[k] != c,
        decreases v@.len() - i,
    {
        if v[i] == c {
            assert(v@.skip(from as int)[i - from] == c);
            return true;
        }
        i = i + 1;
    }
    assert(!v@.skip(from as int).contains(c)) by {
        if v@.skip(from as int).contains(c) {
            let k = choose|k: int| 0 <= k < v@.skip(from as int).len() && v@.skip(from as int)[k] == c;
            assert(v@[k + from] == c);
        }
    }
    false
}

/// Where a range field is split: the first '~', or the first '-' when it is
/// not the first character, whichever comes first.
pub open spec fn range_separator(t: Seq<char>) -> Option<nat> {
    let tilde = find_char(t, '~');
    let hyphen = match find_char(t, '-') {
        Some(p) => if p > 0 { Some(p) } else { None },
        None => None,
    };
    match (tilde, hyphen) {
        (Some(a), Some(b)) => Some(if a <= b { a } else { b }),
        (Some(a), None) => Some(a),
        (None, Some(b)) => Some(b),
        (None, None) => None,
    }
}

/// What a range field means: nothing for a blank field; one amount as the
/// minimum; or two amounts around the separator.  A second separator after
/// the first is refused.
pub open spec fn range_spec(text: Seq<char>) -> Result<(Option<i64>, Option<i64>), Seq<char>> {
    let t = trim(text);
    if t.len() == 0 {
        Ok((None, None))
    } else {
        match range_separator(t) {
            None => match amount_spec(t) {
                Ok(v) => Ok((v, None)),
                Err(e) => Err(e),
            },
            Some(k) => {
                let rest = t.skip(k as int + 1);
                if rest.contains('~') || rest.contains('-') {
                    Err("범위는 5000~20000처럼 입력하세요."@)
                } else {
                    match amount_spec(t.take(k as int)) {
                        Err(e) => Err(e),
                        Ok(lo) => match amount_spec(rest) {
                            Err(e) => Err(e),
                            Ok(hi) => Ok((lo, hi)),
                        },
                    }
                }
            },
        }
    }
}

/// Reads a range field such as "5000~20000" (`parse_range`).
pub fn parse_range(text: &str) -> (r: Result<(Option<i64>, Option<i64>), String>)
    ensures
        matches_spec(r, range_spec(text@)),
{
    let t = trimmed_chars(text);
    if t.len() == 0 {
        return Ok((None, None));
    }
    let tilde = first_position(&t, '~');
    let hyphen = match first_position(&t, '-') {
        Some(p) => if p > 0 { Some(p) } else { None },
        None => None,
    };
    let separator = match (tilde, hyphen) {
        (Some(a), Some(b)) => Some(if a <= b { a } else { b }),
        (Some(a), None) => Some(a),
        (None, Some(b)) => Some(b),
        (None, None) => None,
    };
    let ghost tv = t@;
    assert(range_separator(tv) == match separator {
        Some(k) => Some(k as nat),
        None => None::<nat>,
    });
    match separator {
        None => {
            let whole = string_of(&t);
            match parse_amount(whole.as_str()) {
                Ok(v) => Ok((v, None)),
                Err(e) => Err(e),
            }
        },
        Some(k) => {
            proof {
                assert(find_char(tv, '~') is Some || find_char(tv, '-') is Some);
                lemma_find_in_range(tv, '~');
                lemma_find_in_range(tv, '-');
            }
            if holds_char(&t, k + 1, '~') || holds_char(&t, k + 1, '-') {
                return Err(String::from_str("범위는 5000~20000처럼 입력하세요."));
            }
            let head = string_of_range(&t, 0, k);
            assert(tv.subrange(0, k as int) =~= tv.take(k as int));
            let min = match parse_amount(head.as_str()) {
                Ok(v) => v,
                Err(e) => return Err(e),
            };
            let tail = string_of_range(&t, k + 1, t.len());
            assert(tv.subrange(k + 1, tv.len() as int) =~= tv.skip(k + 1));
            let max = match parse_amount(tail.as_str()) {
                Ok(v) => v,
                Err(e) => return Err(e),
            };
            Ok((min, max))
        },
    }
}

proof fn lemma_find_in_range(s: Seq<char>, c: char)
    ensures
        match find_char(s, c) {
            Some(i) => i < s.len() && s[i as int] == c,
            None => !s.contains(c),
        },
    decreases s.len(),
{
    if s.len() > 0 {
        lemma_find_in_range(s.drop_first(), c);
        if s[0] != c {
            assert(s.contains(c) ==> s.drop_first().contains(c)) by {
                if s.contains(c) {
                    let k = choose|k: int| 0 <= k < s.len() && s[k] == c;
                    assert(s.drop_first()[k - 1] == c);
                }
            }
        }
    }
}


/// The settings of a table, as its settings form shows them.
#[derive(Clone, Copy, Debug, PartialEq, Eq, Structural)]
pub struct TableSettings {
    pub min_bet: u64,
    pub max_bet: u64,
    pub big_blind: u64,
    pub min_buy_in: u64,
    pub max_buy_in: u64,
    pub side_bet_max: u64,
    pub turn_ms: u64,
}

/// What a table-settings form asks for; a missing value means "the default".
#[derive(Clone, Copy, Debug, PartialEq, Eq, Structural)]
pub struct SettingsRequest {
    pub min_bet: Option<i64>,
    pub max_bet: Option<i64>,
    pub big_blind: Option<i64>,
    pub min_buy_in: Option<i64>,
    pub max_buy_in: Option<i64>,
    pub side_bet_max: Option<i64>,
    pub turn_secs: Option<i64>,
}

/// The request a table-settings form makes, read field by field in the
/// form's order; the first field that does not read refuses the form with
/// that field's message.  Hold'em reads a big blind, blackjack a bet range
/// and a side-bet limit.
pub open spec fn request_spec(
    kind: GameKind,
    big_blind: Seq<char>,
    bet_range: Seq<char>,
    buy_in_range: Seq<char>,
    side_max: Seq<char>,
    turn_secs: Seq<char>,
) -> Result<SettingsRequest, Seq<char>> {
    let stakes: Result<(Option<i64>, Option<i64>, Option<i64>), Seq<char>> = match kind {
        GameKind::Holdem => match amount_spec(big_blind) {
            Ok(b) => Ok((None, None, b)),
            Err(e) => Err(e),
        },
        GameKind::Blackjack => match range_spec(bet_range) {
            Ok((lo, hi)) => Ok((lo, hi, None)),
            Err(e) => Err(e),
        },
    };
    match stakes {
        Err(e) => Err(e),
        Ok((min_bet, max_bet, blind)) => match range_spec(buy_in_range) {
            Err(e) => Err(e),
            Ok((min_buy_in, max_buy_in)) => {
                let side: Result<Option<i64>, Seq<char>> = match kind {
                    GameKind::Blackjack => amount_spec(side_max),
                    GameKind::Holdem => Ok(None),
                };
                match side {
                    Err(e) => Err(e),
                    Ok(side_bet_max) => match amount_spec(turn_secs) {
                        Err(e) => Err(e),
                        Ok(secs) => Ok(SettingsRequest {
                            min_bet,
                            max_bet,
                            big_blind: blind,
                            min_buy_in,
                            max_buy_in,
                            side_bet_max,
                            turn_secs: secs,
                        }),
                    },
                }
            },
        },
    }
}

/// Reads a table-settings form into a request; the game engine then checks
/// the request.
pub fn settings_request(
    kind: GameKind,
    big_blind: &str,
    bet_range: &str,
    buy_in_range: &str,
    side_max: &str,
    turn_secs: &str,
) -> (r: Result<SettingsRequest, String>)
    ensures
        matches_spec(r, request_spec(kind, big_blind@, bet_range@, buy_in_range@, side_max@, turn_secs@)),
{
    let (min_bet, max_bet, blind) = match kind {
        GameKind::Holdem => match parse_amount(big_blind) {
            Ok(b) => (None, None, b),
            Err(e) => return Err(e),
        },
        GameKind::Blackjack => match parse_range(bet_range) {
            Ok((lo, hi)) => (lo, hi, None),
            Err(e) => return Err(e),
        },
    };
    let (min_buy_in, max_buy_in) = match parse_range(buy_in_range) {
        Ok(v) => v,
        Err(e) => return Err(e),
    };
    let side_bet_max = match kind {
        GameKind::Blackjack => match parse_amount(side_max) {
            Ok(v) => v,
            Err(e) => return Err(e),
        },
        GameKind::Holdem => None,
    };
    let secs = match parse_amount(turn_secs) {
        Ok(v) => v,
        Err(e) => return Err(e),
    };
    Ok(SettingsRequest { min_bet, max_bet, big_blind: blind, min_buy_in, max_buy_in, side_bet_max, turn_secs: secs })
}

/// How sending through a table channel's webhook failed.
#[derive(Clone, Copy, Debug, PartialEq, Eq, Structural)]
pub enum WebhookError {
    /// The webhook came without its token.
    NoToken,
    /// Discord answered with this HTTP status.
    Http(u16),
    /// Anything else, such as a timeout.
    Other,
}

/// Whether a failed webhook must be dropped and made anew rather than tried
/// again (`webhook_unusable`): it has no token, or Discord refused or no
/// longer knows it (401, 403, 404).
pub fn webhook_unusable(error: WebhookError) -> (b: bool)
    ensures
        b == (match error {
            WebhookError::NoToken => true,
            WebhookError::Http(status) => status == 401 || status == 403 || status == 404,
            WebhookError::Other => false,
        }),
{
    match error {
        WebhookError::NoToken => true,
        WebhookError::Http(status) => status == 401 || status == 403 || status == 404,
        WebhookError::Other => false,
    }
}

/// The name a settings form gives a table (trimmed), and whether it differs
/// from the current name so that the table must be renamed.
pub fn settings_form_name(old_name: &str, raw_name: &str) -> (r: (String, bool))
    ensures
        r.0@ == trim(raw_name@),
        r.1 == (trim(raw_name@) != old_name@),
{
    let name = crate::text::trimmed(raw_name);
    let differs = !crate::text::same_text(name.as_str(), old_name);
    (name, differs)
}

/// Whether the table's channel must be renamed: the name the channel last
/// got (`fallback` when none was kept) is not the wanted one.
pub fn channel_rename_due(kept: Option<&str>, fallback: &str, wanted: &str) -> (b: bool)
    ensures
        b == (match kept { Some(k) => k@, None => fallback@ } != wanted@),
{
    let current = match kept {
        Some(k) => k,
        None => fallback,
    };
    !crate::text::same_text(current, wanted)
}

/// What became of renaming a table's channel.
#[derive(Clone, Copy, Debug, PartialEq, Eq, Structural)]
pub enum ChannelRename {
    /// The channel already had the wanted name, or the table has no channel.
    NotNeeded,
    Done,
    Failed,
    /// Skipped because of Discord's limit of two renames in ten minutes.
    Throttled,
}

/// The answer to a submitted table-settings form.
pub struct SettingsOutcome {
    /// Whether anything changed; when nothing did, the reply says so and
    /// nothing is saved.
    pub changed: bool,
    pub reply: String,
    /// The line for the manager log, when the name or the settings changed.
    pub log: Option<String>,
}

/// The notes about the name and the channel.
pub open spec fn rename_notes(name: Seq<char>, renamed: bool, channel: ChannelRename) -> Seq<Seq<char>> {
    let first: Seq<Seq<char>> = if renamed { seq!["이름을 **"@ + name + "**(으)로 바꿨습니다."@] } else { Seq::empty() };
    first + match channel {
        ChannelRename::NotNeeded => Seq::<Seq<char>>::empty(),
        ChannelRename::Done => if renamed { Seq::<Seq<char>>::empty() } else { seq!["채널 이름을 테이블 이름에 맞췄습니다."@] },
        ChannelRename::Failed => seq!["채널 이름은 바꾸지 못했습니다. 나중에 설정 창을 다시 제출하면 다시 시도합니다."@],
        ChannelRename::Throttled => seq!["채널 이름은 Discord 제한(10분에 두 번)으로 이번에는 바꾸지 않았습니다. 10분 뒤 설정 창을 다시 제출하면 맞춥니다."@],
    }
}

/// The note about applying new settings, whose summary is `summary`.
pub open spec fn apply_note(applied: bool, summary: Seq<char>) -> Seq<char> {
    if applied {
        "방 설정을 적용했습니다: "@ + summary
    } else {
        "라운드가 진행 중이라 이번 라운드가 끝나면 적용됩니다: "@ + summary
    }
}

/// The manager log line of a settings change.
pub open spec fn settings_log(user_name: Seq<char>, old_name: Seq<char>, name: Seq<char>, renamed: bool,
    settings_changed: bool, summary: Seq<char>) -> Seq<char>
{
    user_name + " 님이 테이블 **"@ + old_name + "**을 바꿨습니다."@
        + (if renamed { " 이름: "@ + old_name + " → "@ + name } else { Seq::empty() })
        + (if settings_changed { " 설정: "@ + summary } else { Seq::empty() })
}

/// The answer to a table-settings form, from what each of its steps gave: renaming the table (`Err` refuses),
/// renaming its channel, and applying the settings when they differ from the
/// ones in force (`None` when they do not; `Err` refuses; `Ok(false)` when
/// they wait for the end of the round).  With nothing changed the reply says
/// so; otherwise it lists the notes, and the name or settings change is logged.
pub open spec fn settings_outcome_spec(user_name: Seq<char>, old_name: Seq<char>, name: Seq<char>,
    renamed: Result<bool, Seq<char>>, channel: ChannelRename, applied: Option<Result<bool, Seq<char>>>,
    summary: Seq<char>) -> Result<(bool, Seq<char>, Option<Seq<char>>), Seq<char>>
{
    match renamed {
        Err(e) => Err(e),
        Ok(rn) => match applied {
            Some(Err(e)) => Err(e),
            _ => {
                let notes = rename_notes(name, rn, channel);
                let changed = applied is Some;
                if notes.len() == 0 && !changed {
                    Ok((false, "바뀐 내용이 없습니다."@, None))
                } else {
                    let all = match applied {
                        Some(Ok(a)) => notes.push(apply_note(a, summary)),
                        _ => notes,
                    };
                    let log = if rn || changed {
                        Some(settings_log(user_name, old_name, name, rn, changed, summary))
                    } else {
                        None
                    };
                    Ok((true, join(all, "\n"@), log))
                }
            },
        },
    }
}

fn push_line(lines: &mut Vec<String>, line: &str)
    ensures
        views(final(lines)@) == views(old(lines)@).push(line@),
{
    lines.push(String::from_str(line));
    assert(views(lines@) =~= views(old(lines)@).push(line@));
}

/// The answer to a table-settings form.
pub fn casino_settings_outcome(user_name: &str, old_name: &str, name: &str, renamed: Result<bool, String>,
    channel: ChannelRename, applied: Option<Result<bool, String>>, summary: &str) -> (o: Result<SettingsOutcome, String>)
    ensures
        match settings_outcome_spec(user_name@, old_name@, name@,
            match renamed { Ok(b) => Ok(b), Err(e) => Err(e@) }, channel,
            match applied { Some(Ok(b)) => Some(Ok(b)), Some(Err(e)) => Some(Err(e@)), None => None }, summary@) {
            Err(e) => o matches Err(m) && m@ == e,
            Ok((changed, reply, log)) => o matches Ok(out) && out.changed == changed && out.reply@ == reply
                && match log {
                    Some(l) => out.log matches Some(x) && x@ == l,
                    None => out.log is None,
                },
        },
{
    let rn = match renamed {
        Err(e) => return Err(e),
        Ok(b) => b,
    };
    let apply: Option<bool> = match applied {
        Some(Err(e)) => return Err(e),
        Some(Ok(a)) => Some(a),
        None => None,
    };
    let mut notes: Vec<String> = Vec::new();
    if rn {
        let mut n = String::from_str("이름을 **");
        n.append(name);
        n.append("**(으)로 바꿨습니다.");
        notes.push(n);
    }
    assert(views(notes@) =~= (if rn { seq!["이름을 **"@ + name@ + "**(으)로 바꿨습니다."@] } else { Seq::<Seq<char>>::empty() }));
    match channel {
        ChannelRename::NotNeeded => {},
        ChannelRename::Done => if !rn {
            push_line(&mut notes, "채널 이름을 테이블 이름에 맞췄습니다.");
        },
        ChannelRename::Failed => push_line(&mut notes, "채널 이름은 바꾸지 못했습니다. 나중에 설정 창을 다시 제출하면 다시 시도합니다."),
        ChannelRename::Throttled => push_line(&mut notes, "채널 이름은 Discord 제한(10분에 두 번)으로 이번에는 바꾸지 않았습니다. 10분 뒤 설정 창을 다시 제출하면 맞춥니다."),
    }
    assert(views(notes@) =~= rename_notes(name@, rn, channel));
    let changed = apply.is_some();
    if notes.len() == 0 && !changed {
        return Ok(SettingsOutcome { changed: false, reply: String::from_str("바뀐 내용이 없습니다."), log: None });
    }
    match apply {
        Some(a) => {
            let mut n = String::from_str(if a { "방 설정을 적용했습니다: " } else { "라운드가 진행 중이라 이번 라운드가 끝나면 적용됩니다: " });
            n.append(summary);
            let ghost before = views(notes@);
            notes.push(n);
            assert(views(notes@) =~= before.push(apply_note(a, summary@)));
        },
        None => {},
    }
    let reply = join_strings(&notes, "\n");
    let log = if rn || changed {
        let mut l = String::from_str(user_name);
        l.append(" 님이 테이블 **");
        l.append(old_name);
        l.append("**을 바꿨습니다.");
        if rn {
            l.append(" 이름: ");
            l.append(old_name);
            l.append(" → ");
            l.append(name);
        }
        if changed {
            l.append(" 설정: ");
            l.append(summary);
        }
        Some(l)
    } else {
        None
    };
    Ok(SettingsOutcome { changed: true, reply, log })
}

} // verus!
