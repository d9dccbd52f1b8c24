//! The bot's Discord forms and buttons as plain values: the input fields of
//! its pop-up forms and the buttons under its messages.  Whoever talks to
//! Discord builds the real components from these.
use vstd::prelude::*;
use crate::casino::{GameKind, TableSettings, TableSummary};
use crate::recruitment::Recruitment;
use crate::text::{dec, push_dec, chars_of, string_of_range, same_text};

verus! {

/// A one-line text field of a form.
pub struct TextInput {
    pub label: String,
    pub custom_id: String,
    pub placeholder: String,
    pub min_length: Option<u16>,
    pub max_length: u16,
    pub required: bool,
    /// The text the field starts with; never empty.
    pub value: Option<String>,
}

/// A pop-up form.
pub struct Modal {
    pub custom_id: String,
    pub title: String,
    pub inputs: Vec<TextInput>,
}

/// The colours of a button.
#[derive(Clone, Copy, Debug, PartialEq, Eq, Structural)]
pub enum ButtonStyle {
    Primary,
    Secondary,
    Success,
    Danger,
}

/// A button under a message.
pub struct Button {
    pub custom_id: String,
    pub label: String,
    pub emoji: Option<char>,
    pub style: ButtonStyle,
    pub disabled: bool,
}

/// No field of the form starts with an empty text, which Discord refuses.
pub open spec fn no_empty_start(m: Modal) -> bool {
    forall|i: int| 0 <= i < m.inputs@.len() ==> ((#[trigger] m.inputs@[i]).value matches Some(v) ==> v@.len() > 0)
}

/// A text field with exactly these parts.
pub open spec fn input_is(input: TextInput, label: Seq<char>, custom_id: Seq<char>, placeholder: Seq<char>,
    min_length: Option<u16>, max_length: u16, required: bool, value: Option<Seq<char>>) -> bool
{
    &&& input.label@ == label
    &&& input.custom_id@ == custom_id
    &&& input.placeholder@ == placeholder
    &&& input.min_length == min_length
    &&& input.max_length == max_length
    &&& input.required == required
    &&& match value {
        Some(v) => input.value matches Some(x) && x@ == v,
        None => input.value is None,
    }
}

/// A button with exactly these parts.
pub open spec fn button_is(b: Button, custom_id: Seq<char>, label: Seq<char>, emoji: Option<char>,
    style: ButtonStyle, disabled: bool) -> bool
{
    &&& b.custom_id@ == custom_id
    &&& b.label@ == label
    &&& b.emoji == emoji
    &&& b.style == style
    &&& b.disabled == disabled
}

/// The start text kept for a field: an empty one is left out, since Discord
/// refuses an empty start text.
pub open spec fn kept_value(value: Option<Seq<char>>) -> Option<Seq<char>> {
    match value {
        Some(v) => if v.len() == 0 { None } else { Some(v) },
        None => None,
    }
}

/// A one-line text field (`modal_input`), with no minimum length.
pub fn modal_input(label: &str, custom_id: &str, placeholder: &str, max_length: u16, required: bool,
    value: Option<String>) -> (input: TextInput)
    ensures
        input_is(input, label@, custom_id@, placeholder@, None, max_length, required,
            kept_value(match value { Some(v) => Some(v@), None => None })),
{
    let kept = match value {
        Some(v) => if v.unicode_len() == 0 { None } else { Some(v) },
        None => None,
    };
    TextInput {
        label: String::from_str(label),
        custom_id: String::from_str(custom_id),
        placeholder: String::from_str(placeholder),
        min_length: None,
        max_length,
        required,
        value: kept,
    }
}

/// The automatic-start form (`auto_start_modal`): one field for the head
/// count, started with the current setting when there is one.
pub fn auto_start_modal(guild_id: u64, recruitment: &Recruitment) -> (m: Modal)
    ensures
        no_empty_start(m),
        m.custom_id@ == "autostart:"@ + dec(guild_id as nat),
        m.title@ == "자동시작 인원 설정"@,
        m.inputs@.len() == 1,
        input_is(m.inputs@[0],
            "인원 ("@ + dec(recruitment.minimum_players as nat) + "~"@ + dec(recruitment.max_players as nat) + "명)"@,
            "auto_start_players"@,
            "예: "@ + dec(recruitment.minimum_players as nat) + " (이 인원이 모이면 즉시 시작)"@,
            Some(1u16), 3u16, true,
            match recruitment.auto_start_players {
                Some(n) => Some(dec(n as nat)),
                None => None,
            }),
{
    let mut label = String::from_str("인원 (");
    push_dec(&mut label, recruitment.minimum_players as u64);
    label.append("~");
    push_dec(&mut label, recruitment.max_players as u64);
    label.append("명)");
    let mut placeholder = String::from_str("예: ");
    push_dec(&mut placeholder, recruitment.minimum_players as u64);
    placeholder.append(" (이 인원이 모이면 즉시 시작)");
    let value = match recruitment.auto_start_players {
        Some(n) => {
            proof {
                lemma_dec_nonempty(n as nat);
            }
            let mut v = String::new();
            push_dec(&mut v, n as u64);
            Some(v)
        },
        None => None,
    };
    let input = TextInput {
        label,
        custom_id: String::from_str("auto_start_players"),
        placeholder,
        min_length: Some(1),
        max_length: 3,
        required: true,
        value,
    };
    let mut custom_id = String::from_str("autostart:");
    push_dec(&mut custom_id, guild_id);
    Modal { custom_id, title: String::from_str("자동시작 인원 설정"), inputs: vec![input] }
}

fn button(custom_id: String, label: &str, emoji: Option<char>, style: ButtonStyle, disabled: bool) -> (b: Button)
    ensures
        button_is(b, custom_id@, label@, emoji, style, disabled),
{
    Button { custom_id, label: String::from_str(label), emoji, style, disabled }
}

fn keyed_id(prefix: &str, key: u64) -> (s: String)
    ensures
        s@ == prefix@ + dec(key as nat),
{
    let mut s = String::from_str(prefix);
    push_dec(&mut s, key);
    s
}

/// The buttons under a recruitment message (`recruitment_components`): join,
/// spectate, start, automatic start and cancel, all disabled once the
/// recruitment is over.
pub fn recruitment_components(guild_id: u64, disabled: bool) -> (rows: Vec<Vec<Button>>)
    ensures
        rows@.len() == 1,
        rows@[0]@.len() == 5,
        button_is(rows@[0]@[0], "join:"@ + dec(guild_id as nat), "참가"@, None, ButtonStyle::Success, disabled),
        button_is(rows@[0]@[1], "spectate:"@ + dec(guild_id as nat), "관전"@, None, ButtonStyle::Secondary, disabled),
        button_is(rows@[0]@[2], "startnow:"@ + dec(guild_id as nat), "시작"@, None, ButtonStyle::Primary, disabled),
        button_is(rows@[0]@[3], "autostart:"@ + dec(guild_id as nat), "자동시작"@, None, ButtonStyle::Primary, disabled),
        button_is(rows@[0]@[4], "cancelrec:"@ + dec(guild_id as nat), "취소"@, None, ButtonStyle::Danger, disabled),
{
    let row = vec![
        button(keyed_id("join:", guild_id), "참가", None, ButtonStyle::Success, disabled),
        button(keyed_id("spectate:", guild_id), "관전", None, ButtonStyle::Secondary, disabled),
        button(keyed_id("startnow:", guild_id), "시작", None, ButtonStyle::Primary, disabled),
        button(keyed_id("autostart:", guild_id), "자동시작", None, ButtonStyle::Primary, disabled),
        button(keyed_id("cancelrec:", guild_id), "취소", None, ButtonStyle::Danger, disabled),
    ];
    vec![row]
}

/// The buttons of the casino panel (`panel_components`): entering a table
/// and one's own coins; creating, configuring and closing tables.
pub fn panel_components() -> (rows: Vec<Vec<Button>>)
    ensures
        rows@.len() == 2,
        rows@[0]@.len() == 2,
        button_is(rows@[0]@[0], "casino_panel:enter"@, "테이블 입장"@, Some('🎰'), ButtonStyle::Success, false),
        button_is(rows@[0]@[1], "casino_panel:me"@, "내 정보"@, Some('💰'), ButtonStyle::Secondary, false),
        rows@[1]@.len() == 4,
        button_is(rows@[1]@[0], "casino_panel:create_holdem"@, "홀덤 테이블 만들기"@, None, ButtonStyle::Primary, false),
        button_is(rows@[1]@[1], "casino_panel:create_blackjack"@, "블랙잭 테이블 만들기"@, None, ButtonStyle::Primary, false),
        button_is(rows@[1]@[2], "casino_panel:settings"@, "테이블 설정"@, Some('🔧'), ButtonStyle::Secondary, false),
        button_is(rows@[1]@[3], "casino_panel:close"@, "테이블 닫기"@, None, ButtonStyle::Danger, false),
{
    let first = vec![
        button(String::from_str("casino_panel:enter"), "테이블 입장", Some('🎰'), ButtonStyle::Success, false),
        button(String::from_str("casino_panel:me"), "내 정보", Some('💰'), ButtonStyle::Secondary, false),
    ];
    let second = vec![
        button(String::from_str("casino_panel:create_holdem"), "홀덤 테이블 만들기", None, ButtonStyle::Primary, false),
        button(String::from_str("casino_panel:create_blackjack"), "블랙잭 테이블 만들기", None, ButtonStyle::Primary, false),
        button(String::from_str("casino_panel:settings"), "테이블 설정", Some('🔧'), ButtonStyle::Secondary, false),
        button(String::from_str("casino_panel:close"), "테이블 닫기", None, ButtonStyle::Danger, false),
    ];
    vec![first, second]
}

fn with_min_length(input: TextInput, min: u16) -> (r: TextInput)
    ensures
        r == (TextInput { min_length: Some(min), ..input }),
{
    TextInput { min_length: Some(min), ..input }
}

/// The name field of the table forms.
pub open spec fn name_input_is(input: TextInput, value: Option<Seq<char>>) -> bool {
    input_is(input, "이름"@, "name"@, "테이블 이름 (2~24자)"@, Some(2u16), 24u16, true, kept_value(value))
}

/// The form that creates a table (`create_table_modal`): a name, the
/// stakes of the game (hold'em: big blind and buy-in range; blackjack: bet
/// range, side-bet limit and buy-in range), and the turn time, all empty.
pub fn create_table_modal(kind: GameKind) -> (m: Modal)
    ensures
        no_empty_start(m),
        m.custom_id@ == "casino_create:"@ + kind.key_spec(),
        m.title@ == (match kind {
            GameKind::Holdem => "홀덤 테이블 만들기"@,
            GameKind::Blackjack => "블랙잭 테이블 만들기"@,
        }),
        name_input_is(m.inputs@[0], None),
        match kind {
            GameKind::Holdem => {
                &&& m.inputs@.len() == 4
                &&& input_is(m.inputs@[1], "빅 블라인드"@, "big_blind"@, "비우면 100 · 10~50,000 짝수, 스몰은 절반"@, None, 20u16, false, None)
                &&& input_is(m.inputs@[2], "바이인 범위"@, "buy_in_range"@, "예: 5000~20000 · 비우면 빅 블라인드 ×50~×200"@, None, 40u16, false, None)
            },
            GameKind::Blackjack => {
                &&& m.inputs@.len() == 5
                &&& input_is(m.inputs@[1], "베팅 범위"@, "bet_range"@, "예: 100~5000 · 비우면 100~5,000"@, None, 40u16, false, None)
                &&& input_is(m.inputs@[2], "사이드베팅 최대"@, "side_max"@, "0이면 사이드베팅 없음 · 비우면 최대 베팅의 절반"@, None, 20u16, false, None)
                &&& input_is(m.inputs@[3], "바이인 범위"@, "buy_in_range"@, "예: 5000~20000 · 비우면 최소 베팅×50~최대 베팅×4"@, None, 40u16, false, None)
            },
        },
        input_is(m.inputs@[m.inputs@.len() - 1], "제한 시간(초)"@, "turn_secs"@, "10~120 · 비우면 30"@, None, 5u16, false, None),
{
    let mut inputs: Vec<TextInput> = Vec::new();
    inputs.push(with_min_length(modal_input("이름", "name", "테이블 이름 (2~24자)", 24, true, None), 2));
    match kind {
        GameKind::Holdem => {
            inputs.push(modal_input("빅 블라인드", "big_blind", "비우면 100 · 10~50,000 짝수, 스몰은 절반", 20, false, None));
            inputs.push(modal_input("바이인 범위", "buy_in_range", "예: 5000~20000 · 비우면 빅 블라인드 ×50~×200", 40, false, None));
        },
        GameKind::Blackjack => {
            inputs.push(modal_input("베팅 범위", "bet_range", "예: 100~5000 · 비우면 100~5,000", 40, false, None));
            inputs.push(modal_input("사이드베팅 최대", "side_max", "0이면 사이드베팅 없음 · 비우면 최대 베팅의 절반", 20, false, None));
            inputs.push(modal_input("바이인 범위", "buy_in_range", "예: 5000~20000 · 비우면 최소 베팅×50~최대 베팅×4", 40, false, None));
        },
    }
    inputs.push(modal_input("제한 시간(초)", "turn_secs", "10~120 · 비우면 30", 5, false, None));
    let mut custom_id = String::from_str("casino_create:");
    custom_id.append(kind.key());
    let title = match kind {
        GameKind::Holdem => String::from_str("홀덤 테이블 만들기"),
        GameKind::Blackjack => String::from_str("블랙잭 테이블 만들기"),
    };
    Modal { custom_id, title, inputs }
}

fn range_text(lo: u64, hi: u64) -> (s: String)
    ensures
        s@ == dec(lo as nat) + "~"@ + dec(hi as nat),
{
    let mut s = String::new();
    push_dec(&mut s, lo);
    s.append("~");
    push_dec(&mut s, hi);
    s
}

fn number_text(n: u64) -> (s: String)
    ensures
        s@ == dec(n as nat),
{
    let mut s = String::new();
    push_dec(&mut s, n);
    s
}

proof fn lemma_dec_nonempty(n: nat)
    ensures
        dec(n).len() > 0,
    decreases n,
{
    if n >= 10 {
        lemma_dec_nonempty(n / 10);
    }
}

/// The title of a table's settings form: the table name and " 설정", cut
/// to 45 characters.
pub open spec fn settings_title(name: Seq<char>) -> Seq<char> {
    let t = name + " 설정"@;
    if t.len() <= 45 { t } else { t.take(45) }
}

/// The form that changes a table's settings (`table_settings_modal`): the
/// fields of the creation form, started with the table's current name and
/// settings.
pub fn table_settings_modal(table_id: &str, kind: GameKind, name: &str, settings: TableSettings) -> (m: Modal)
    ensures
        no_empty_start(m),
        m.custom_id@ == "casino_settings:"@ + table_id@,
        m.title@ == settings_title(name@),
        name_input_is(m.inputs@[0], Some(name@)),
        match kind {
            GameKind::Holdem => {
                &&& m.inputs@.len() == 4
                &&& input_is(m.inputs@[1], "빅 블라인드"@, "big_blind"@, "비우면 기본값 · 짝수"@, None, 20u16, false,
                    Some(dec(settings.big_blind as nat)))
                &&& input_is(m.inputs@[2], "바이인 범위"@, "buy_in_range"@, "예: 5000~20000"@, None, 40u16, false,
                    Some(dec(settings.min_buy_in as nat) + "~"@ + dec(settings.max_buy_in as nat)))
            },
            GameKind::Blackjack => {
                &&& m.inputs@.len() == 5
                &&& input_is(m.inputs@[1], "베팅 범위"@, "bet_range"@, "예: 100~5000"@, None, 40u16, false,
                    Some(dec(settings.min_bet as nat) + "~"@ + dec(settings.max_bet as nat)))
                &&& input_is(m.inputs@[2], "사이드베팅 최대"@, "side_max"@, "0이면 사이드베팅 없음"@, None, 20u16, false,
                    Some(dec(settings.side_bet_max as nat)))
                &&& input_is(m.inputs@[3], "바이인 범위"@, "buy_in_range"@, "예: 5000~20000"@, None, 40u16, false,
                    Some(dec(settings.min_buy_in as nat) + "~"@ + dec(settings.max_buy_in as nat)))
            },
        },
        input_is(m.inputs@[m.inputs@.len() - 1], "제한 시간(초)"@, "turn_secs"@, "10~120 · 비우면 기본값"@, None, 5u16, false,
            Some(dec((settings.turn_ms / 1000) as nat))),
{
    proof {
        lemma_dec_nonempty(settings.min_bet as nat);
        lemma_dec_nonempty(settings.min_buy_in as nat);
        lemma_dec_nonempty(settings.big_blind as nat);
        lemma_dec_nonempty(settings.side_bet_max as nat);
        lemma_dec_nonempty((settings.turn_ms / 1000) as nat);
    }
    let mut inputs: Vec<TextInput> = Vec::new();
    inputs.push(with_min_length(
        modal_input("이름", "name", "테이블 이름 (2~24자)", 24, true, Some(String::from_str(name))), 2));
    match kind {
        GameKind::Holdem => {
            inputs.push(modal_input("빅 블라인드", "big_blind", "비우면 기본값 · 짝수", 20, false,
                Some(number_text(settings.big_blind))));
            inputs.push(modal_input("바이인 범위", "buy_in_range", "예: 5000~20000", 40, false,
                Some(range_text(settings.min_buy_in, settings.max_buy_in))));
        },
        GameKind::Blackjack => {
            inputs.push(modal_input("베팅 범위", "bet_range", "예: 100~5000", 40, false,
                Some(range_text(settings.min_bet, settings.max_bet))));
            inputs.push(modal_input("사이드베팅 최대", "side_max", "0이면 사이드베팅 없음", 20, false,
                Some(number_text(settings.side_bet_max))));
            inputs.push(modal_input("바이인 범위", "buy_in_range", "예: 5000~20000", 40, false,
                Some(range_text(settings.min_buy_in, settings.max_buy_in))));
        },
    }
    inputs.push(modal_input("제한 시간(초)", "turn_secs", "10~120 · 비우면 기본값", 5, false,
        Some(number_text(settings.turn_ms / 1000))));
    let mut custom_id = String::from_str("casino_settings:");
    custom_id.append(table_id);
    let mut full = String::from_str(name);
    full.append(" 설정");
    let chars = chars_of(full.as_str());
    let cut: usize = if chars.len() <= 45 { chars.len() } else { 45 };
    let title = string_of_range(&chars, 0, cut);
    Modal { custom_id, title, inputs }
}

/// One choice of a pick list.
pub struct SelectOption {
    pub label: String,
    pub value: String,
    pub description: String,
}

/// A pick list under a message.
pub struct SelectMenu {
    pub custom_id: String,
    pub placeholder: String,
    pub min_values: u8,
    pub max_values: u8,
    pub options: Vec<SelectOption>,
}

/// At most the first `n` characters.
pub open spec fn first_chars(s: Seq<char>, n: nat) -> Seq<char> {
    if s.len() <= n { s } else { s.take(n as int) }
}

fn first_chars_of(s: &str, n: usize) -> (r: String)
    ensures
        r@ == first_chars(s@, n as nat),
{
    let chars = chars_of(s);
    let cut: usize = if chars.len() <= n { chars.len() } else { n };
    string_of_range(&chars, 0, cut)
}

/// How a table is described in the pick list: game, stakes, seats taken,
/// and a note when the user sits at it.
pub open spec fn table_choice_text(t: &TableSummary, seated_here: bool) -> Seq<char> {
    let base = t.kind_text@ + " · "@ + t.stakes@ + " · "@ + dec(t.seated as nat) + "/"@ + dec(t.seat_count as nat) + "명"@;
    if seated_here { base + " · 앉아 있음"@ } else { base }
}

/// The table pick list of the casino panel (`panel_select`): one choice per
/// table, by its id, named and described in at most a hundred characters;
/// `seated` is the table the user sits at, if any.
pub fn panel_select(action: &str, summaries: &Vec<TableSummary>, seated: Option<&str>) -> (m: SelectMenu)
    ensures
        m.custom_id@ == "casino_pick:"@ + action@,
        m.placeholder@ == "테이블을 선택하세요"@,
        m.min_values == 1,
        m.max_values == 1,
        m.options@.len() == summaries@.len(),
        forall|i: int| 0 <= i < summaries@.len() ==> {
            &&& (#[trigger] m.options@[i]).label@ == first_chars(summaries@[i].name@, 100)
            &&& m.options@[i].value@ == summaries@[i].id@
            &&& m.options@[i].description@ == first_chars(table_choice_text(&summaries@[i],
                seated matches Some(t) && t@ == summaries@[i].id@), 100)
        },
{
    let mut options: Vec<SelectOption> = Vec::new();
    let mut i: usize = 0;
    while i < summaries.len()
        invariant
            i <= summaries@.len(),
            options@.len() == i,
            forall|j: int| 0 <= j < i ==> {
                &&& (#[trigger] options@[j]).label@ == first_chars(summaries@[j].name@, 100)
                &&& options@[j].value@ == summaries@[j].id@
                &&& options@[j].description@ == first_chars(table_choice_text(&summaries@[j],
                    seated matches Some(t) && t@ == summaries@[j].id@), 100)
            },
        decreases summaries@.len() - i,
    {
        let t = &summaries[i];
        let here = match seated {
            Some(id) => same_text(id, t.id.as_str()),
            None => false,
        };
        let mut d = t.kind_text.clone();
        d.append(" · ");
        d.append(t.stakes.as_str());
        d.append(" · ");
        push_dec(&mut d, t.seated as u64);
        d.append("/");
        push_dec(&mut d, t.seat_count as u64);
        d.append("명");
        if here {
            d.append(" · 앉아 있음");
        }
        let option = SelectOption {
            label: first_chars_of(t.name.as_str(), 100),
            value: t.id.clone(),
            description: first_chars_of(d.as_str(), 100),
        };
        options.push(option);
        i = i + 1;
    }
    let mut custom_id = String::from_str("casino_pick:");
    custom_id.append(action);
    SelectMenu {
        custom_id,
        placeholder: String::from_str("테이블을 선택하세요"),
        min_values: 1,
        max_values: 1,
        options,
    }
}

/// The button under a table's status message (`status_components`): entering
/// that table.
pub fn status_components(table_id: &str) -> (rows: Vec<Vec<Button>>)
    ensures
        rows@.len() == 1,
        rows@[0]@.len() == 1,
        button_is(rows@[0]@[0], "casino_enter:"@ + table_id@, "테이블 입장"@, Some('🎰'), ButtonStyle::Success, false),
{
    let mut id = String::from_str("casino_enter:");
    id.append(table_id);
    vec![vec![button(id, "테이블 입장", Some('🎰'), ButtonStyle::Success, false)]]
}

/// A whole number in decimal, with a minus sign when negative.
pub open spec fn int_text(v: int) -> Seq<char> {
    if v < 0 { "-"@ + dec((-v) as nat) } else { dec(v as nat) }
}

fn i64_text(v: i64) -> (s: String)
    ensures
        s@ == int_text(v as int),
{
    let mut s = String::new();
    if v < 0 {
        s.append("-");
        let magnitude: u64 = (0i128 - v as i128) as u64;
        push_dec(&mut s, magnitude);
    } else {
        push_dec(&mut s, v as u64);
    }
    s
}

/// The bet form (`bet_modal`): one field for the bet, started with the
/// current one.
pub fn bet_modal(guild_id: u64, current: i64) -> (m: Modal)
    ensures
        no_empty_start(m),
        m.custom_id@ == "bet:"@ + dec(guild_id as nat),
        m.title@ == "배팅액 설정"@,
        m.inputs@.len() == 1,
        input_is(m.inputs@[0], "배팅액(원)"@, "bet_amount"@, "예: 1000 (0이면 배팅 안 함)"@, Some(1u16), 12u16, true,
            Some(int_text(current as int))),
{
    proof {
        if current < 0 {
            lemma_dec_nonempty((-current) as nat);
        } else {
            lemma_dec_nonempty(current as nat);
        }
    }
    let input = TextInput {
        label: String::from_str("배팅액(원)"),
        custom_id: String::from_str("bet_amount"),
        placeholder: String::from_str("예: 1000 (0이면 배팅 안 함)"),
        min_length: Some(1),
        max_length: 12,
        required: true,
        value: Some(i64_text(current)),
    };
    Modal { custom_id: keyed_id("bet:", guild_id), title: String::from_str("배팅액 설정"), inputs: vec![input] }
}

} // verus!
