//! Reading what players type or pick: numbers, selected ids and message bodies.
use vstd::prelude::*;
use crate::casino::{all_digits, digits_value, lemma_digits_prefix};
use crate::text::{dec, push_dec, trim, trimmed_chars, join, views, join_strings, string_of, string_of_range, same_text, chars_of};

verus! {

/// The integer a decimal text stands for, as Rust's integer parsing reads
/// it: an optional sign, then at least one ASCII digit.
pub open spec fn signed_digits(s: Seq<char>) -> Option<int> {
    if s.len() == 0 {
        None
    } else if s[0] == '-' || s[0] == '+' {
        let d = s.drop_first();
        if d.len() > 0 && all_digits(d) {
            Some(if s[0] == '-' { -(digits_value(d) as int) } else { digits_value(d) as int })
        } else {
            None
        }
    } else if all_digits(s) {
        Some(digits_value(s) as int)
    } else {
        None
    }
}

/// `str::parse::<i64>`: the value when it is written as above and fits.
pub open spec fn i64_parse(s: Seq<char>) -> Option<i64> {
    match signed_digits(s) {
        Some(v) => if i64::MIN <= v && v <= i64::MAX { Some(v as i64) } else { None },
        None => None,
    }
}

/// `str::parse::<u64>`: the value when it is written without a minus sign and fits.
pub open spec fn u64_parse(s: Seq<char>) -> Option<u64> {
    match signed_digits(s) {
        Some(v) => if 0 <= v && v <= u64::MAX && !(s.len() > 0 && s[0] == '-') { Some(v as u64) } else { None },
        None => None,
    }
}

/// The value of the digits `v[from..]` when they are all digits and the
/// value is at most `limit`.
fn digits_up_to(v: &Vec<char>, from: usize, limit: u128) -> (r: Option<u128>)
    requires
        from <= v@.len(),
        limit <= u64::MAX as u128 + 1,
    ensures
        match r {
            Some(x) => all_digits(v@.skip(from as int)) && x == digits_value(v@.skip(from as int)) && x <= limit,
            None => !all_digits(v@.skip(from as int)) || digits_value(v@.skip(from as int)) > limit,
        },
{
    let ghost d = v@.skip(from as int);
    let mut acc: u128 = 0;
    let mut k = from;
    while k < v.len()
        invariant
            from <= k <= v@.len(),
            d == v@.skip(from as int),
            limit <= u64::MAX as u128 + 1,
            all_digits(d.take(k - from)),
            acc == digits_value(d.take(k - from)),
            acc <= limit,
        decreases v@.len() - k,
    {
        let c = v[k];
        assert(d.take(k - from + 1).drop_last() =~= d.take(k - from));
        assert(d[k - from] == c);
        if !('0' <= c && c <= '9') {
            return None;
        }
        let next = acc * 10 + (c as u32 - '0' as u32) as u128;
        if next > limit {
            proof {
                if all_digits(d) {
                    lemma_digits_prefix(d, k - from + 1);
                }
            }
            return None;
        }
        acc = next;
        k = k + 1;
    }
    assert(d.take(k - from) =~= d);
    Some(acc)
}

/// `s.parse::<i64>().ok()` over characters.
pub fn parse_i64(v: &Vec<char>) -> (r: Option<i64>)
    ensures
        r == i64_parse(v@),
{
    if v.len() == 0 {
        return None;
    }
    let first = v[0];
    if first == '-' || first == '+' {
        if v.len() == 1 {
            return None;
        }
        assert(v@.skip(1) =~= v@.drop_first());
        if first == '-' {
            match digits_up_to(v, 1, 9223372036854775808) {
                Some(x) => {
                    let m = x as i128;
                    Some((-m) as i64)
                },
                None => None,
            }
        } else {
            match digits_up_to(v, 1, 9223372036854775807) {
                Some(x) => Some(x as i64),
                None => None,
            }
        }
    } else {
        assert(v@.skip(0) =~= v@);
        match digits_up_to(v, 0, 9223372036854775807) {
            Some(x) => Some(x as i64),
            None => None,
        }
    }
}

/// `s.parse::<u64>().ok()` over characters.
pub fn parse_u64(v: &Vec<char>) -> (r: Option<u64>)
    ensures
        r == u64_parse(v@),
{
    if v.len() == 0 {
        return None;
    }
    let first = v[0];
    if first == '-' {
        return None;
    }
    if first == '+' {
        if v.len() == 1 {
            return None;
        }
        assert(v@.skip(1) =~= v@.drop_first());
        match digits_up_to(v, 1, 18446744073709551615) {
            Some(x) => Some(x as u64),
            None => None,
        }
    } else {
        assert(v@.skip(0) =~= v@);
        match digits_up_to(v, 0, 18446744073709551615) {
            Some(x) => Some(x as u64),
            None => None,
        }
    }
}

/// `s.parse::<usize>().ok()` over characters.
pub open spec fn usize_parse(s: Seq<char>) -> Option<usize> {
    match u64_parse(s) {
        Some(v) => if v <= usize::MAX { Some(v as usize) } else { None },
        None => None,
    }
}

/// `s.parse::<usize>().ok()` over characters.
pub fn parse_usize(v: &Vec<char>) -> (r: Option<usize>)
    ensures
        r == usize_parse(v@),
{
    match parse_u64(v) {
        Some(n) => {
            if n <= usize::MAX as u64 {
                Some(n as usize)
            } else {
                None
            }
        },
        None => None,
    }
}

/// `s` without any ',', ' ' or '원'.
pub open spec fn drop_bet_noise(s: Seq<char>) -> Seq<char>
    decreases s.len(),
{
    if s.len() == 0 {
        s
    } else if s.last() == ',' || s.last() == ' ' || s.last() == '원' {
        drop_bet_noise(s.drop_last())
    } else {
        drop_bet_noise(s.drop_last()).push(s.last())
    }
}

/// What a typed bet means: the number left after trimming and dropping
/// commas, spaces and '원', when it parses as an `i64`.
pub open spec fn bet_input(raw: Seq<char>) -> Option<i64> {
    let cleaned = drop_bet_noise(trim(raw));
    if cleaned.len() == 0 { None } else { i64_parse(cleaned) }
}

/// Reads a typed bet (`parse_bet_input`).
pub fn parse_bet_input(raw: &str) -> (r: Option<i64>)
    ensures
        r == bet_input(raw@),
{
    let t = trimmed_chars(raw);
    let mut cleaned: Vec<char> = Vec::new();
    let mut i: usize = 0;
    while i < t.len()
        invariant
            i <= t@.len(),
            cleaned@ == drop_bet_noise(t@.take(i as int)),
        decreases t@.len() - i,
    {
        let c = t[i];
        assert(t@.take(i as int + 1).drop_last() =~= t@.take(i as int));
        if !(c == ',' || c == ' ' || c == '원') {
            cleaned.push(c);
        }
        i = i + 1;
    }
    assert(t@.take(t@.len() as int) =~= t@);
    if cleaned.len() == 0 {
        return None;
    }
    parse_i64(&cleaned)
}

/// The id in the first selected value, if it parses.
pub open spec fn first_id(values: Seq<Seq<char>>) -> Option<u64> {
    if values.len() == 0 { None } else { u64_parse(values[0]) }
}

/// The id in the first selected value of a menu, if it parses.
pub fn first_selected_id(values: &Vec<String>) -> (r: Option<u64>)
    ensures
        r == first_id(views(values@)),
{
    if values.len() == 0 {
        return None;
    }
    let v = chars_of(values[0].as_str());
    parse_u64(&v)
}

/// The night-action target picked in a menu: nothing for "skip" or for no
/// pick, otherwise the id in the first value when it parses.
pub open spec fn night_choice(values: Seq<Seq<char>>) -> Option<u64> {
    if values.len() == 0 || values[0] == "skip"@ { None } else { u64_parse(values[0]) }
}

/// The refusal of a choice pressed by someone other than the player it was
/// sent to.
pub open spec fn not_own_choice() -> Seq<char> {
    "본인에게 온 선택지만 사용할 수 있습니다."@
}

/// Whether a player's own choice menu may be used by the presser: only the
/// player it was sent to may use it.
pub fn own_choice_check(presser_id: u64, actor_id: u64) -> (r: Option<&'static str>)
    ensures
        match r {
            Some(m) => presser_id != actor_id && m@ == not_own_choice(),
            None => presser_id == actor_id,
        },
{
    if presser_id != actor_id { Some("본인에게 온 선택지만 사용할 수 있습니다.") } else { None }
}

/// The night-action target picked in a menu.
pub fn night_action_target(values: &Vec<String>) -> (r: Option<u64>)
    ensures
        r == night_choice(views(values@)),
{
    if values.len() == 0 || same_text(values[0].as_str(), "skip") {
        return None;
    }
    let v = chars_of(values[0].as_str());
    parse_u64(&v)
}

/// The body relayed for an anonymous message: the trimmed text when there
/// is any, then the attachment links, one per line; "(내용 없음)" for nothing.
pub open spec fn message_body(content: Seq<char>, attachment_urls: Seq<Seq<char>>) -> Seq<char> {
    let text = trim(content);
    let parts = if text.len() > 0 { seq![text] + attachment_urls } else { attachment_urls };
    if parts.len() == 0 { "(내용 없음)"@ } else { join(parts, "\n"@) }
}

/// The body relayed for an anonymous message (`anonymous_message_body`), from
/// the message's text and the links of its attachments.
pub fn anonymous_message_body(content: &str, attachment_urls: &Vec<String>) -> (s: String)
    ensures
        s@ == message_body(content@, views(attachment_urls@)),
{
    let t = trimmed_chars(content);
    let mut parts: Vec<String> = Vec::new();
    if t.len() > 0 {
        parts.push(string_of(&t));
    }
    let ghost start = views(parts@);
    assert(start =~= if t@.len() > 0 { seq![trim(content@)] } else { Seq::<Seq<char>>::empty() });
    let mut i: usize = 0;
    while i < attachment_urls.len()
        invariant
            i <= attachment_urls@.len(),
            parts@.len() == start.len() + i,
            views(parts@) == start + views(attachment_urls@).take(i as int),
        decreases attachment_urls@.len() - i,
    {
        let ghost before = parts@;
        parts.push(attachment_urls[i].clone());
        assert(views(parts@) =~= views(before).push(attachment_urls@[i as int]@));
        assert(views(attachment_urls@).take(i as int + 1)
            =~= views(attachment_urls@).take(i as int).push(attachment_urls@[i as int]@));
        assert(views(parts@) =~= start + views(attachment_urls@).take(i as int + 1));
        i = i + 1;
    }
    assert(views(attachment_urls@).take(attachment_urls@.len() as int) =~= views(attachment_urls@));
    if parts.len() == 0 {
        String::from_str("(내용 없음)")
    } else {
        join_strings(&parts, "\n")
    }
}

/// The name shown for a message's author: the server nickname, else the
/// global display name, else the user name (`message_author_display_name`).
pub fn message_author_display_name(nick: Option<String>, global_name: Option<String>, name: String) -> (s: String)
    ensures
        s == match nick {
            Some(n) => n,
            None => match global_name {
                Some(g) => g,
                None => name,
            },
        },
{
    match nick {
        Some(n) => n,
        None => match global_name {
            Some(g) => g,
            None => name,
        },
    }
}

/// The picture of an anonymous sender: a numbered name ("3번") gets a
/// square in the colour its number picks from `number_colors`, showing the
/// number; an animal name gets the emoji picture whose code `animal_code` is
/// (the code looked up for the name, if any); other names get none.
pub open spec fn avatar_url(label: Seq<char>, number_colors: Seq<Seq<char>>, animal_code: Option<Seq<char>>) -> Option<Seq<char>> {
    if label.len() > 0 && label.last() == '번' && usize_parse(label.drop_last()) is Some {
        let n = usize_parse(label.drop_last())->Some_0;
        let k = (if n >= 1 { n - 1 } else { 0int }) % (number_colors.len() as int);
        Some("https://dummyimage.com/128x128/"@ + number_colors[k] + "/ffffff.png&text="@ + dec(n as nat))
    } else {
        match animal_code {
            Some(code) => Some("https://cdn.jsdelivr.net/gh/twitter/twemoji@14.0.2/assets/72x72/"@ + code + ".png"@),
            None => None,
        }
    }
}

/// The picture of an anonymous sender (`anonymous_avatar_url`).
pub fn anonymous_avatar_url(author_label: &str, number_colors: &Vec<String>, animal_code: Option<&str>) -> (r: Option<String>)
    requires
        number_colors.len() > 0,
    ensures
        match r {
            Some(u) => avatar_url(author_label@, views(number_colors@), match animal_code {
                Some(c) => Some(c@),
                None => None,
            }) == Some(u@),
            None => avatar_url(author_label@, views(number_colors@), match animal_code {
                Some(c) => Some(c@),
                None => None,
            }) is None,
        },
{
    let label = chars_of(author_label);
    let n = label.len();
    if n > 0 && label[n - 1] == '번' {
        let head = string_of_range(&label, 0, n - 1);
        let digits = chars_of(head.as_str());
        assert(digits@ == label@.drop_last());
        if let Some(number) = parse_usize(&digits) {
            let k = (if number >= 1 { number - 1 } else { 0 }) % number_colors.len();
            let mut u = String::from_str("https://dummyimage.com/128x128/");
            u.append(number_colors[k].as_str());
            u.append("/ffffff.png&text=");
            push_dec(&mut u, number as u64);
            return Some(u);
        }
    }
    match animal_code {
        Some(code) => {
            let mut u = String::from_str("https://cdn.jsdelivr.net/gh/twitter/twemoji@14.0.2/assets/72x72/");
            u.append(code);
            u.append(".png");
            Some(u)
        },
        None => None,
    }
}

} // verus!
