//! Small helpers of the leaderboard board: colour codes, cell texts and metric columns.
use vstd::prelude::*;
use crate::text::{same_text, push_char, string_of_range, chars_of};

verus! {

/// The value of a hexadecimal digit, if `c` is one.
pub open spec fn hex_value(c: char) -> Option<u8> {
    if '0' <= c && c <= '9' {
        Some((c as u32 - '0' as u32) as u8)
    } else if 'a' <= c && c <= 'f' {
        Some((c as u32 - 'a' as u32 + 10) as u8)
    } else if 'A' <= c && c <= 'F' {
        Some((c as u32 - 'A' as u32 + 10) as u8)
    } else {
        None
    }
}

/// A colour channel written with two one-byte characters, as
/// `u8::from_str_radix(_, 16)` reads it: two hex digits, or '+' and one hex
/// digit; 255 when it does not parse.
pub open spec fn pair_value(a: char, b: char) -> u8 {
    match (hex_value(a), hex_value(b)) {
        (Some(x), Some(y)) => (x * 16 + y) as u8,
        (None, Some(y)) => if a == '+' { y } else { 255 },
        _ => 255,
    }
}

/// A character encoded in one UTF-8 byte.
pub open spec fn one_byte(c: char) -> bool {
    (c as u32) < 0x80
}

/// A character encoded in two UTF-8 bytes.
pub open spec fn two_bytes(c: char) -> bool {
    0x80 <= (c as u32) && (c as u32) < 0x800
}

/// The colour channel in the two bytes starting at character `i`, with the
/// character after them: two one-byte characters, or one two-byte character
/// (which does not parse, so 255).  Nothing when the two bytes do not end on
/// a character boundary.
pub open spec fn channel_at(s: Seq<char>, i: int) -> Option<(u8, int)> {
    if 0 <= i && i + 2 <= s.len() && one_byte(s[i]) && one_byte(s[i + 1]) {
        Some((pair_value(s[i], s[i + 1]), i + 2))
    } else if 0 <= i && i < s.len() && two_bytes(s[i]) {
        Some((255u8, i + 1))
    } else {
        None
    }
}

/// `s` without its leading '#' characters.
pub open spec fn strip_hashes(s: Seq<char>) -> Seq<char>
    decreases s.len(),
{
    if s.len() > 0 && s[0] == '#' { strip_hashes(s.drop_first()) } else { s }
}

/// The three channels of a colour code, when its first six bytes split into
/// three two-byte channels.
pub open spec fn color_of(hex: Seq<char>) -> Option<(u8, u8, u8)> {
    let v = strip_hashes(hex);
    match channel_at(v, 0) {
        Some((r, i)) => match channel_at(v, i) {
            Some((g, j)) => match channel_at(v, j) {
                Some((b, _)) => Some((r, g, b)),
                None => None,
            },
            None => None,
        },
        None => None,
    }
}

fn hex_digit(c: char) -> (r: Option<u8>)
    ensures
        r == hex_value(c),
{
    if '0' <= c && c <= '9' {
        Some((c as u32 - '0' as u32) as u8)
    } else if 'a' <= c && c <= 'f' {
        Some((c as u32 - 'a' as u32 + 10) as u8)
    } else if 'A' <= c && c <= 'F' {
        Some((c as u32 - 'A' as u32 + 10) as u8)
    } else {
        None
    }
}

fn channel(v: &Vec<char>, i: usize) -> (r: Option<(u8, usize)>)
    ensures
        match r {
            Some((c, n)) => channel_at(v@, i as int) == Some((c, n as int)),
            None => channel_at(v@, i as int) is None,
        },
{
    if i < v.len() && v.len() - i >= 2 && (v[i] as u32) < 0x80 && (v[i + 1] as u32) < 0x80 {
        let a = v[i];
        let b = v[i + 1];
        let value = match (hex_digit(a), hex_digit(b)) {
            (Some(x), Some(y)) => x * 16 + y,
            (None, Some(y)) => if a == '+' { y } else { 255 },
            _ => 255,
        };
        Some((value, i + 2))
    } else if i < v.len() && 0x80 <= (v[i] as u32) && (v[i] as u32) < 0x800 {
        Some((255, i + 1))
    } else {
        None
    }
}

/// The red, green and blue of a colour code such as "#1d2028" (`image_color`).
pub fn image_color(hex: &str) -> (rgb: (u8, u8, u8))
    requires
        color_of(hex@) is Some,
    ensures
        color_of(hex@) == Some(rgb),
{
    let v = chars_of(hex);
    let mut start: usize = 0;
    assert(v@.skip(0) =~= v@);
    while start < v.len() && v[start] == '#'
        invariant
            start <= v@.len(),
            strip_hashes(v@) == strip_hashes(v@.skip(start as int)),
        decreases v@.len() - start,
    {
        assert(v@.skip(start as int).drop_first() =~= v@.skip(start as int + 1));
        start = start + 1;
    }
    let rest = string_of_range(&v, start, v.len());
    assert(v@.subrange(start as int, v@.len() as int) =~= v@.skip(start as int));
    let w = chars_of(rest.as_str());
    match channel(&w, 0) {
        Some((r, i)) => match channel(&w, i) {
            Some((g, j)) => match channel(&w, j) {
                Some((b, _)) => (r, g, b),
                None => (255, 255, 255),
            },
            None => (255, 255, 255),
        },
        None => (255, 255, 255),
    }
}

/// A board cell: the text, or its first `max_chars - 3` characters and "..."
/// when it is longer than `max_chars`.
pub open spec fn board_cell(value: Seq<char>, max_chars: usize) -> Seq<char> {
    if value.len() <= max_chars {
        value
    } else {
        let keep: int = if max_chars >= 3 { max_chars - 3 } else { 0 };
        value.take(keep) + "..."@
    }
}

/// A board cell (`truncate_for_board`).
pub fn truncate_for_board(value: &str, max_chars: usize) -> (s: String)
    ensures
        s@ == board_cell(value@, max_chars),
{
    if value.unicode_len() <= max_chars {
        return String::from_str(value);
    }
    let v = chars_of(value);
    let keep: usize = if max_chars >= 3 { max_chars - 3 } else { 0 };
    let mut s = string_of_range(&v, 0, keep);
    s.append("...");
    assert(v@.subrange(0, keep as int) =~= value@.take(keep as int));
    s
}

/// The statistics column a leaderboard metric sorts by.
pub open spec fn metric_column(metric: Seq<char>) -> Seq<char> {
    if metric == "winrate"@ {
        "winrate"@
    } else if metric == "streak"@ {
        "streak"@
    } else if metric == "games"@ {
        "games"@
    } else if metric == "mafia"@ {
        "mafia"@
    } else if metric == "playtime"@ {
        "time"@
    } else if metric == "rating"@ {
        "rating"@
    } else {
        "record"@
    }
}

/// The statistics column a leaderboard metric sorts by (`leaderboard_metric_column`).
pub fn leaderboard_metric_column(metric: &str) -> (s: &'static str)
    ensures
        s@ == metric_column(metric@),
{
    if same_text(metric, "winrate") {
        "winrate"
    } else if same_text(metric, "streak") {
        "streak"
    } else if same_text(metric, "games") {
        "games"
    } else if same_text(metric, "mafia") {
        "mafia"
    } else if same_text(metric, "playtime") {
        "time"
    } else if same_text(metric, "rating") {
        "rating"
    } else {
        "record"
    }
}

} // verus!
