//! Colour handling: hex parsing, gradients, presets and terminal colour mapping.
use vstd::prelude::*;
use crate::studio::config::{ColorConfig, GradientDirection};
use crate::text::{self, eq_ascii_ci, trim};

verus! {

/// A 24-bit colour.
#[derive(Debug, Clone, Copy, PartialEq, Eq, Structural)]
pub struct Rgb(pub u8, pub u8, pub u8);

/// A terminal colour: the terminal's own default, a 24-bit colour, or an entry of the
/// 256-colour palette.
#[derive(Debug, Clone, Copy, PartialEq, Eq, Structural)]
pub enum TermColor {
    Reset,
    Rgb(u8, u8, u8),
    Indexed(u8),
}

/// Number of bytes of the UTF-8 encoding of `c`.
pub open spec fn utf8_width(c: char) -> int {
    if (c as u32) < 0x80 {
        1
    } else if (c as u32) < 0x800 {
        2
    } else if (c as u32) < 0x10000 {
        3
    } else {
        4
    }
}

/// Number of bytes of the UTF-8 encoding of `t`.
pub open spec fn byte_len(t: Seq<char>) -> int
    decreases t.len(),
{
    if t.len() == 0 {
        0
    } else {
        byte_len(t.drop_last()) + utf8_width(t.last())
    }
}

/// Byte offset `k` of the encoding of `t` falls between two characters.
pub open spec fn byte_boundary(t: Seq<char>, k: int) -> bool {
    exists|j: int| 0 <= j <= t.len() && byte_len(#[trigger] t.take(j)) == k
}

/// Every character of `t` is ASCII.
pub open spec fn is_ascii_text(t: Seq<char>) -> bool {
    forall|i: int| 0 <= i < t.len() ==> (#[trigger] t[i] as u32) < 0x80
}

/// `t` without its leading `#` characters.
pub open spec fn strip_hashes(t: Seq<char>) -> Seq<char>
    decreases t.len(),
{
    if t.len() > 0 && t[0] == '#' {
        strip_hashes(t.drop_first())
    } else {
        t
    }
}

/// The digits of a colour text: white space trimmed, leading `#`s removed.
pub open spec fn rgb_text(s: Seq<char>) -> Seq<char> {
    strip_hashes(trim(s))
}

/// Parsing `s` cuts the digits at byte offsets 2 and 4 (six bytes) or 1 and 2 (three
/// bytes); those offsets must fall between characters.
pub open spec fn rgb_parse_safe(s: Seq<char>) -> bool {
    let t = rgb_text(s);
    &&& byte_len(t) == 6 ==> byte_boundary(t, 2) && byte_boundary(t, 4)
    &&& byte_len(t) == 3 ==> byte_boundary(t, 1) && byte_boundary(t, 2)
}

/// Value of a hexadecimal digit.
pub open spec fn hex_digit(c: char) -> Option<int> {
    if '0' <= c && c <= '9' {
        Some(c as int - '0' as int)
    } else if 'a' <= c && c <= 'f' {
        Some(c as int - 'a' as int + 10)
    } else if 'A' <= c && c <= 'F' {
        Some(c as int - 'A' as int + 10)
    } else {
        None
    }
}

/// Value of a two-character hexadecimal number as `u8::from_str_radix(.., 16)` reads
/// it: two digits, or a `+` sign before one digit.
pub open spec fn hex_pair(a: char, b: char) -> Option<int> {
    if a == '+' {
        hex_digit(b)
    } else {
        match (hex_digit(a), hex_digit(b)) {
            (Some(x), Some(y)) => Some(16 * x + y),
            _ => None,
        }
    }
}

/// The colour written by the digits `t`: `RRGGBB` or `RGB`.
pub open spec fn rgb_of_text(t: Seq<char>) -> Option<Rgb> {
    if !is_ascii_text(t) {
        None
    } else if t.len() == 6 {
        match (hex_pair(t[0], t[1]), hex_pair(t[2], t[3]), hex_pair(t[4], t[5])) {
            (Some(r), Some(g), Some(b)) => Some(Rgb(r as u8, g as u8, b as u8)),
            _ => None,
        }
    } else if t.len() == 3 {
        match (hex_digit(t[0]), hex_digit(t[1]), hex_digit(t[2])) {
            (Some(r), Some(g), Some(b)) => Some(Rgb((r * 17) as u8, (g * 17) as u8, (b * 17) as u8)),
            _ => None,
        }
    } else {
        None
    }
}

/// The value of a hexadecimal digit character.
pub open spec fn digit_of(c: char) -> int {
    hex_digit(c)->0
}

/// Colour digits are read channel by channel in order: in `RRGGBB` the red, green and
/// blue bytes are the first, middle and last pair of digits; in `RGB` each channel is 17
/// times its digit, so `RGB` reads as `RRGGBB` with every digit doubled.
pub proof fn lemma_rgb_digits(t: Seq<char>)
    requires
        forall|k: int| 0 <= k < t.len() ==> (#[trigger] hex_digit(t[k])) is Some,
    ensures
        t.len() == 6 ==> rgb_of_text(t) == Some(
            Rgb(
                (16 * digit_of(t[0]) + digit_of(t[1])) as u8,
                (16 * digit_of(t[2]) + digit_of(t[3])) as u8,
                (16 * digit_of(t[4]) + digit_of(t[5])) as u8,
            ),
        ),
        t.len() == 3 ==> rgb_of_text(t) == Some(
            Rgb((17 * digit_of(t[0])) as u8, (17 * digit_of(t[1])) as u8, (17 * digit_of(t[2])) as u8),
        ),
        t.len() == 3 ==> rgb_of_text(t) == rgb_of_text(seq![t[0], t[0], t[1], t[1], t[2], t[2]]),
{
    assert forall|i: int| 0 <= i < t.len() implies (#[trigger] t[i] as u32) < 0x80 by {
        assert(hex_digit(t[i]) is Some);
    }
    if t.len() == 6 {
        assert(hex_digit(t[0]) is Some && hex_digit(t[1]) is Some && hex_digit(t[2]) is Some);
        assert(hex_digit(t[3]) is Some && hex_digit(t[4]) is Some && hex_digit(t[5]) is Some);
    }
    if t.len() == 3 {
        assert(hex_digit(t[0]) is Some && hex_digit(t[1]) is Some && hex_digit(t[2]) is Some);
        let u = seq![t[0], t[0], t[1], t[1], t[2], t[2]];
        assert forall|i: int| 0 <= i < u.len() implies (#[trigger] u[i] as u32) < 0x80 by {
            assert(u[i] == t[i / 2]);
        }
    }
}

/// The colour that `Rgb::parse` reads from `s`.
pub open spec fn parse_rgb(s: Seq<char>) -> Option<Rgb> {
    rgb_of_text(rgb_text(s))
}

proof fn lemma_ascii_byte_len(t: Seq<char>)
    requires
        is_ascii_text(t),
    ensures
        byte_len(t) == t.len(),
        forall|j: int| 0 <= j <= t.len() ==> byte_len(#[trigger] t.take(j)) == j,
    decreases t.len(),
{
    if t.len() > 0 {
        let u = t.drop_last();
        assert(is_ascii_text(u)) by {
            assert forall|i: int| 0 <= i < u.len() implies (#[trigger] u[i] as u32) < 0x80 by {
                assert(u[i] == t[i]);
            }
        }
        lemma_ascii_byte_len(u);
        assert forall|j: int| 0 <= j <= t.len() implies byte_len(#[trigger] t.take(j)) == j by {
            if j < t.len() {
                assert(t.take(j) =~= u.take(j));
            } else {
                assert(t.take(j) =~= t);
            }
        }
    }
}

/// ASCII digits are cut at character boundaries whatever their length.
pub proof fn lemma_ascii_safe(s: Seq<char>)
    requires
        is_ascii_text(rgb_text(s)),
    ensures
        rgb_parse_safe(s),
{
    let t = rgb_text(s);
    lemma_ascii_byte_len(t);
    if t.len() >= 1 {
        assert(byte_len(t.take(1)) == 1);
    }
    if t.len() >= 2 {
        assert(byte_len(t.take(2)) == 2);
    }
    if t.len() >= 4 {
        assert(byte_len(t.take(4)) == 4);
    }
}

/// A `#` followed by six hexadecimal digits is read without running into a character
/// boundary and gives a colour.
pub proof fn lemma_hash_hex_safe(s: Seq<char>)
    requires
        s.len() == 7,
        s[0] == '#',
        forall|i: int| 1 <= i < 7 ==> (#[trigger] hex_digit(s[i])) is Some,
    ensures
        rgb_parse_safe(s),
        parse_rgb(s) is Some,
{
    assert(hex_digit(s[1]) is Some);
    assert(hex_digit(s[6]) is Some);
    assert(trim(s) == s) by {
        reveal_with_fuel(text::trim_start, 2);
        reveal_with_fuel(text::trim_end, 2);
    }
    let t = s.drop_first();
    assert(strip_hashes(s) == t) by {
        assert(strip_hashes(s) == strip_hashes(t));
        assert(t[0] == s[1]);
    }
    assert(is_ascii_text(t)) by {
        assert forall|i: int| 0 <= i < t.len() implies (#[trigger] t[i] as u32) < 0x80 by {
            assert(t[i] == s[i + 1]);
            assert(hex_digit(s[i + 1]) is Some);
        }
    }
    lemma_ascii_safe(s);
    assert(hex_digit(s[2]) is Some);
    assert(hex_digit(s[3]) is Some);
    assert(hex_digit(s[4]) is Some);
    assert(hex_digit(s[5]) is Some);
    assert(t[0] == s[1] && t[1] == s[2] && t[2] == s[3] && t[3] == s[4] && t[4] == s[5] && t[5] == s[6]);
}

/// Number of built-in gradient presets.
pub const PRESET_COUNT: usize = 16;

/// Name of preset `i` (`0 <= i < 16`).
pub open spec fn preset_name(i: int) -> Seq<char> {
    if i == 0 {
        "spectrum"@
    } else if i == 1 {
        "classic"@
    } else if i == 2 {
        "rainbow"@
    } else if i == 3 {
        "sunset"@
    } else if i == 4 {
        "ocean"@
    } else if i == 5 {
        "fire"@
    } else if i == 6 {
        "ice"@
    } else if i == 7 {
        "matrix"@
    } else if i == 8 {
        "neon"@
    } else if i == 9 {
        "synthwave"@
    } else if i == 10 {
        "pastel"@
    } else if i == 11 {
        "mono"@
    } else if i == 12 {
        "gruvbox"@
    } else if i == 13 {
        "nord"@
    } else if i == 14 {
        "dracula"@
    } else {
        "catppuccin"@
    }
}

/// Gradient stops of preset `i`, low to high.
pub open spec fn preset_stops(i: int) -> Seq<Seq<char>> {
    if i == 0 {
        seq!["#00e5ff"@, "#7c4dff"@, "#ff4081"@]
    } else if i == 1 {
        seq!["#00e676"@, "#c6ff00"@, "#ffea00"@, "#ff9100"@, "#ff1744"@]
    } else if i == 2 {
        seq!["#ff1744"@, "#ff9100"@, "#ffea00"@, "#00e676"@, "#2979ff"@, "#d500f9"@]
    } else if i == 3 {
        seq!["#ffd166"@, "#ff7b54"@, "#ff3f7a"@, "#9d4edd"@]
    } else if i == 4 {
        seq!["#a0f0ff"@, "#00c9ff"@, "#0072ff"@, "#4b1fa8"@]
    } else if i == 5 {
        seq!["#4a0000"@, "#ff2a00"@, "#ff9a00"@, "#ffe97a"@, "#ffffff"@]
    } else if i == 6 {
        seq!["#0b1e3a"@, "#1f6fb2"@, "#62c6ff"@, "#dff6ff"@]
    } else if i == 7 {
        seq!["#003b00"@, "#00b300"@, "#3fff3f"@, "#c8ffc8"@]
    } else if i == 8 {
        seq!["#ff00ff"@, "#00ffff"@]
    } else if i == 9 {
        seq!["#2b1055"@, "#7303c0"@, "#ec38bc"@, "#fdeff9"@]
    } else if i == 10 {
        seq!["#a8e6cf"@, "#dcedc1"@, "#ffd3b6"@, "#ffaaa5"@]
    } else if i == 11 {
        seq!["#6e6e6e"@, "#ffffff"@]
    } else if i == 12 {
        seq!["#b8bb26"@, "#fabd2f"@, "#fe8019"@, "#fb4934"@]
    } else if i == 13 {
        seq!["#88c0d0"@, "#81a1c1"@, "#5e81ac"@, "#b48ead"@]
    } else if i == 14 {
        seq!["#50fa7b"@, "#f1fa8c"@, "#ffb86c"@, "#ff79c6"@, "#bd93f9"@]
    } else {
        seq!["#89dceb"@, "#89b4fa"@, "#cba6f7"@, "#f5c2e7"@]
    }
}

/// Name and gradient stops of preset `i`.
pub fn preset_entry(i: usize) -> (r: (&'static str, Vec<&'static str>))
    requires
        i < PRESET_COUNT,
    ensures
        r.0@ == preset_name(i as int),
        r.1@.len() == preset_stops(i as int).len(),
        forall|j: int| 0 <= j < r.1@.len() ==> #[trigger] r.1@[j]@ == preset_stops(i as int)[j],
{
    if i == 0 {
        ("spectrum", vec!["#00e5ff", "#7c4dff", "#ff4081"])
    } else if i == 1 {
        ("classic", vec!["#00e676", "#c6ff00", "#ffea00", "#ff9100", "#ff1744"])
    } else if i == 2 {
        ("rainbow", vec!["#ff1744", "#ff9100", "#ffea00", "#00e676", "#2979ff", "#d500f9"])
    } else if i == 3 {
        ("sunset", vec!["#ffd166", "#ff7b54", "#ff3f7a", "#9d4edd"])
    } else if i == 4 {
        ("ocean", vec!["#a0f0ff", "#00c9ff", "#0072ff", "#4b1fa8"])
    } else if i == 5 {
        ("fire", vec!["#4a0000", "#ff2a00", "#ff9a00", "#ffe97a", "#ffffff"])
    } else if i == 6 {
        ("ice", vec!["#0b1e3a", "#1f6fb2", "#62c6ff", "#dff6ff"])
    } else if i == 7 {
        ("matrix", vec!["#003b00", "#00b300", "#3fff3f", "#c8ffc8"])
    } else if i == 8 {
        ("neon", vec!["#ff00ff", "#00ffff"])
    } else if i == 9 {
        ("synthwave", vec!["#2b1055", "#7303c0", "#ec38bc", "#fdeff9"])
    } else if i == 10 {
        ("pastel", vec!["#a8e6cf", "#dcedc1", "#ffd3b6", "#ffaaa5"])
    } else if i == 11 {
        ("mono", vec!["#6e6e6e", "#ffffff"])
    } else if i == 12 {
        ("gruvbox", vec!["#b8bb26", "#fabd2f", "#fe8019", "#fb4934"])
    } else if i == 13 {
        ("nord", vec!["#88c0d0", "#81a1c1", "#5e81ac", "#b48ead"])
    } else if i == 14 {
        ("dracula", vec!["#50fa7b", "#f1fa8c", "#ffb86c", "#ff79c6", "#bd93f9"])
    } else {
        ("catppuccin", vec!["#89dceb", "#89b4fa", "#cba6f7", "#f5c2e7"])
    }
}

/// Every preset stop is a plain ASCII colour text that `Rgb::parse` accepts without
/// running into a character boundary.
pub proof fn lemma_preset_stops_safe(i: int, j: int)
    requires
        0 <= i < PRESET_COUNT,
        0 <= j < preset_stops(i).len(),
    ensures
        rgb_parse_safe(preset_stops(i)[j]),
        rgb_of_text(rgb_text(preset_stops(i)[j])) is Some,
{
    if i == 0 {
        reveal_strlit("#00e5ff");
        reveal_strlit("#7c4dff");
        reveal_strlit("#ff4081");
        if j == 0 { lemma_hash_hex_safe(preset_stops(i)[j]); }
        if j == 1 { lemma_hash_hex_safe(preset_stops(i)[j]); }
        if j == 2 { lemma_hash_hex_safe(preset_stops(i)[j]); }
    } else if i == 1 {
        reveal_strlit("#00e676");
        reveal_strlit("#c6ff00");
        reveal_strlit("#ffea00");
        reveal_strlit("#ff9100");
        reveal_strlit("#ff1744");
        if j == 0 { lemma_hash_hex_safe(preset_stops(i)[j]); }
        if j == 1 { lemma_hash_hex_safe(preset_stops(i)[j]); }
        if j == 2 { lemma_hash_hex_safe(preset_stops(i)[j]); }
        if j == 3 { lemma_hash_hex_safe(preset_stops(i)[j]); }
        if j == 4 { lemma_hash_hex_safe(preset_stops(i)[j]); }
    } else if i == 2 {
        reveal_strlit("#ff1744");
        reveal_strlit("#ff9100");
        reveal_strlit("#ffea00");
        reveal_strlit("#00e676");
        reveal_strlit("#2979ff");
        reveal_strlit("#d500f9");
        if j == 0 { lemma_hash_hex_safe(preset_stops(i)[j]); }
        if j == 1 { lemma_hash_hex_safe(preset_stops(i)[j]); }
        if j == 2 { lemma_hash_hex_safe(preset_stops(i)[j]); }
        if j == 3 { lemma_hash_hex_safe(preset_stops(i)[j]); }
        if j == 4 { lemma_hash_hex_safe(preset_stops(i)[j]); }
        if j == 5 { lemma_hash_hex_safe(preset_stops(i)[j]); }
    } else if i == 3 {
        reveal_strlit("#ffd166");
        reveal_strlit("#ff7b54");
        reveal_strlit("#ff3f7a");
        reveal_strlit("#9d4edd");
        if j == 0 { lemma_hash_hex_safe(preset_stops(i)[j]); }
        if j == 1 { lemma_hash_hex_safe(preset_stops(i)[j]); }
        if j == 2 { lemma_hash_hex_safe(preset_stops(i)[j]); }
        if j == 3 { lemma_hash_hex_safe(preset_stops(i)[j]); }
    } else if i == 4 {
        reveal_strlit("#a0f0ff");
        reveal_strlit("#00c9ff");
        reveal_strlit("#0072ff");
        reveal_strlit("#4b1fa8");
        if j == 0 { lemma_hash_hex_safe(preset_stops(i)[j]); }
        if j == 1 { lemma_hash_hex_safe(preset_stops(i)[j]); }
        if j == 2 { lemma_hash_hex_safe(preset_stops(i)[j]); }
        if j == 3 { lemma_hash_hex_safe(preset_stops(i)[j]); }
    } else if i == 5 {
        reveal_strlit("#4a0000");
        reveal_strlit("#ff2a00");
        reveal_strlit("#ff9a00");
        reveal_strlit("#ffe97a");
        reveal_strlit("#ffffff");
        if j == 0 { lemma_hash_hex_safe(preset_stops(i)[j]); }
        if j == 1 { lemma_hash_hex_safe(preset_stops(i)[j]); }
        if j == 2 { lemma_hash_hex_safe(preset_stops(i)[j]); }
        if j == 3 { lemma_hash_hex_safe(preset_stops(i)[j]); }
        if j == 4 { lemma_hash_hex_safe(preset_stops(i)[j]); }
    } else if i == 6 {
        reveal_strlit("#0b1e3a");
        reveal_strlit("#1f6fb2");
        reveal_strlit("#62c6ff");
        reveal_strlit("#dff6ff");
        if j == 0 { lemma_hash_hex_safe(preset_stops(i)[j]); }
        if j == 1 { lemma_hash_hex_safe(preset_stops(i)[j]); }
        if j == 2 { lemma_hash_hex_safe(preset_stops(i)[j]); }
        if j == 3 { lemma_hash_hex_safe(preset_stops(i)[j]); }
    } else if i == 7 {
        reveal_strlit("#003b00");
        reveal_strlit("#00b300");
        reveal_strlit("#3fff3f");
        reveal_strlit("#c8ffc8");
        if j == 0 { lemma_hash_hex_safe(preset_stops(i)[j]); }
        if j == 1 { lemma_hash_hex_safe(preset_stops(i)[j]); }
        if j == 2 { lemma_hash_hex_safe(preset_stops(i)[j]); }
        if j == 3 { lemma_hash_hex_safe(preset_stops(i)[j]); }
    } else if i == 8 {
        reveal_strlit("#ff00ff");
        reveal_strlit("#00ffff");
        if j == 0 { lemma_hash_hex_safe(preset_stops(i)[j]); }
        if j == 1 { lemma_hash_hex_safe(preset_stops(i)[j]); }
    } else if i == 9 {
        reveal_strlit("#2b1055");
        reveal_strlit("#7303c0");
        reveal_strlit("#ec38bc");
        reveal_strlit("#fdeff9");
        if j == 0 { lemma_hash_hex_safe(preset_stops(i)[j]); }
        if j == 1 { lemma_hash_hex_safe(preset_stops(i)[j]); }
        if j == 2 { lemma_hash_hex_safe(preset_stops(i)[j]); }
        if j == 3 { lemma_hash_hex_safe(preset_stops(i)[j]); }
    } else if i == 10 {
        reveal_strlit("#a8e6cf");
        reveal_strlit("#dcedc1");
        reveal_strlit("#ffd3b6");
        reveal_strlit("#ffaaa5");
        if j == 0 { lemma_hash_hex_safe(preset_stops(i)[j]); }
        if j == 1 { lemma_hash_hex_safe(preset_stops(i)[j]); }
        if j == 2 { lemma_hash_hex_safe(preset_stops(i)[j]); }
        if j == 3 { lemma_hash_hex_safe(preset_stops(i)[j]); }
    } else if i == 11 {
        reveal_strlit("#6e6e6e");
        reveal_strlit("#ffffff");
        if j == 0 { lemma_hash_hex_safe(preset_stops(i)[j]); }
        if j == 1 { lemma_hash_hex_safe(preset_stops(i)[j]); }
    } else if i == 12 {
        reveal_strlit("#b8bb26");
        reveal_strlit("#fabd2f");
        reveal_strlit("#fe8019");
        reveal_strlit("#fb4934");
        if j == 0 { lemma_hash_hex_safe(preset_stops(i)[j]); }
        if j == 1 { lemma_hash_hex_safe(preset_stops(i)[j]); }
        if j == 2 { lemma_hash_hex_safe(preset_stops(i)[j]); }
        if j == 3 { lemma_hash_hex_safe(preset_stops(i)[j]); }
    } else if i == 13 {
        reveal_strlit("#88c0d0");
        reveal_strlit("#81a1c1");
        reveal_strlit("#5e81ac");
        reveal_strlit("#b48ead");
        if j == 0 { lemma_hash_hex_safe(preset_stops(i)[j]); }
        if j == 1 { lemma_hash_hex_safe(preset_stops(i)[j]); }
        if j == 2 { lemma_hash_hex_safe(preset_stops(i)[j]); }
        if j == 3 { lemma_hash_hex_safe(preset_stops(i)[j]); }
    } else if i == 14 {
        reveal_strlit("#50fa7b");
        reveal_strlit("#f1fa8c");
        reveal_strlit("#ffb86c");
        reveal_strlit("#ff79c6");
        reveal_strlit("#bd93f9");
        if j == 0 { lemma_hash_hex_safe(preset_stops(i)[j]); }
        if j == 1 { lemma_hash_hex_safe(preset_stops(i)[j]); }
        if j == 2 { lemma_hash_hex_safe(preset_stops(i)[j]); }
        if j == 3 { lemma_hash_hex_safe(preset_stops(i)[j]); }
        if j == 4 { lemma_hash_hex_safe(preset_stops(i)[j]); }
    } else if i == 15 {
        reveal_strlit("#89dceb");
        reveal_strlit("#89b4fa");
        reveal_strlit("#cba6f7");
        reveal_strlit("#f5c2e7");
        if j == 0 { lemma_hash_hex_safe(preset_stops(i)[j]); }
        if j == 1 { lemma_hash_hex_safe(preset_stops(i)[j]); }
        if j == 2 { lemma_hash_hex_safe(preset_stops(i)[j]); }
        if j == 3 { lemma_hash_hex_safe(preset_stops(i)[j]); }
    }
}
/// First preset position at or after `i` whose name equals `name` up to ASCII case.
pub open spec fn preset_from(name: Seq<char>, i: int) -> Option<int>
    decreases 16 - i,
{
    if i < 0 || i >= 16 {
        None
    } else if eq_ascii_ci(preset_name(i), name) {
        Some(i)
    } else {
        preset_from(name, i + 1)
    }
}

/// Position of the preset called `name` (ASCII case ignored).
pub open spec fn preset_index(name: Seq<char>) -> Option<int> {
    preset_from(name, 0)
}

/// The preset `steps` positions after `current`, as `cycle_preset` chooses it.
pub open spec fn cycled_preset(current: Seq<char>, steps: int) -> Seq<char> {
    match preset_index(current) {
        Some(i) => preset_name((i + steps) % 16),
        None => if steps >= 0 {
            preset_name(0)
        } else {
            preset_name(15)
        },
    }
}

/// Gradient stops of the preset called `name`, ASCII case ignored.
pub fn preset(name: &str) -> (r: Option<Vec<&'static str>>)
    ensures
        match preset_index(name@) {
            Some(i) => r is Some && r->0@.len() == preset_stops(i).len() && forall|j: int|
                0 <= j < r->0@.len() ==> #[trigger] r->0@[j]@ == preset_stops(i)[j],
            None => r is None,
        },
{
    match preset_position(name) {
        Some(i) => {
            let (_, stops) = preset_entry(i);
            Some(stops)
        },
        None => None,
    }
}

/// Position of the preset called `name`, ASCII case ignored.
pub fn preset_position(name: &str) -> (r: Option<usize>)
    ensures
        match r {
            Some(k) => k < PRESET_COUNT && preset_index(name@) == Some(k as int),
            None => preset_index(name@) is None,
        },
{
    let mut i: usize = 0;
    while i < PRESET_COUNT
        invariant
            i <= PRESET_COUNT,
            preset_index(name@) == preset_from(name@, i as int),
        decreases PRESET_COUNT - i,
    {
        let (n, _) = preset_entry(i);
        if text::eq_ignore_ascii_case(n, name) {
            return Some(i);
        }
        i = i + 1;
    }
    None
}

/// Name of the preset `steps` positions after `current` (negative steps go backwards).
/// An unknown or "custom" theme starts from the first preset going forwards, and from the
/// last going backwards.
pub fn cycle_preset(current: &str, steps: i32) -> (r: &'static str)
    requires
        preset_index(current@) matches Some(i) ==> i + steps <= i32::MAX,
    ensures
        r@ == cycled_preset(current@, steps as int),
{
    let n: i32 = 16;
    match preset_position(current) {
        None => {
            if steps >= 0 {
                preset_entry(0).0
            } else {
                preset_entry(PRESET_COUNT - 1).0
            }
        },
        Some(idx) => {
            let x: i32 = idx as i32 + steps;
            let m: i32 = x % n;
            let next: i32 = (m + n) % n;
            proof {
                lemma_wrap_index(x as int, m as int, next as int);
            }
            preset_entry(next as usize).0
        },
    }
}

proof fn lemma_wrap_index(x: int, m: int, next: int)
    requires
        -16 < m < 16,
        x >= 0 ==> m == x % 16,
        x < 0 ==> m == -((-x) % 16),
        next == (m + 16) % 16,
    ensures
        next == x % 16,
{
}

/// Cycling forwards by `k` and then backwards by `k` from a preset name returns to that
/// preset; cycling by sixteen returns to the same preset.
pub proof fn lemma_cycle_preset_inverse(i: int, k: int)
    requires
        0 <= i < 16,
    ensures
        preset_index(preset_name(i)) == Some(i),
        preset_index(cycled_preset(preset_name(i), k)) == Some((i + k) % 16),
        cycled_preset(cycled_preset(preset_name(i), k), -k) == preset_name(i),
        cycled_preset(preset_name(i), 16) == preset_name(i),
{
    lemma_preset_index_of_name(i);
    lemma_preset_index_of_name((i + k) % 16);
    assert(((i + k) % 16 + -k) % 16 == i);
}

/// Looking up a preset by its own name finds that preset.
pub proof fn lemma_preset_index_of_name(i: int)
    requires
        0 <= i < 16,
    ensures
        preset_index(preset_name(i)) == Some(i),
{
    lemma_preset_names_distinct(i);
    let n = preset_name(i);
    assert forall|j: int| 0 <= j <= i implies preset_from(n, j) == Some(i) by {
        lemma_preset_from_walk(n, i, j);
    }
}

proof fn lemma_preset_from_walk(n: Seq<char>, i: int, j: int)
    requires
        0 <= j <= i < 16,
        n == preset_name(i),
        forall|k: int| 0 <= k < i ==> !eq_ascii_ci(#[trigger] preset_name(k), n),
    ensures
        preset_from(n, j) == Some(i),
    decreases i - j,
{
    if j < i {
        lemma_preset_from_walk(n, i, j + 1);
    } else {
        assert(eq_ascii_ci(preset_name(i), n));
    }
}

/// Two names equal up to ASCII case find the same preset from any position on.
proof fn lemma_preset_from_same(a: Seq<char>, b: Seq<char>, i: int)
    requires
        eq_ascii_ci(a, b),
    ensures
        preset_from(a, i) == preset_from(b, i),
    decreases 16 - i,
{
    if 0 <= i < 16 {
        let n = preset_name(i);
        if eq_ascii_ci(n, a) {
            assert forall|k: int| 0 <= k < n.len() implies text::ascii_lower(#[trigger] n[k]) == text::ascii_lower(b[k]) by {
                assert(text::ascii_lower(a[k]) == text::ascii_lower(b[k]));
            }
        }
        if eq_ascii_ci(n, b) {
            assert forall|k: int| 0 <= k < n.len() implies text::ascii_lower(#[trigger] n[k]) == text::ascii_lower(a[k]) by {
                assert(text::ascii_lower(a[k]) == text::ascii_lower(b[k]));
            }
        }
        lemma_preset_from_same(a, b, i + 1);
    }
}

/// The preset table: every stop of every preset parses as a colour, the sixteen names
/// differ even when ASCII case is ignored, and looking a preset up ignores ASCII case.
pub proof fn lemma_preset_table(a: Seq<char>, b: Seq<char>)
    ensures
        forall|i: int, j: int|
            0 <= i < PRESET_COUNT && 0 <= j < preset_stops(i).len() ==> rgb_of_text(
                rgb_text(#[trigger] preset_stops(i)[j]),
            ) is Some,
        forall|i: int, k: int|
            0 <= i < 16 && 0 <= k < 16 && i != k ==> !eq_ascii_ci(#[trigger] preset_name(i), #[trigger] preset_name(k)),
        eq_ascii_ci(a, b) ==> preset_index(a) == preset_index(b),
{
    assert forall|i: int, j: int|
        0 <= i < PRESET_COUNT && 0 <= j < preset_stops(i).len() implies rgb_of_text(
            rgb_text(#[trigger] preset_stops(i)[j]),
        ) is Some by {
        lemma_preset_stops_safe(i, j);
    }
    assert forall|i: int, k: int|
        0 <= i < 16 && 0 <= k < 16 && i != k implies !eq_ascii_ci(#[trigger] preset_name(i), #[trigger] preset_name(k)) by {
        lemma_preset_names_distinct(k);
    }
    if eq_ascii_ci(a, b) {
        lemma_preset_from_same(a, b, 0);
    }
}

/// Preset names differ from each other even when ASCII case is ignored.
pub proof fn lemma_preset_names_distinct(i: int)
    requires
        0 <= i < 16,
    ensures
        forall|k: int| 0 <= k < 16 && k != i ==> !eq_ascii_ci(#[trigger] preset_name(k), preset_name(i)),
{
    reveal_strlit("spectrum");
    reveal_strlit("classic");
    reveal_strlit("rainbow");
    reveal_strlit("sunset");
    reveal_strlit("ocean");
    reveal_strlit("fire");
    reveal_strlit("ice");
    reveal_strlit("matrix");
    reveal_strlit("neon");
    reveal_strlit("synthwave");
    reveal_strlit("pastel");
    reveal_strlit("mono");
    reveal_strlit("gruvbox");
    reveal_strlit("nord");
    reveal_strlit("dracula");
    reveal_strlit("catppuccin");
    assert forall|k: int| 0 <= k < 16 && k != i implies !eq_ascii_ci(#[trigger] preset_name(k), preset_name(i)) by {
        let a = preset_name(k);
        let b = preset_name(i);
        if a.len() == b.len() {
            if a[0] != b[0] {
                assert(ascii_lower_differs(a[0], b[0]));
            } else if a[1] != b[1] {
                assert(ascii_lower_differs(a[1], b[1]));
            } else {
                assert(ascii_lower_differs(a[2], b[2]));
            }
        }
    }
}

/// Two different lower-case ASCII letters stay different after ASCII lower-casing.
pub open spec fn ascii_lower_differs(a: char, b: char) -> bool {
    text::ascii_lower(a) != text::ascii_lower(b)
}

/// Value of a hexadecimal digit (`char::to_digit(16)`).
pub fn hex_digit_value(c: char) -> (r: Option<u8>)
    ensures
        match hex_digit(c) {
            Some(v) => r == Some(v as u8) && 0 <= v < 16,
            None => r is None,
        },
{
    if '0' <= c && c <= '9' {
        Some(((c as u32) - ('0' as u32)) as u8)
    } else if 'a' <= c && c <= 'f' {
        Some(((c as u32) - ('a' as u32) + 10) as u8)
    } else if 'A' <= c && c <= 'F' {
        Some(((c as u32) - ('A' as u32) + 10) as u8)
    } else {
        None
    }
}

/// Value of a two-character hexadecimal number as `u8::from_str_radix(.., 16)` reads it.
pub fn hex_pair_value(a: char, b: char) -> (r: Option<u8>)
    ensures
        match hex_pair(a, b) {
            Some(v) => r == Some(v as u8) && 0 <= v < 256,
            None => r is None,
        },
{
    if a == '+' {
        return hex_digit_value(b);
    }
    match (hex_digit_value(a), hex_digit_value(b)) {
        (Some(x), Some(y)) => Some(16 * x + y),
        _ => None,
    }
}

/// Absolute difference.
pub open spec fn abs_diff(a: int, b: int) -> int {
    if a >= b {
        a - b
    } else {
        b - a
    }
}

/// Nearest of the six levels 0..=5 of the 256-colour cube for a channel value.
pub open spec fn cube_level(v: int) -> int {
    (10 * v + 255) / 510
}

/// The terminal colour used for `c`: the colour itself on 24-bit terminals; otherwise a
/// grey-ramp entry for near-greys and the nearest colour-cube entry for the rest.
pub open spec fn term_color(c: Rgb, truecolor: bool) -> TermColor {
    let r = c.0 as int;
    let g = c.1 as int;
    let b = c.2 as int;
    if truecolor {
        TermColor::Rgb(c.0, c.1, c.2)
    } else if abs_diff(r, g) < 10 && abs_diff(g, b) < 10 && abs_diff(r, b) < 10 {
        let avg = (r + g + b) / 3;
        if avg < 8 {
            TermColor::Indexed(16)
        } else if avg > 238 {
            TermColor::Indexed(231)
        } else {
            TermColor::Indexed((232 + (avg - 8) * 23 / 230) as u8)
        }
    } else {
        TermColor::Indexed((16 + 36 * cube_level(r) + 6 * cube_level(g) + cube_level(b)) as u8)
    }
}

impl Rgb {
    /// Parses `#RRGGBB` or `#RGB` (the `#` is optional, surrounding white space ignored).
    pub fn parse(s: &str) -> (r: Option<Rgb>)
        requires
            rgb_parse_safe(s@),
        ensures
            r == parse_rgb(s@),
    {
        let trimmed = text::trim_str(s);
        let t0 = text::chars_of(trimmed.as_str());
        let mut k: usize = 0;
        assert(t0@.skip(0) =~= t0@);
        while k < t0.len() && t0[k] == '#'
            invariant
                k <= t0.len(),
                strip_hashes(t0@) == strip_hashes(t0@.skip(k as int)),
                t0@ == trim(s@),
            decreases t0.len() - k,
        {
            assert(t0@.skip(k as int).drop_first() =~= t0@.skip(k + 1));
            k = k + 1;
        }
        let ghost t = t0@.skip(k as int);
        assert(strip_hashes(t) == t);
        assert(t == rgb_text(s@));
        let n = t0.len() - k;
        let mut i: usize = k;
        while i < t0.len()
            invariant
                k <= i <= t0.len(),
                t == t0@.skip(k as int),
                t == rgb_text(s@),
                forall|j: int| 0 <= j < i - k ==> (#[trigger] t[j] as u32) < 0x80,
            decreases t0.len() - i,
        {
            if (t0[i] as u32) >= 0x80 {
                assert(t[i - k] == t0@[i as int]);
                return None;
            }
            assert(t[i - k] == t0@[i as int]);
            i = i + 1;
        }
        assert(is_ascii_text(t));
        if n == 6 {
            assert(t[0] == t0@[k as int] && t[1] == t0@[k + 1] && t[2] == t0@[k + 2]);
            assert(t[3] == t0@[k + 3] && t[4] == t0@[k + 4] && t[5] == t0@[k + 5]);
            let r = hex_pair_value(t0[k], t0[k + 1]);
            let g = hex_pair_value(t0[k + 2], t0[k + 3]);
            let b = hex_pair_value(t0[k + 4], t0[k + 5]);
            match (r, g, b) {
                (Some(r), Some(g), Some(b)) => Some(Rgb(r, g, b)),
                _ => None,
            }
        } else if n == 3 {
            assert(t[0] == t0@[k as int] && t[1] == t0@[k + 1] && t[2] == t0@[k + 2]);
            let r = hex_digit_value(t0[k]);
            let g = hex_digit_value(t0[k + 1]);
            let b = hex_digit_value(t0[k + 2]);
            match (r, g, b) {
                (Some(r), Some(g), Some(b)) => Some(Rgb(r * 17, g * 17, b * 17)),
                _ => None,
            }
        } else {
            None
        }
    }

    /// The terminal colour for this colour (see [`term_color`]).
    pub fn to_color(self, truecolor: bool) -> (r: TermColor)
        ensures
            r == term_color(self, truecolor),
    {
        if truecolor {
            return TermColor::Rgb(self.0, self.1, self.2);
        }
        let r: i32 = self.0 as i32;
        let g: i32 = self.1 as i32;
        let b: i32 = self.2 as i32;
        let dg = if r >= g { r - g } else { g - r };
        let db = if g >= b { g - b } else { b - g };
        let dr = if r >= b { r - b } else { b - r };
        if dg < 10 && db < 10 && dr < 10 {
            let avg: i32 = (r + g + b) / 3;
            return if avg < 8 {
                TermColor::Indexed(16)
            } else if avg > 238 {
                TermColor::Indexed(231)
            } else {
                TermColor::Indexed((232 + (avg - 8) * 23 / 230) as u8)
            };
        }
        let qr: i32 = (10 * r + 255) / 510;
        let qg: i32 = (10 * g + 255) / 510;
        let qb: i32 = (10 * b + 255) / 510;
        TermColor::Indexed((16 + 36 * qr + 6 * qg + qb) as u8)
    }
}

/// The cube level of a channel is the nearest of the six levels `0, 51, ..., 255`.
proof fn lemma_cube_level_nearest(v: int)
    requires
        0 <= v <= 255,
    ensures
        0 <= cube_level(v) <= 5,
        2 * abs_diff(v, 51 * cube_level(v)) <= 51,
{
    let q = cube_level(v);
    vstd::arithmetic::div_mod::lemma_fundamental_div_mod(10 * v + 255, 510);
    assert(0 <= q <= 5) by (nonlinear_arith)
        requires
            q == (10 * v + 255) / 510,
            0 <= v <= 255,
    ;
}

/// A colour that is not a near-grey is shown on a 256-colour terminal as the colour-cube
/// entry `16 + 36 * red + 6 * green + blue`, each channel at its nearest of the six cube
/// levels `0, 51, ..., 255`.
pub proof fn lemma_cube_colour(c: Rgb)
    requires
        !(abs_diff(c.0 as int, c.1 as int) < 10 && abs_diff(c.1 as int, c.2 as int) < 10
            && abs_diff(c.0 as int, c.2 as int) < 10),
    ensures
        term_color(c, false) matches TermColor::Indexed(i) && 16 <= i <= 231 && ({
            let k = i - 16;
            &&& 2 * abs_diff(c.0 as int, 51 * (k / 36)) <= 51
            &&& 2 * abs_diff(c.1 as int, 51 * ((k / 6) % 6)) <= 51
            &&& 2 * abs_diff(c.2 as int, 51 * (k % 6)) <= 51
        }),
{
    let r = cube_level(c.0 as int);
    let g = cube_level(c.1 as int);
    let b = cube_level(c.2 as int);
    lemma_cube_level_nearest(c.0 as int);
    lemma_cube_level_nearest(c.1 as int);
    lemma_cube_level_nearest(c.2 as int);
    let k = 36 * r + 6 * g + b;
    vstd::arithmetic::div_mod::lemma_fundamental_div_mod_converse(k, 36, r, 6 * g + b);
    vstd::arithmetic::div_mod::lemma_fundamental_div_mod_converse(k, 6, 6 * r + g, b);
    vstd::arithmetic::div_mod::lemma_fundamental_div_mod_converse(6 * r + g, 6, r, g);
}

/// A near-grey colour is shown on a 256-colour terminal as black or white of the cube,
/// or as an entry of the grey ramp `232..=255`, never as a coloured cube entry.
pub proof fn lemma_grey_colour(c: Rgb)
    requires
        abs_diff(c.0 as int, c.1 as int) < 10,
        abs_diff(c.1 as int, c.2 as int) < 10,
        abs_diff(c.0 as int, c.2 as int) < 10,
    ensures
        term_color(c, false) matches TermColor::Indexed(i) && (i == 16 || i == 231 || 232 <= i <= 255),
{
    let avg = (c.0 as int + c.1 as int + c.2 as int) / 3;
    if 8 <= avg <= 238 {
        assert(0 <= (avg - 8) * 23 / 230 <= 23) by (nonlinear_arith)
            requires
                8 <= avg <= 238,
        ;
    }
}

/// A colour gradient: at least one stop, listed low to high.
#[derive(Debug)]
pub struct Gradient {
    stops: Vec<Rgb>,
}

impl View for Gradient {
    type V = Seq<Rgb>;

    closed spec fn view(&self) -> Seq<Rgb> {
        self.stops@
    }
}

impl Clone for Gradient {
    fn clone(&self) -> (r: Self)
        ensures
            r@ == self@,
    {
        proof {
            use_type_invariant(self);
        }
        let mut stops: Vec<Rgb> = Vec::new();
        let mut i: usize = 0;
        while i < self.stops.len()
            invariant
                i <= self.stops@.len(),
                stops@ == self.stops@.take(i as int),
            decreases self.stops@.len() - i,
        {
            stops.push(self.stops[i]);
            i = i + 1;
        }
        assert(self.stops@.take(i as int) =~= self.stops@);
        Gradient { stops }
    }
}

impl Gradient {
    #[verifier::type_invariant]
    spec fn has_a_stop(self) -> bool {
        self.stops@.len() >= 1
    }

    /// A gradient through `stops`; an empty list gives plain white.
    pub fn new(stops: Vec<Rgb>) -> (g: Gradient)
        ensures
            g@ == (if stops@.len() == 0 {
                seq![Rgb(255, 255, 255)]
            } else {
                stops@
            }),
    {
        let mut stops = stops;
        if stops.len() == 0 {
            stops.push(Rgb(255, 255, 255));
        }
        Gradient { stops }
    }

    /// The stops, low to high; never empty.
    pub fn stops(&self) -> (r: &Vec<Rgb>)
        ensures
            r@ == self@,
            r@.len() >= 1,
    {
        proof {
            use_type_invariant(self);
        }
        &self.stops
    }
}

/// The colours that can be read from `texts`, in order; unreadable texts are skipped.
pub open spec fn parsed_stops(texts: Seq<Seq<char>>) -> Seq<Rgb>
    decreases texts.len(),
{
    if texts.len() == 0 {
        Seq::empty()
    } else {
        let rest = parsed_stops(texts.drop_last());
        match parse_rgb(texts.last()) {
            Some(c) => rest.push(c),
            None => rest,
        }
    }
}

/// A list with `dflt` alone in place of an empty list.
pub open spec fn or_white(stops: Seq<Rgb>) -> Seq<Rgb> {
    if stops.len() == 0 {
        seq![Rgb(255, 255, 255)]
    } else {
        stops
    }
}

/// Every element of `texts` can be parsed without running into a character boundary.
pub open spec fn all_parse_safe(texts: Seq<Seq<char>>) -> bool {
    forall|j: int| 0 <= j < texts.len() ==> rgb_parse_safe(#[trigger] texts[j])
}

/// The colours that can be read from `texts`.
pub fn parse_all(texts: &Vec<String>) -> (r: Vec<Rgb>)
    requires
        all_parse_safe(texts@.map_values(|s: String| s@)),
    ensures
        r@ == parsed_stops(texts@.map_values(|s: String| s@)),
{
    let ghost views = texts@.map_values(|s: String| s@);
    let mut out: Vec<Rgb> = Vec::new();
    let mut i: usize = 0;
    while i < texts.len()
        invariant
            i <= texts.len(),
            views == texts@.map_values(|s: String| s@),
            all_parse_safe(views),
            out@ == parsed_stops(views.take(i as int)),
        decreases texts.len() - i,
    {
        assert(views[i as int] == texts@[i as int]@);
        assert(rgb_parse_safe(views[i as int]));
        let c = Rgb::parse(texts[i].as_str());
        assert(views.take(i + 1).drop_last() =~= views.take(i as int));
        assert(views.take(i + 1).last() == views[i as int]);
        if let Some(c) = c {
            out.push(c);
        }
        i = i + 1;
    }
    assert(views.take(texts.len() as int) =~= views);
    out
}

/// The colours of preset `i`.
pub fn parse_preset(i: usize) -> (r: Vec<Rgb>)
    requires
        i < PRESET_COUNT,
    ensures
        r@ == parsed_stops(preset_stops(i as int)),
        r@.len() == preset_stops(i as int).len(),
{
    let (_, stops) = preset_entry(i);
    let ghost views = preset_stops(i as int);
    let mut out: Vec<Rgb> = Vec::new();
    let mut j: usize = 0;
    while j < stops.len()
        invariant
            i < PRESET_COUNT,
            j <= stops.len(),
            views == preset_stops(i as int),
            stops@.len() == views.len(),
            forall|k: int| 0 <= k < stops@.len() ==> #[trigger] stops@[k]@ == views[k],
            out@ == parsed_stops(views.take(j as int)),
            out@.len() == j,
        decreases stops.len() - j,
    {
        proof {
            lemma_preset_stops_safe(i as int, j as int);
        }
        assert(stops@[j as int]@ == views[j as int]);
        let c = Rgb::parse(stops[j]);
        assert(views.take(j + 1).drop_last() =~= views.take(j as int));
        assert(views.take(j + 1).last() == views[j as int]);
        match c {
            Some(c) => out.push(c),
            None => {
                assert(false);
            },
        }
        j = j + 1;
    }
    assert(views.take(stops.len() as int) =~= views);
    out
}

/// Theme colours and options derived from the `[colors]` section.
#[derive(Debug, Clone)]
pub struct Theme {
    pub gradient: Gradient,
    pub direction: GradientDirection,
    pub background: Option<Rgb>,
    pub peak: Rgb,
    pub text: Rgb,
    pub accent: Rgb,
    pub truecolor: bool,
}

/// The colour texts of a `[colors]` section can all be read without running into a
/// character boundary.
pub open spec fn colors_parse_safe(c: ColorConfig) -> bool {
    &&& eq_ascii_ci(c.theme@, "custom"@) ==> all_parse_safe(c.gradient@.map_values(|s: String| s@))
    &&& !(eq_ascii_ci(c.background@, "default"@) || c.background@.len() == 0) ==> rgb_parse_safe(c.background@)
    &&& rgb_parse_safe(c.peak@)
    &&& rgb_parse_safe(c.text@)
    &&& rgb_parse_safe(c.accent@)
}

/// The gradient stops a `[colors]` section selects: the parsed custom list for the theme
/// "custom", otherwise the named preset, or "spectrum" when the name is unknown.
pub open spec fn theme_stops(c: ColorConfig) -> Seq<Rgb> {
    if eq_ascii_ci(c.theme@, "custom"@) {
        parsed_stops(c.gradient@.map_values(|s: String| s@))
    } else {
        match preset_index(c.theme@) {
            Some(i) => parsed_stops(preset_stops(i)),
            None => parsed_stops(preset_stops(0)),
        }
    }
}

/// The colour read from `s`, or `dflt` when it cannot be read.
pub open spec fn parse_or(s: Seq<char>, dflt: Rgb) -> Rgb {
    match parse_rgb(s) {
        Some(c) => c,
        None => dflt,
    }
}

impl Theme {
    pub fn from_config(c: &ColorConfig, truecolor: bool) -> (t: Theme)
        requires
            colors_parse_safe(*c),
        ensures
            t.gradient@ == or_white(theme_stops(*c)),
            t.direction == c.direction,
            t.background == (if eq_ascii_ci(c.background@, "default"@) || c.background@.len() == 0 {
                None
            } else {
                parse_rgb(c.background@)
            }),
            t.peak == parse_or(c.peak@, Rgb(255, 255, 255)),
            t.text == parse_or(c.text@, Rgb(200, 200, 200)),
            t.accent == parse_or(c.accent@, Rgb(124, 77, 255)),
            t.truecolor == truecolor,
    {
        let stops: Vec<Rgb> = if text::eq_ignore_ascii_case(c.theme.as_str(), "custom") {
            parse_all(&c.gradient)
        } else {
            match preset_position(c.theme.as_str()) {
                Some(i) => parse_preset(i),
                None => {
                    let first = preset_position("spectrum");
                    proof {
                        lemma_preset_index_of_name(0);
                    }
                    match first {
                        Some(i) => parse_preset(i),
                        None => parse_preset(0),
                    }
                },
            }
        };
        let background = if text::eq_ignore_ascii_case(c.background.as_str(), "default")
            || c.background.as_str().is_empty() {
            None
        } else {
            Rgb::parse(c.background.as_str())
        };
        let peak = match Rgb::parse(c.peak.as_str()) {
            Some(p) => p,
            None => Rgb(255, 255, 255),
        };
        let text_c = match Rgb::parse(c.text.as_str()) {
            Some(p) => p,
            None => Rgb(200, 200, 200),
        };
        let accent = match Rgb::parse(c.accent.as_str()) {
            Some(p) => p,
            None => Rgb(124, 77, 255),
        };
        Theme {
            gradient: Gradient::new(stops),
            direction: c.direction,
            background,
            peak,
            text: text_c,
            accent,
            truecolor,
        }
    }

    /// Terminal colour for the background (`Reset` when the terminal default is kept).
    pub fn bg(&self) -> (r: TermColor)
        ensures
            r == (match self.background {
                Some(c) => term_color(c, self.truecolor),
                None => TermColor::Reset,
            }),
    {
        match self.background {
            Some(c) => c.to_color(self.truecolor),
            None => TermColor::Reset,
        }
    }

    /// Concrete RGB to blend towards when fading; black when the terminal default is used.
    pub fn bg_rgb(&self) -> (r: Rgb)
        ensures
            r == (match self.background {
                Some(c) => c,
                None => Rgb(0, 0, 0),
            }),
    {
        match self.background {
            Some(c) => c,
            None => Rgb(0, 0, 0),
        }
    }

    pub fn peak(&self) -> (r: TermColor)
        ensures
            r == term_color(self.peak, self.truecolor),
    {
        self.peak.to_color(self.truecolor)
    }

    pub fn text(&self) -> (r: TermColor)
        ensures
            r == term_color(self.text, self.truecolor),
    {
        self.text.to_color(self.truecolor)
    }

    pub fn accent(&self) -> (r: TermColor)
        ensures
            r == term_color(self.accent, self.truecolor),
    {
        self.accent.to_color(self.truecolor)
    }

    pub fn convert(&self, c: Rgb) -> (r: TermColor)
        ensures
            r == term_color(c, self.truecolor),
    {
        c.to_color(self.truecolor)
    }
}

} // verus!
