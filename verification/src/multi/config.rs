//! Configuration: modes, quality presets, colour parsing and validation.
use vstd::prelude::*;
use crate::text::{self, trim};
use crate::seqs::first_index;
use crate::studio::theme::hex_digit;

verus! {

#[derive(Debug, Clone, Copy, PartialEq, Eq, Structural)]
pub enum Mode {
    Spectrum,
    Waveform,
    Spectrogram,
    Vectorscope,
    Vu,
    Radial,
}

/// Position of a mode in the mode order.
pub open spec fn mode_index(m: Mode) -> int {
    match m {
        Mode::Spectrum => 0,
        Mode::Waveform => 1,
        Mode::Spectrogram => 2,
        Mode::Vectorscope => 3,
        Mode::Vu => 4,
        Mode::Radial => 5,
    }
}

/// The mode at position `i` (`0 <= i < 6`).
pub open spec fn mode_at(i: int) -> Mode {
    if i == 0 {
        Mode::Spectrum
    } else if i == 1 {
        Mode::Waveform
    } else if i == 2 {
        Mode::Spectrogram
    } else if i == 3 {
        Mode::Vectorscope
    } else if i == 4 {
        Mode::Vu
    } else {
        Mode::Radial
    }
}

pub open spec fn mode_name(m: Mode) -> Seq<char> {
    match m {
        Mode::Spectrum => "Spectrum"@,
        Mode::Waveform => "Waveform"@,
        Mode::Spectrogram => "Spectrogram"@,
        Mode::Vectorscope => "Vectorscope"@,
        Mode::Vu => "VU meters"@,
        Mode::Radial => "Radial"@,
    }
}

/// The mode after `m`; the last is followed by the first.
pub open spec fn next_mode(m: Mode) -> Mode {
    mode_at((mode_index(m) + 1) % 6)
}

impl Mode {
    /// All modes in order.
    pub fn all() -> (r: [Mode; 6])
        ensures
            forall|i: int| 0 <= i < 6 ==> r[i] == mode_at(i),
    {
        [Mode::Spectrum, Mode::Waveform, Mode::Spectrogram, Mode::Vectorscope, Mode::Vu, Mode::Radial]
    }

    pub fn name(self) -> (r: &'static str)
        ensures
            r@ == mode_name(self),
    {
        match self {
            Mode::Spectrum => "Spectrum",
            Mode::Waveform => "Waveform",
            Mode::Spectrogram => "Spectrogram",
            Mode::Vectorscope => "Vectorscope",
            Mode::Vu => "VU meters",
            Mode::Radial => "Radial",
        }
    }

    pub fn index(self) -> (r: usize)
        ensures
            r == mode_index(self),
    {
        match self {
            Mode::Spectrum => 0,
            Mode::Waveform => 1,
            Mode::Spectrogram => 2,
            Mode::Vectorscope => 3,
            Mode::Vu => 4,
            Mode::Radial => 5,
        }
    }

    pub fn next(self) -> (r: Self)
        ensures
            r == next_mode(self),
    {
        Mode::all()[(self.index() + 1) % 6]
    }
}

/// Six steps forwards through the modes return to the start; positions and modes
/// correspond one to one.
pub proof fn lemma_mode_cycle(m: Mode)
    ensures
        next_mode(next_mode(next_mode(next_mode(next_mode(next_mode(m)))))) == m,
        mode_at(mode_index(m)) == m,
        forall|i: int| 0 <= i < 6 ==> mode_index(#[trigger] mode_at(i)) == i,
{
}

#[derive(Debug, Clone, Copy, PartialEq, Eq, Structural)]
pub enum Quality {
    Low,
    Medium,
    High,
    Ultra,
}

/// FFT window of a quality level.
pub open spec fn quality_size(q: Quality) -> usize {
    match q {
        Quality::Low => 1024,
        Quality::Medium => 2048,
        Quality::High => 4096,
        Quality::Ultra => 8192,
    }
}

/// The quality level after `q`; the highest is followed by the lowest.
pub open spec fn next_quality(q: Quality) -> Quality {
    match q {
        Quality::Low => Quality::Medium,
        Quality::Medium => Quality::High,
        Quality::High => Quality::Ultra,
        Quality::Ultra => Quality::Low,
    }
}

impl Quality {
    pub fn size(self) -> (r: usize)
        ensures
            r == quality_size(self),
    {
        match self {
            Quality::Low => 1024,
            Quality::Medium => 2048,
            Quality::High => 4096,
            Quality::Ultra => 8192,
        }
    }

    pub fn next(self) -> (r: Self)
        ensures
            r == next_quality(self),
    {
        match self {
            Quality::Low => Quality::Medium,
            Quality::Medium => Quality::High,
            Quality::High => Quality::Ultra,
            Quality::Ultra => Quality::Low,
        }
    }
}

/// Four steps through the quality levels return to the start, and each step doubles the
/// FFT window except the wrap from the highest to the lowest.
pub proof fn lemma_quality_cycle(q: Quality)
    ensures
        next_quality(next_quality(next_quality(next_quality(q)))) == q,
        q != Quality::Ultra ==> quality_size(next_quality(q)) == 2 * quality_size(q),
        next_quality(next_quality(next_quality(q))) == (match q {
            Quality::Low => Quality::Ultra,
            Quality::Medium => Quality::Low,
            Quality::High => Quality::Medium,
            Quality::Ultra => Quality::High,
        }),
{
}

/// The text that `str` debug formatting (`{:?}`) shows for `s`: quoted, with escapes.
pub uninterp spec fn debug_text(s: Seq<char>) -> Seq<char>;

/// Calls `<str as Debug>::fmt` through `format!("{s:?}")`: `s` in double quotes with
/// special characters escaped. The result is named `debug_text(s@)`.
#[verifier::external_body]
pub(crate) fn quoted(s: &str) -> (r: String)
    ensures
        r@ == debug_text(s@),
{
    format!("{s:?}")
}

/// A colour text that is not `#RRGGBB`.
#[derive(Debug, Clone, PartialEq, Eq)]
pub enum ColorError {
    /// Not six ASCII characters after the optional `#`.
    Format(String),
    /// Six characters that are not a hexadecimal number.
    Digits(String),
}

impl ColorError {
    pub fn message(&self) -> (r: String)
        ensures
            r@ == match self {
                ColorError::Format(s) => "Invalid color "@ + debug_text(s@) + ": expected #RRGGBB"@,
                ColorError::Digits(s) => "Invalid color "@ + debug_text(s@),
            },
    {
        match self {
            ColorError::Format(s) => {
                let q = quoted(s.as_str());
                text::concat3("Invalid color ", q.as_str(), ": expected #RRGGBB")
            },
            ColorError::Digits(s) => {
                let q = quoted(s.as_str());
                text::concat("Invalid color ", q.as_str())
            },
        }
    }
}

/// Value of a text of hexadecimal digits.
pub open spec fn hex_value(t: Seq<char>) -> Option<int>
    decreases t.len(),
{
    if t.len() == 0 {
        Some(0)
    } else {
        match (hex_value(t.drop_last()), hex_digit(t.last())) {
            (Some(v), Some(d)) => Some(16 * v + d),
            _ => None,
        }
    }
}

/// Every character of `t` is ASCII.
pub open spec fn ascii_only(t: Seq<char>) -> bool {
    forall|i: int| 0 <= i < t.len() ==> (#[trigger] t[i] as u32) < 0x80
}

/// `s` without one leading `#`.
pub open spec fn color_digits(s: Seq<char>) -> Seq<char> {
    if s.len() > 0 && s[0] == '#' {
        s.drop_first()
    } else {
        s
    }
}

/// `#RRGGBB` has the right shape in `s`: after the optional `#`, six ASCII characters.
pub open spec fn color_shape_ok(s: Seq<char>) -> bool {
    color_digits(s).len() == 6 && ascii_only(color_digits(s))
}

/// The number written by the characters of `s` after the optional `#`, when all of them
/// are hexadecimal digits.
pub open spec fn color_number(s: Seq<char>) -> Option<int> {
    hex_value(color_digits(s))
}

/// The red, green and blue bytes of a 24-bit number.
pub open spec fn rgb_bytes(n: int) -> (u8, u8, u8) {
    ((n / 65536) as u8, ((n / 256) % 256) as u8, (n % 256) as u8)
}

/// A text whose first part is no hexadecimal number is none either.
proof fn lemma_hex_value_prefix(t: Seq<char>, m: int)
    requires
        0 <= m <= t.len(),
        hex_value(t.take(m)) is None,
    ensures
        hex_value(t) is None,
    decreases t.len(),
{
    if m < t.len() {
        assert(t.drop_last().take(m) =~= t.take(m));
        lemma_hex_value_prefix(t.drop_last(), m);
    } else {
        assert(t.take(m) =~= t);
    }
}

proof fn lemma_hex_value_bound(t: Seq<char>)
    ensures
        hex_value(t) matches Some(v) ==> 0 <= v < vstd::arithmetic::power::pow(16, t.len()),
    decreases t.len(),
{
    reveal(vstd::arithmetic::power::pow);
    if t.len() > 0 {
        lemma_hex_value_bound(t.drop_last());
        if let (Some(v), Some(d)) = (hex_value(t.drop_last()), hex_digit(t.last())) {
            let p = vstd::arithmetic::power::pow(16, (t.len() - 1) as nat);
            assert(16 * v + d < 16 * p) by (nonlinear_arith)
                requires
                    0 <= v < p,
                    0 <= d < 16,
            ;
        }
    }
}

/// The digit value of the `k`-th character after the optional `#`.
pub open spec fn color_digit(s: Seq<char>, k: int) -> int {
    hex_digit(color_digits(s)[k])->0
}

/// `parse_color` accepts exactly six hexadecimal digits after an optional `#`, and reads
/// the red, green and blue bytes from the first, middle and last pair of digits.
pub proof fn lemma_color_pairs(s: Seq<char>)
    ensures
        color_ok(s) <==> (color_digits(s).len() == 6 && forall|k: int|
            0 <= k < 6 ==> (#[trigger] hex_digit(color_digits(s)[k])) is Some),
        color_ok(s) ==> (color_number(s) matches Some(n) && rgb_bytes(n) == (
            (16 * color_digit(s, 0) + color_digit(s, 1)) as u8,
            (16 * color_digit(s, 2) + color_digit(s, 3)) as u8,
            (16 * color_digit(s, 4) + color_digit(s, 5)) as u8,
        )),
{
    let h = color_digits(s);
    if h.len() == 6 {
        reveal_with_fuel(hex_value, 7);
        assert(h.drop_last().drop_last().drop_last().drop_last().drop_last().drop_last().len() == 0);
        let all = forall|k: int| 0 <= k < 6 ==> (#[trigger] hex_digit(h[k])) is Some;
        if all {
            assert forall|i: int| 0 <= i < h.len() implies (#[trigger] h[i] as u32) < 0x80 by {
                assert(hex_digit(h[i]) is Some);
            }
            let d0 = hex_digit(h[0])->0;
            let d1 = hex_digit(h[1])->0;
            let d2 = hex_digit(h[2])->0;
            let d3 = hex_digit(h[3])->0;
            let d4 = hex_digit(h[4])->0;
            let d5 = hex_digit(h[5])->0;
            assert(hex_digit(h[0]) is Some && hex_digit(h[1]) is Some && hex_digit(h[2]) is Some);
            assert(hex_digit(h[3]) is Some && hex_digit(h[4]) is Some && hex_digit(h[5]) is Some);
            let hi = 16 * d0 + d1;
            let mid = 16 * d2 + d3;
            let lo = 16 * d4 + d5;
            let n = 16 * (16 * (16 * (16 * (16 * d0 + d1) + d2) + d3) + d4) + d5;
            assert(hex_value(h) == Some(n));
            assert(n == hi * 65536 + (mid * 256 + lo));
            assert(n == (hi * 256 + mid) * 256 + lo);
            vstd::arithmetic::div_mod::lemma_fundamental_div_mod_converse(n, 65536, hi, mid * 256 + lo);
            vstd::arithmetic::div_mod::lemma_fundamental_div_mod_converse(n, 256, hi * 256 + mid, lo);
            vstd::arithmetic::div_mod::lemma_fundamental_div_mod_converse(hi * 256 + mid, 256, hi, mid);
        } else {
            let k = choose|k: int| 0 <= k < 6 && !(#[trigger] hex_digit(h[k]) is Some);
            assert(hex_value(h) is None) by {
                if k == 5 {
                } else if k == 4 {
                    assert(h.drop_last().last() == h[4]);
                } else if k == 3 {
                    assert(h.drop_last().drop_last().last() == h[3]);
                } else if k == 2 {
                    assert(h.drop_last().drop_last().drop_last().last() == h[2]);
                } else if k == 1 {
                    assert(h.drop_last().drop_last().drop_last().drop_last().last() == h[1]);
                } else {
                    assert(h.drop_last().drop_last().drop_last().drop_last().drop_last().last() == h[0]);
                }
            }
        }
    }
}

/// Parses `#RRGGBB` (the `#` is optional).
pub fn parse_color(s: &str) -> (r: Result<(u8, u8, u8), ColorError>)
    ensures
        match r {
            Ok(c) => color_ok(s@) && (color_number(s@) matches Some(n) && 0 <= n < 0x1000000 && c
                == rgb_bytes(n)),
            Err(e) => color_error_fits(s@, e),
        },
{
    let v = text::chars_of(s);
    let start: usize = if v.len() > 0 && v[0] == '#' {
        1
    } else {
        0
    };
    let ghost h = color_digits(s@);
    assert(h =~= v@.skip(start as int));
    if v.len() - start != 6 {
        return Err(ColorError::Format(text::owned(s)));
    }
    let mut i: usize = start;
    while i < v.len()
        invariant
            start <= i <= v.len(),
            v.len() == start + 6,
            v@ == s@,
            h == color_digits(s@),
            h == v@.skip(start as int),
            forall|j: int| 0 <= j < i - start ==> (#[trigger] h[j] as u32) < 0x80,
        decreases v.len() - i,
    {
        assert(h[i - start] == v@[i as int]);
        if (v[i] as u32) >= 0x80 {
            assert(!ascii_only(h)) by {
                assert((h[i - start] as u32) >= 0x80);
            }
            return Err(ColorError::Format(text::owned(s)));
        }
        i = i + 1;
    }
    let ghost digits = v@.skip(start as int);
    assert(digits == h);
    let mut n: u32 = 0;
    let mut k: usize = start;
    assert(digits.take(0) =~= Seq::<char>::empty());
    proof {
        reveal_with_fuel(vstd::arithmetic::power::pow, 7);
        assert(vstd::arithmetic::power::pow(16, 0) == 1);
        assert(vstd::arithmetic::power::pow(16, 5) == 0x100000);
        assert(vstd::arithmetic::power::pow(16, 6) == 0x1000000);
    }
    while k < v.len()
        invariant
            start <= k <= v.len(),
            v.len() == start + 6,
            v@ == s@,
            h == color_digits(s@),
            color_shape_ok(s@),
            digits == v@.skip(start as int),
            color_number(s@) == hex_value(digits),
            hex_value(digits.take(k - start)) == Some(n as int),
            n < vstd::arithmetic::power::pow(16, (k - start) as nat),
            vstd::arithmetic::power::pow(16, 5) == 0x100000,
        decreases v.len() - k,
    {
        let d = crate::studio::theme::hex_digit_value(v[k]);
        assert(digits.take(k - start + 1).drop_last() =~= digits.take(k - start));
        assert(digits.take(k - start + 1).last() == v@[k as int]);
        match d {
            Some(d) => {
                proof {
                    reveal(vstd::arithmetic::power::pow);
                    vstd::arithmetic::power::lemma_pow_increases(16, (k - start) as nat, 5);
                }
                n = 16 * n + d as u32;
            },
            None => {
                proof {
                    lemma_hex_value_prefix(digits, k - start + 1);
                }
                return Err(ColorError::Digits(text::owned(s)));
            },
        }
        k = k + 1;
    }
    assert(digits.take(k - start) =~= digits);
    proof {
        lemma_hex_value_bound(digits);
        vstd::arithmetic::power::lemma_pow_increases(16, digits.len(), 6);
        assert(vstd::arithmetic::power::pow(16, 6) == 0x1000000) by {
            reveal_with_fuel(vstd::arithmetic::power::pow, 7);
        }
        assert((n >> 16) as u8 == (n / 65536) as u8 && (n >> 8) as u8 == ((n / 256) % 256) as u8
            && n as u8 == (n % 256) as u8) by (bit_vector)
            requires
                n < 0x1000000,
        ;
    }
    Ok(((n >> 16) as u8, (n >> 8) as u8, n as u8))
}

/// The texts of a list of strings.
pub open spec fn texts(v: Seq<String>) -> Seq<Seq<char>> {
    v.map_values(|s: String| s@)
}

/// `s` is a colour that `parse_color` accepts.
pub open spec fn color_ok(s: Seq<char>) -> bool {
    color_shape_ok(s) && color_number(s) is Some
}

/// `e` is the error that `parse_color` gives for `s`.
pub open spec fn color_error_fits(s: Seq<char>, e: ColorError) -> bool {
    match e {
        ColorError::Format(t) => !color_shape_ok(s) && t@ == s,
        ColorError::Digits(t) => color_shape_ok(s) && color_number(s) is None && t@ == s,
    }
}

/// The theme names that a configuration may hold, in the order the settings cycle
/// through them.
pub open spec fn theme_names() -> Seq<Seq<char>> {
    seq!["aurora"@, "fire"@, "ocean"@, "mono"@, "custom"@]
}

/// The settings of the visualizer that are whole numbers, flags and texts. The
/// fractional settings (sensitivity, smoothing, frequency range, floor) are kept by
/// the caller; `FloatChecks` carries what validation needs to know of them.
#[derive(Debug, Clone)]
pub struct Config {
    pub mode: Mode,
    pub quality: Quality,
    pub fps: u16,
    pub auto_gain: bool,
    pub bar_width: u16,
    pub bar_gap: u16,
    pub theme: String,
    pub background: String,
    pub foreground: String,
    pub gradient: Vec<String>,
    pub show_peaks: bool,
    pub apps: Vec<String>,
    pub sink: Option<String>,
}

/// Whether each fractional setting lies in its allowed range (and is finite):
/// sensitivity in 0.05..=20, smoothing in 0..=0.98, the frequency range within
/// 20..24000 Hz with min < max, and the floor in -120..=-10 dB.
#[derive(Debug, Clone, Copy, PartialEq, Eq, Structural)]
pub struct FloatChecks {
    pub sensitivity: bool,
    pub smoothing: bool,
    pub frequency: bool,
    pub floor_db: bool,
}

/// Why a configuration was refused.
#[derive(Debug, Clone, PartialEq, Eq)]
pub enum SettingsError {
    Fps,
    Sensitivity,
    Smoothing,
    FrequencyRange,
    FloorDb,
    BarSize,
    Theme,
    GradientLength,
    Color(ColorError),
    EmptyApp,
}

impl SettingsError {
    pub fn message(&self) -> (r: String)
        ensures
            r@ == match self {
                SettingsError::Fps => "fps must be between 10 and 144"@,
                SettingsError::Sensitivity => "sensitivity must be 0.05..20"@,
                SettingsError::Smoothing => "smoothing must be 0..0.98"@,
                SettingsError::FrequencyRange => "frequency range must be within 20..24000 Hz, min < max"@,
                SettingsError::FloorDb => "floor_db must be -120..-10"@,
                SettingsError::BarSize => "bar_width must be 1..8 and bar_gap 0..4"@,
                SettingsError::Theme => "theme must be aurora, fire, ocean, mono, or custom"@,
                SettingsError::GradientLength => "gradient must contain 2..16 colors"@,
                SettingsError::Color(ColorError::Format(s)) => "Invalid color "@ + debug_text(s@)
                    + ": expected #RRGGBB"@,
                SettingsError::Color(ColorError::Digits(s)) => "Invalid color "@ + debug_text(s@),
                SettingsError::EmptyApp => "app filters cannot be empty"@,
            },
    {
        match self {
            SettingsError::Fps => text::owned("fps must be between 10 and 144"),
            SettingsError::Sensitivity => text::owned("sensitivity must be 0.05..20"),
            SettingsError::Smoothing => text::owned("smoothing must be 0..0.98"),
            SettingsError::FrequencyRange => text::owned(
                "frequency range must be within 20..24000 Hz, min < max",
            ),
            SettingsError::FloorDb => text::owned("floor_db must be -120..-10"),
            SettingsError::BarSize => text::owned("bar_width must be 1..8 and bar_gap 0..4"),
            SettingsError::Theme => text::owned("theme must be aurora, fire, ocean, mono, or custom"),
            SettingsError::GradientLength => text::owned("gradient must contain 2..16 colors"),
            SettingsError::Color(e) => e.message(),
            SettingsError::EmptyApp => text::owned("app filters cannot be empty"),
        }
    }
}

/// The colours that validation checks, in order: the gradient, then background and
/// foreground.
pub open spec fn checked_colors(c: Config) -> Seq<Seq<char>> {
    texts(c.gradient@).push(c.background@).push(c.foreground@)
}

/// The checks of `validate`, in order; `k` checks pass before the `k`-th fails.
pub open spec fn check_passes(c: Config, f: FloatChecks, k: int) -> bool {
    if k == 0 {
        10 <= c.fps <= 144
    } else if k == 1 {
        f.sensitivity
    } else if k == 2 {
        f.smoothing
    } else if k == 3 {
        f.frequency
    } else if k == 4 {
        f.floor_db
    } else if k == 5 {
        1 <= c.bar_width <= 8 && c.bar_gap <= 4
    } else if k == 6 {
        theme_names().contains(c.theme@)
    } else if k == 7 {
        2 <= c.gradient.len() <= 16
    } else if k == 8 {
        forall|i: int| 0 <= i < checked_colors(c).len() ==> color_ok(#[trigger] checked_colors(c)[i])
    } else {
        forall|i: int| 0 <= i < c.apps.len() ==> trim(#[trigger] c.apps@[i]@).len() > 0
    }
}

/// All checks before the `k`-th pass.
pub open spec fn passes_before(c: Config, f: FloatChecks, k: int) -> bool {
    forall|j: int| 0 <= j < k ==> #[trigger] check_passes(c, f, j)
}

/// `e` is the error of the first failing check of `c`.
pub open spec fn settings_error_fits(c: Config, f: FloatChecks, e: SettingsError) -> bool {
    let k = match e {
        SettingsError::Fps => 0int,
        SettingsError::Sensitivity => 1,
        SettingsError::Smoothing => 2,
        SettingsError::FrequencyRange => 3,
        SettingsError::FloorDb => 4,
        SettingsError::BarSize => 5,
        SettingsError::Theme => 6,
        SettingsError::GradientLength => 7,
        SettingsError::Color(_) => 8,
        SettingsError::EmptyApp => 9,
    };
    &&& passes_before(c, f, k)
    &&& !check_passes(c, f, k)
    &&& (e matches SettingsError::Color(ce) ==> {
        let cs = checked_colors(c);
        let i = first_index(cs, |t: Seq<char>| !color_ok(t));
        i matches Some(i) && color_error_fits(cs[i], ce)
    })
}

impl Default for Config {
    fn default() -> (r: Self)
        ensures
            r.mode == Mode::Spectrum,
            r.quality == Quality::High,
            r.fps == 60,
            r.auto_gain,
            r.bar_width == 2,
            r.bar_gap == 1,
            r.theme@ == "aurora"@,
            r.background@ == "#090E1A"@,
            r.foreground@ == "#D8E2F0"@,
            texts(r.gradient@) == seq!["#45E0B8"@, "#55A7FF"@, "#C58CFF"@],
            r.show_peaks,
            r.apps@.len() == 0,
            r.sink is None,
    {
        let gradient = vec![text::owned("#45E0B8"), text::owned("#55A7FF"), text::owned("#C58CFF")];
        assert(texts(gradient@) =~= seq!["#45E0B8"@, "#55A7FF"@, "#C58CFF"@]);
        Config {
            mode: Mode::Spectrum,
            quality: Quality::High,
            fps: 60,
            auto_gain: true,
            bar_width: 2,
            bar_gap: 1,
            theme: text::owned("aurora"),
            background: text::owned("#090E1A"),
            foreground: text::owned("#D8E2F0"),
            gradient,
            show_peaks: true,
            apps: Vec::new(),
            sink: None,
        }
    }
}

/// Whether `s` is one of the theme names.
pub fn is_theme_name(s: &str) -> (r: bool)
    ensures
        r == theme_names().contains(s@),
{
    proof {
        reveal_strlit("aurora");
        reveal_strlit("fire");
        reveal_strlit("ocean");
        reveal_strlit("mono");
        reveal_strlit("custom");
        assert(theme_names()[0] == "aurora"@);
        assert(theme_names()[1] == "fire"@);
        assert(theme_names()[2] == "ocean"@);
        assert(theme_names()[3] == "mono"@);
        assert(theme_names()[4] == "custom"@);
    }
    text::same_text(s, "aurora") || text::same_text(s, "fire") || text::same_text(s, "ocean")
        || text::same_text(s, "mono") || text::same_text(s, "custom")
}

/// Six hexadecimal digits after a `#` make a colour.
proof fn lemma_hash_hex_ok(s: Seq<char>)
    requires
        s.len() == 7,
        s[0] == '#',
        forall|i: int| 1 <= i < 7 ==> (#[trigger] hex_digit(s[i])) is Some,
    ensures
        color_ok(s),
{
    let h = s.drop_first();
    assert(color_digits(s) == h);
    assert forall|i: int| 0 <= i < h.len() implies (#[trigger] h[i] as u32) < 0x80 by {
        assert(h[i] == s[i + 1]);
        assert(hex_digit(s[i + 1]) is Some);
    }
    assert forall|k: int| 0 <= k <= 6 implies (#[trigger] hex_value(h.take(k))) is Some by {
        lemma_hex_prefix_some(h, k);
    }
    assert(h.take(6) =~= h);
}

proof fn lemma_hex_prefix_some(h: Seq<char>, k: int)
    requires
        0 <= k <= h.len(),
        forall|i: int| 0 <= i < h.len() ==> (#[trigger] hex_digit(h[i])) is Some,
    ensures
        hex_value(h.take(k)) is Some,
    decreases k,
{
    if k > 0 {
        lemma_hex_prefix_some(h, k - 1);
        assert(h.take(k).drop_last() =~= h.take(k - 1));
        assert(h.take(k).last() == h[k - 1]);
    }
}

/// The default configuration passes every check.
pub proof fn lemma_default_valid(c: Config)
    requires
        c.fps == 60,
        c.bar_width == 2,
        c.bar_gap == 1,
        c.theme@ == "aurora"@,
        c.background@ == "#090E1A"@,
        c.foreground@ == "#D8E2F0"@,
        texts(c.gradient@) == seq!["#45E0B8"@, "#55A7FF"@, "#C58CFF"@],
        c.apps@.len() == 0,
    ensures
        passes_before(c, FloatChecks { sensitivity: true, smoothing: true, frequency: true, floor_db: true }, 10),
{
    let f = FloatChecks { sensitivity: true, smoothing: true, frequency: true, floor_db: true };
    reveal_strlit("aurora");
    reveal_strlit("#090E1A");
    reveal_strlit("#D8E2F0");
    reveal_strlit("#45E0B8");
    reveal_strlit("#55A7FF");
    reveal_strlit("#C58CFF");
    assert(theme_names()[0] == "aurora"@);
    let cs = checked_colors(c);
    assert(cs =~= seq!["#45E0B8"@, "#55A7FF"@, "#C58CFF"@, "#090E1A"@, "#D8E2F0"@]);
    lemma_hash_hex_ok("#45E0B8"@);
    lemma_hash_hex_ok("#55A7FF"@);
    lemma_hash_hex_ok("#C58CFF"@);
    lemma_hash_hex_ok("#090E1A"@);
    lemma_hash_hex_ok("#D8E2F0"@);
    assert(check_passes(c, f, 8));
    assert forall|j: int| 0 <= j < 10 implies #[trigger] check_passes(c, f, j) by {}
}

impl Config {
    /// Checks the configuration: `Ok` exactly when every check passes, otherwise the
    /// error of the first check that fails.
    pub fn validate(&self, checks: FloatChecks) -> (r: Result<(), SettingsError>)
        ensures
            r is Ok <==> passes_before(*self, checks, 10),
            r matches Err(e) ==> settings_error_fits(*self, checks, e),
    {
        let ghost c = *self;
        let ghost f = checks;
        if !(10 <= self.fps && self.fps <= 144) {
            assert(!check_passes(c, f, 0));
            return Err(SettingsError::Fps);
        }
        assert(check_passes(c, f, 0));
        if !checks.sensitivity {
            assert(!check_passes(c, f, 1));
            return Err(SettingsError::Sensitivity);
        }
        assert(check_passes(c, f, 1));
        if !checks.smoothing {
            assert(!check_passes(c, f, 2));
            return Err(SettingsError::Smoothing);
        }
        assert(check_passes(c, f, 2));
        if !checks.frequency {
            assert(!check_passes(c, f, 3));
            return Err(SettingsError::FrequencyRange);
        }
        assert(check_passes(c, f, 3));
        if !checks.floor_db {
            assert(!check_passes(c, f, 4));
            return Err(SettingsError::FloorDb);
        }
        assert(check_passes(c, f, 4));
        if !(1 <= self.bar_width && self.bar_width <= 8) || self.bar_gap > 4 {
            assert(!check_passes(c, f, 5));
            return Err(SettingsError::BarSize);
        }
        assert(check_passes(c, f, 5));
        if !is_theme_name(self.theme.as_str()) {
            assert(!check_passes(c, f, 6));
            return Err(SettingsError::Theme);
        }
        assert(check_passes(c, f, 6));
        if self.gradient.len() < 2 || self.gradient.len() > 16 {
            assert(!check_passes(c, f, 7));
            return Err(SettingsError::GradientLength);
        }
        assert(check_passes(c, f, 7));
        assert(passes_before(c, f, 8));
        match self.first_color_error() {
            Some(e) => {
                proof {
                    crate::seqs::lemma_first_index_found(
                        checked_colors(c),
                        |t: Seq<char>| !color_ok(t),
                    );
                    let i = first_index(checked_colors(c), |t: Seq<char>| !color_ok(t))->0;
                    assert(!color_ok(checked_colors(c)[i]));
                    assert(!check_passes(c, f, 8));
                }
                return Err(SettingsError::Color(e));
            },
            None => {},
        }
        assert(check_passes(c, f, 8));
        let mut i: usize = 0;
        while i < self.apps.len()
            invariant
                i <= self.apps.len(),
                c == *self,
                f == checks,
                passes_before(c, f, 9),
                forall|j: int| 0 <= j < i ==> trim(#[trigger] self.apps@[j]@).len() > 0,
            decreases self.apps.len() - i,
        {
            let t = text::trim_str(self.apps[i].as_str());
            if t.as_str().is_empty() {
                assert(trim(self.apps@[i as int]@).len() == 0);
                assert(!check_passes(c, f, 9));
                return Err(SettingsError::EmptyApp);
            }
            i = i + 1;
        }
        assert(check_passes(c, f, 9));
        assert(passes_before(c, f, 10));
        Ok(())
    }

    /// The error of the first colour, in the order of `checked_colors`, that
    /// `parse_color` refuses.
    fn first_color_error(&self) -> (r: Option<ColorError>)
        requires
            self.gradient.len() <= 16,
        ensures
            ({
                let cs = checked_colors(*self);
                let p = |t: Seq<char>| !color_ok(t);
                match r {
                    None => forall|i: int| 0 <= i < cs.len() ==> color_ok(#[trigger] cs[i]),
                    Some(e) => first_index(cs, p) matches Some(i) && color_error_fits(cs[i], e),
                }
            }),
    {
        let ghost cs = checked_colors(*self);
        let ghost p = |t: Seq<char>| !color_ok(t);
        let n = self.gradient.len();
        let mut i: usize = 0;
        while i < n + 2
            invariant
                n == self.gradient.len(),
                n <= 16,
                cs == checked_colors(*self),
                cs.len() == n + 2,
                p == (|t: Seq<char>| !color_ok(t)),
                i <= n + 2,
                forall|j: int| 0 <= j < i ==> color_ok(#[trigger] cs[j]),
            decreases n + 2 - i,
        {
            let s: &str = if i < n {
                self.gradient[i].as_str()
            } else if i == n {
                self.background.as_str()
            } else {
                self.foreground.as_str()
            };
            assert(s@ == cs[i as int]);
            match parse_color(s) {
                Ok(_) => {},
                Err(e) => {
                    proof {
                        crate::seqs::lemma_first_index(cs, p, i as int);
                    }
                    return Some(e);
                },
            }
            i = i + 1;
        }
        None
    }
}

} // verus!
