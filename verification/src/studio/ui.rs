//! Screen geometry: text truncation, centred rectangles, bar layout and band counts;
//! and the notice shown over the visualization while no audio arrives.
use vstd::prelude::*;
use crate::studio::audio::{Capture, Connection};
use crate::studio::config::{Mode, SpectrogramDirection};
use crate::text;

verus! {

/// A rectangle of terminal cells.
#[derive(Debug, Clone, Copy, PartialEq, Eq, Structural)]
pub struct Rect {
    pub x: u16,
    pub y: u16,
    pub width: u16,
    pub height: u16,
}

/// The horizontal ellipsis that marks a cut.
pub open spec fn ellipsis() -> char {
    '\u{2026}'
}

/// `s` cut to at most `max` characters; a cut is marked with an ellipsis at the end.
pub open spec fn truncated(s: Seq<char>, max: int) -> Seq<char> {
    if s.len() <= max {
        s
    } else if max == 0 {
        Seq::empty()
    } else {
        s.take(max - 1).push(ellipsis())
    }
}

/// `s` cut to at most `max` characters keeping its end; a cut is marked with an ellipsis at
/// the start.
pub open spec fn truncated_left(s: Seq<char>, max: int) -> Seq<char> {
    if s.len() <= max {
        s
    } else if max == 0 {
        Seq::empty()
    } else {
        seq![ellipsis()] + s.skip(s.len() - (max - 1))
    }
}

/// Cuts `s` to at most `max` characters, marking the cut with an ellipsis.
pub fn truncate(s: &str, max: usize) -> (r: String)
    ensures
        r@ == truncated(s@, max as int),
        r@.len() <= max || r@ == s@,
{
    let v = text::chars_of(s);
    if v.len() <= max {
        return text::owned(s);
    }
    if max == 0 {
        return String::new();
    }
    let mut out = text::string_of_range(&v, 0, max - 1);
    out.append("\u{2026}");
    proof {
        reveal_strlit("\u{2026}");
    }
    assert(out@ =~= s@.take(max - 1).push(ellipsis()));
    out
}

/// Like [`truncate`] but keeps the end of the string (useful for paths).
pub fn truncate_left(s: &str, max: usize) -> (r: String)
    ensures
        r@ == truncated_left(s@, max as int),
        r@.len() <= max || r@ == s@,
{
    let v = text::chars_of(s);
    let n = v.len();
    if n <= max {
        return text::owned(s);
    }
    if max == 0 {
        return String::new();
    }
    let tail = text::string_of_range(&v, n - (max - 1), n);
    let out = text::concat("\u{2026}", tail.as_str());
    proof {
        reveal_strlit("\u{2026}");
    }
    assert(out@ =~= seq![ellipsis()] + s@.skip(n - (max - 1)));
    out
}

/// A `w` x `h` rectangle centred in `area`, clamped to it.
pub open spec fn centered_rect(area: Rect, w: int, h: int) -> Rect {
    let w2 = if w < area.width { w } else { area.width as int };
    let h2 = if h < area.height { h } else { area.height as int };
    Rect {
        x: (area.x + (area.width - w2) / 2) as u16,
        y: (area.y + (area.height - h2) / 2) as u16,
        width: w2 as u16,
        height: h2 as u16,
    }
}

/// A `w` x `h` rectangle centred in `area`, clamped to it.
pub fn centered(area: Rect, w: u16, h: u16) -> (r: Rect)
    requires
        area.x + (area.width - (if w < area.width { w } else { area.width })) / 2 <= u16::MAX,
        area.y + (area.height - (if h < area.height { h } else { area.height })) / 2 <= u16::MAX,
    ensures
        r == centered_rect(area, w as int, h as int),
        r.width <= area.width,
        r.height <= area.height,
        area.x <= r.x,
        area.y <= r.y,
        r.x + r.width <= area.x + area.width,
        r.y + r.height <= area.y + area.height,
{
    let w = if w < area.width { w } else { area.width };
    let h = if h < area.height { h } else { area.height };
    Rect {
        x: area.x + (area.width - w) / 2,
        y: area.y + (area.height - h) / 2,
        width: w,
        height: h,
    }
}

/// Placement of the spectrum bars across the width of the screen.
#[derive(Debug, Clone, Copy, PartialEq, Eq, Structural)]
pub struct BarLayout {
    /// Bars drawn on screen (both channels together in stereo).
    pub slots: usize,
    /// Bands the analyser must produce per channel.
    pub per_channel: usize,
    pub bar_w: u16,
    pub gap: u16,
    /// Left margin that centres the bars.
    pub x0: u16,
}

/// Rounds a bar count down to an even number of at least two.
pub open spec fn stereo_slots(slots: int) -> int {
    let s = if slots < 2 { 2 } else { slots };
    s - s % 2
}

/// Bar count, bar width and gap before the narrow-terminal fallback.
pub open spec fn layout_plan(width: int, bars: int, bar_width: int, bar_gap: int, stereo: bool) -> (int, int, int) {
    let bw = if bar_width < 1 { 1 } else { bar_width };
    if bars > 0 {
        let s0 = if bars < width { bars } else { width };
        let s1 = if s0 < 1 { 1 } else { s0 };
        let slots = if stereo { stereo_slots(s1) } else { s1 };
        let gap = if slots * (1 + bar_gap) - bar_gap > width { 0 } else { bar_gap };
        let q = (width + gap) / slots - gap;
        let bar_w = if q < 1 { 1 } else { q };
        (slots, bar_w, gap)
    } else {
        let s0 = (width + bar_gap) / (bw + bar_gap);
        let s1 = if s0 < 1 { 1 } else { s0 };
        let slots = if stereo { stereo_slots(s1) } else { s1 };
        (slots, bw, bar_gap)
    }
}

/// The bar layout for a screen `width` cells wide. `bars` is the configured bar count
/// (0 fits as many bars of `bar_width` cells as the width allows), `bar_gap` the gap.
pub open spec fn bar_layout(width: int, bars: int, bar_width: int, bar_gap: int, stereo: bool) -> BarLayout {
    let w = if width < 1 { 1 } else { width };
    let (slots, bar_w, gap) = layout_plan(w, bars, bar_width, bar_gap, stereo);
    let used = slots * bar_w + (slots - 1) * gap;
    let (bar_w2, gap2, used2) = if used > w { (1, 0, slots) } else { (bar_w, gap, used) };
    BarLayout {
        slots: slots as usize,
        per_channel: (if stereo { slots / 2 } else { slots }) as usize,
        bar_w: bar_w2 as u16,
        gap: gap2 as u16,
        x0: ((if w > used2 { w - used2 } else { 0 }) / 2) as u16,
    }
}

/// With an automatic bar count and room for the configured bars, the layout keeps the
/// configured bar width (at least one cell) and gap and shows as many bars as fit: in
/// mono the count fits and one more bar would not; in stereo the count is even, fits,
/// and two more bars would not.
pub proof fn lemma_auto_bar_count(width: int, bar_width: int, bar_gap: int, stereo: bool)
    requires
        1 <= width <= 65535,
        0 <= bar_width <= 65535,
        0 <= bar_gap <= 65535,
        (if bar_width < 1 { 1 } else { bar_width }) * (if stereo { 2int } else { 1int }) + (if stereo { bar_gap } else { 0 }) <= width,
    ensures
        ({
            let l = bar_layout(width, 0, bar_width, bar_gap, stereo);
            let bw = if bar_width < 1 { 1 } else { bar_width };
            let n = l.slots as int;
            let step = if stereo { 2int } else { 1int };
            &&& l.bar_w as int == bw
            &&& l.gap as int == bar_gap
            &&& n >= step
            &&& stereo ==> n % 2 == 0
            &&& n * bw + (n - 1) * bar_gap <= width
            &&& (n + step) * bw + (n + step - 1) * bar_gap > width
        }),
{
    let bw = if bar_width < 1 { 1 } else { bar_width };
    let d = bw + bar_gap;
    let s0 = (width + bar_gap) / d;
    vstd::arithmetic::div_mod::lemma_fundamental_div_mod(width + bar_gap, d);
    let m = (width + bar_gap) % d;
    assert(width + bar_gap == d * s0 + m && 0 <= m < d);
    assert(s0 >= if stereo { 2int } else { 1int }) by (nonlinear_arith)
        requires
            width + bar_gap == d * s0 + m,
            0 <= m < d,
            d == bw + bar_gap,
            bw >= 1,
            bar_gap >= 0,
            bw * (if stereo { 2int } else { 1int }) + (if stereo { bar_gap } else { 0 }) <= width,
    ;
    let n = if stereo { s0 - s0 % 2 } else { s0 };
    let step = if stereo { 2int } else { 1int };
    assert(1 <= n <= s0 && n + step >= s0 + 1);
    assert(n * d <= s0 * d) by (nonlinear_arith)
        requires
            n <= s0,
            d >= 1,
    ;
    assert((n + step) * d >= (s0 + 1) * d) by (nonlinear_arith)
        requires
            n + step >= s0 + 1,
            d >= 1,
    ;
    assert(n * bw + (n - 1) * bar_gap == n * d - bar_gap) by (nonlinear_arith)
        requires
            d == bw + bar_gap,
    ;
    assert((n + step) * bw + (n + step - 1) * bar_gap == (n + step) * d - bar_gap) by (nonlinear_arith)
        requires
            d == bw + bar_gap,
    ;
    assert((s0 + 1) * d == s0 * d + d) by (nonlinear_arith);
    assert(d * s0 == s0 * d) by (nonlinear_arith);
    assert(s0 <= width) by (nonlinear_arith)
        requires
            width + bar_gap == d * s0 + m,
            0 <= m,
            d == bw + bar_gap,
            bw >= 1,
            bar_gap >= 0,
            s0 >= 1,
    ;
    assert(n * bw <= 131070 * 65535) by (nonlinear_arith)
        requires
            n * bw + (n - 1) * bar_gap <= width,
            width <= 65535,
            n >= 1,
            bar_gap >= 0,
            bw >= 1,
    ;
}

/// With a configured bar count in mono, the layout shows that many bars, or one per
/// column when the screen is narrower.
pub proof fn lemma_fixed_bar_count(width: int, bars: int, bar_width: int, bar_gap: int)
    requires
        1 <= width <= 65535,
        bars > 0,
        0 <= bar_width <= 65535,
        0 <= bar_gap <= 65535,
    ensures
        bar_layout(width, bars, bar_width, bar_gap, false).slots as int == (if bars < width {
            bars
        } else {
            width
        }),
{
}

proof fn lemma_div_le(a: int, b: int)
    requires
        a >= 0,
        b >= 1,
    ensures
        a / b <= a,
        a / b >= 0,
        (a / b) * b <= a,
{
    assert((a / b) * b <= a) by (nonlinear_arith)
        requires
            a >= 0,
            b >= 1,
    ;
    assert(a / b <= a) by (nonlinear_arith)
        requires
            a >= 0,
            b >= 1,
    ;
}

proof fn lemma_mul_bound(a: int, b: int, c: int, d: int)
    requires
        0 <= a <= c,
        0 <= b <= d,
    ensures
        0 <= a * b <= c * d,
{
    assert(0 <= a * b <= c * d) by (nonlinear_arith)
        requires
            0 <= a <= c,
            0 <= b <= d,
    ;
}

/// Bar count, bar width and gap before the narrow-terminal fallback.
fn plan(w: u64, bars: usize, bar_width: u16, bar_gap: u16, stereo: bool) -> (r: (u64, u64, u64))
    requires
        1 <= w <= 65535,
    ensures
        (r.0 as int, r.1 as int, r.2 as int) == layout_plan(w as int, bars as int, bar_width as int, bar_gap as int, stereo),
        1 <= r.0 <= 131070,
        1 <= r.1 <= 131070,
        r.2 <= 65535,
{
    let g0: u64 = bar_gap as u64;
    let bw0: u64 = if bar_width < 1 { 1 } else { bar_width as u64 };
    if bars > 0 {
        let s0: u64 = if (bars as u64) < w { bars as u64 } else { w };
        let mut slots: u64 = if s0 < 1 { 1 } else { s0 };
        if stereo {
            if slots < 2 {
                slots = 2;
            }
            slots = slots - slots % 2;
        }
        proof {
            lemma_mul_bound(slots as int, (1 + g0) as int, 65535, 65536);
            lemma_mul_bound(1, (1 + g0) as int, slots as int, (1 + g0) as int);
        }
        let gap: u64 = if slots * (1 + g0) - g0 > w { 0 } else { g0 };
        let q: u64 = (w + gap) / slots;
        proof {
            lemma_div_le((w + gap) as int, slots as int);
        }
        let q2: u64 = if q >= gap { q - gap } else { 0 };
        let bar_w: u64 = if q2 < 1 { 1 } else { q2 };
        (slots, bar_w, gap)
    } else {
        let s0: u64 = (w + g0) / (bw0 + g0);
        proof {
            lemma_div_le((w + g0) as int, (bw0 + g0) as int);
        }
        let mut slots: u64 = if s0 < 1 { 1 } else { s0 };
        if stereo {
            if slots < 2 {
                slots = 2;
            }
            slots = slots - slots % 2;
        }
        (slots, bw0, g0)
    }
}

/// Lays out the spectrum bars for a screen `width` cells wide.
#[verifier::rlimit(40)]
pub fn layout(width: u16, bars: usize, bar_width: u16, bar_gap: u16, stereo: bool) -> (l: BarLayout)
    ensures
        l == bar_layout(width as int, bars as int, bar_width as int, bar_gap as int, stereo),
        l.slots >= 1,
        l.bar_w >= 1,
        l.slots * l.bar_w + (l.slots - 1) * l.gap <= (if width < 2 { 2 } else { width as int }),
        2 * l.x0 + l.slots * l.bar_w + (l.slots - 1) * l.gap <= (if width < 2 { 2 } else { width as int }),
        stereo ==> l.slots % 2 == 0 && l.per_channel * 2 == l.slots,
        !stereo ==> l.per_channel == l.slots,
{
    let w: u64 = if width < 1 { 1 } else { width as u64 };
    let (slots, bw, g) = plan(w, bars, bar_width, bar_gap, stereo);
    proof {
        lemma_mul_bound(slots as int, bw as int, 131070, 131070);
        lemma_mul_bound((slots - 1) as int, g as int, 131070, 65535);
        lemma_layout_fits(w as int, bars as int, bar_width as int, bar_gap as int, stereo);
    }
    let mut gap = g;
    let mut bar_w = bw;
    let mut used: u64 = slots * bw + (slots - 1) * g;
    if used > w {
        gap = 0;
        bar_w = 1;
        used = slots;
    } else {
        proof {
            lemma_mul_bound(1, bw as int, slots as int, bw as int);
        }
    }
    assert(bar_w <= 65535);
    assert(used == slots * bar_w + (slots - 1) * gap);
    assert(used <= (if w < 2 { 2 } else { w as int }));
    let x0: u64 = (if w > used { w - used } else { 0 }) / 2;
    assert(2 * x0 + used <= (if w < 2 { 2 } else { w as int }));
    BarLayout {
        slots: slots as usize,
        per_channel: (if stereo { slots / 2 } else { slots }) as usize,
        bar_w: bar_w as u16,
        gap: gap as u16,
        x0: x0 as u16,
    }
}

/// The planned bar count is at least one, at most the width (or two for stereo), even in
/// stereo, and the planned bar width is at most the width.
proof fn lemma_layout_fits(w: int, bars: int, bar_width: int, bar_gap: int, stereo: bool)
    requires
        1 <= w <= 65535,
        bars >= 0,
        0 <= bar_width <= 65535,
        0 <= bar_gap <= 65535,
    ensures
        ({
            let (slots, bar_w, gap) = layout_plan(w, bars, bar_width, bar_gap, stereo);
            &&& 1 <= slots
            &&& slots <= (if w < 2 { 2 } else { w })
            &&& stereo ==> slots % 2 == 0
            &&& 1 <= bar_w <= 65535
            &&& 0 <= gap <= 65535
            &&& (slots * bar_w + (slots - 1) * gap > w ==> slots <= (if w < 2 { 2 } else { w }))
        }),
{
    let bw = if bar_width < 1 { 1 } else { bar_width };
    if bars > 0 {
        let s0 = if bars < w { bars } else { w };
        let s1 = if s0 < 1 { 1 } else { s0 };
        let slots = if stereo { stereo_slots(s1) } else { s1 };
        let gap = if slots * (1 + bar_gap) - bar_gap > w { 0 } else { bar_gap };
        lemma_div_le(w + gap, slots);
    } else {
        lemma_div_le(w + bar_gap, bw + bar_gap);
        let s0 = (w + bar_gap) / (bw + bar_gap);
        assert(s0 <= w) by {
            assert(s0 * (bw + bar_gap) <= w + bar_gap);
            assert(s0 * (bw + bar_gap) >= s0 * 1 + s0 * bar_gap) by (nonlinear_arith)
                requires
                    s0 >= 0,
                    bw >= 1,
                    bar_gap >= 0,
            ;
            assert(s0 * bar_gap >= bar_gap || s0 == 0) by (nonlinear_arith)
                requires
                    s0 >= 0,
                    bar_gap >= 0,
            ;
        }
    }
}

/// Bands per channel for a given area, when not fixed by the configuration.
pub open spec fn auto_band_count(width: int, height: int, stereo: bool) -> int {
    let a = width * 2;
    let b = height * 4;
    let m0 = if a < b { a } else { b };
    let m = if m0 < 8 { 8 } else { m0 };
    let t0 = m / 2;
    let total = if t0 < 16 { 16 } else if t0 > 96 { 96 } else { t0 };
    if stereo {
        if total / 2 < 8 { 8 } else { total / 2 }
    } else {
        total
    }
}

/// Bands per channel for a given area, when not fixed by the configuration.
pub fn auto_bands(area: Rect, stereo: bool) -> (r: usize)
    ensures
        r == auto_band_count(area.width as int, area.height as int, stereo),
        8 <= r <= 96,
{
    let a: usize = area.width as usize * 2;
    let b: usize = area.height as usize * 4;
    let m0 = if a < b { a } else { b };
    let m = if m0 < 8 { 8 } else { m0 };
    let t0 = m / 2;
    let total = if t0 < 16 { 16 } else if t0 > 96 { 96 } else { t0 };
    if stereo {
        if total / 2 < 8 { 8 } else { total / 2 }
    } else {
        total
    }
}

/// What the current display needs from the analyser this frame.
#[derive(Clone, Copy, Debug, PartialEq, Eq, Structural)]
pub struct Request {
    /// Bands per channel.
    pub bars: usize,
    pub stereo: bool,
    /// Frequency resolution of one spectrogram row.
    pub spectro_bins: usize,
    /// Rows of history to keep.
    pub spectro_rows: usize,
}

/// What a display mode needs from the analyser for the visual area `area`.
pub open spec fn analysis_request(
    mode: Mode,
    area: Rect,
    stereo: bool,
    bars: int,
    bar_width: int,
    bar_gap: int,
    radial_bars: int,
    direction: SpectrogramDirection,
) -> Request {
    match mode {
        Mode::Bars | Mode::Mirror => Request {
            bars: bar_layout(area.width as int, bars, bar_width, bar_gap, stereo).per_channel,
            stereo,
            spectro_bins: 0,
            spectro_rows: 0,
        },
        Mode::Radial => Request {
            bars: (if radial_bars > 0 {
                if stereo {
                    if radial_bars / 2 < 2 { 2 } else { radial_bars / 2 }
                } else {
                    radial_bars
                }
            } else {
                auto_band_count(area.width as int, area.height as int, stereo)
            }) as usize,
            stereo,
            spectro_bins: 0,
            spectro_rows: 0,
        },
        Mode::Spectrogram => match direction {
            SpectrogramDirection::Left => Request {
                bars: 16,
                stereo: false,
                spectro_bins: (area.height * 2) as usize,
                spectro_rows: area.width as usize,
            },
            _ => Request {
                bars: 16,
                stereo: false,
                spectro_bins: area.width as usize,
                spectro_rows: (area.height * 2) as usize,
            },
        },
        _ => Request { bars: 16, stereo: false, spectro_bins: 0, spectro_rows: 0 },
    }
}

/// What the display in `mode` needs from the analyser for the visual area `area`.
pub fn request(
    mode: Mode,
    area: Rect,
    stereo: bool,
    bars: usize,
    bar_width: u16,
    bar_gap: u16,
    radial_bars: usize,
    direction: SpectrogramDirection,
) -> (r: Request)
    ensures
        r == analysis_request(
            mode,
            area,
            stereo,
            bars as int,
            bar_width as int,
            bar_gap as int,
            radial_bars as int,
            direction,
        ),
{
    match mode {
        Mode::Bars | Mode::Mirror => {
            let lay = layout(area.width, bars, bar_width, bar_gap, stereo);
            Request { bars: lay.per_channel, stereo, spectro_bins: 0, spectro_rows: 0 }
        },
        Mode::Radial => {
            let n = if radial_bars > 0 {
                if stereo {
                    if radial_bars / 2 < 2 { 2 } else { radial_bars / 2 }
                } else {
                    radial_bars
                }
            } else {
                auto_bands(area, stereo)
            };
            Request { bars: n, stereo, spectro_bins: 0, spectro_rows: 0 }
        },
        Mode::Spectrogram => match direction {
            SpectrogramDirection::Left => Request {
                bars: 16,
                stereo: false,
                spectro_bins: area.height as usize * 2,
                spectro_rows: area.width as usize,
            },
            _ => Request {
                bars: 16,
                stereo: false,
                spectro_bins: area.width as usize,
                spectro_rows: area.height as usize * 2,
            },
        },
        _ => Request { bars: 16, stereo: false, spectro_bins: 0, spectro_rows: 0 },
    }
}

/// First list row shown in a window of `rows` rows so that row `selected` is visible.
pub fn first_visible(selected: usize, rows: usize) -> (r: usize)
    requires
        selected < usize::MAX,
    ensures
        r == (if selected >= rows { selected + 1 - rows } else { 0 }),
        rows > 0 ==> r <= selected < r + rows,
{
    if selected >= rows {
        selected + 1 - rows
    } else {
        0
    }
}

/// How a status text is coloured: as an error, a warning, plain text or dimmed.
#[derive(Debug, Clone, Copy, PartialEq, Eq, Structural)]
pub enum NoticeLevel {
    Error,
    Warning,
    Normal,
    Quiet,
}

/// The notice for a server connection and capture state: a failed or pending
/// connection comes first; an idle capture shows none.
pub open spec fn notice_for(conn: Connection, cap: Capture) -> Option<(Seq<char>, NoticeLevel)> {
    match conn {
        Connection::Failed(e) => Some(("Cannot reach the audio server: "@ + e@, NoticeLevel::Error)),
        Connection::Connecting => Some(("Connecting to the audio server\u{2026}"@, NoticeLevel::Warning)),
        Connection::Ready => match cap {
            Capture::Waiting(m) => Some((m@, NoticeLevel::Warning)),
            Capture::Error(e) => Some((e@, NoticeLevel::Error)),
            Capture::Connecting(l) => Some(("Opening "@ + l@ + "\u{2026}"@, NoticeLevel::Warning)),
            Capture::Streaming(_) => Some(("Waiting for audio\u{2026}"@, NoticeLevel::Quiet)),
            Capture::Idle => None,
        },
    }
}

/// The text and colour of the notice over the visualization, if any.
pub fn capture_notice_text(conn: &Connection, cap: &Capture) -> (r: Option<(String, NoticeLevel)>)
    ensures
        r matches Some(n) ==> notice_for(*conn, *cap) == Some((n.0@, n.1)),
        r is None <==> notice_for(*conn, *cap) is None,
{
    match conn {
        Connection::Failed(e) => Some((text::concat("Cannot reach the audio server: ", e.as_str()), NoticeLevel::Error)),
        Connection::Connecting => Some((text::owned("Connecting to the audio server\u{2026}"), NoticeLevel::Warning)),
        Connection::Ready => match cap {
            Capture::Waiting(m) => Some((m.clone(), NoticeLevel::Warning)),
            Capture::Error(e) => Some((e.clone(), NoticeLevel::Error)),
            Capture::Connecting(l) => Some((text::concat3("Opening ", l.as_str(), "\u{2026}"), NoticeLevel::Warning)),
            Capture::Streaming(_) => Some((text::owned("Waiting for audio\u{2026}"), NoticeLevel::Quiet)),
            Capture::Idle => None,
        },
    }
}

/// What the status bar says of the source for a connection and capture state.
pub open spec fn status_source_for(conn: Connection, cap: Capture) -> (Seq<char>, NoticeLevel) {
    match conn {
        Connection::Failed(e) => ("audio server: "@ + e@, NoticeLevel::Error),
        Connection::Connecting => ("connecting to audio server\u{2026}"@, NoticeLevel::Warning),
        Connection::Ready => match cap {
            Capture::Streaming(l) => (l@, NoticeLevel::Normal),
            Capture::Connecting(l) => (l@ + " (connecting)"@, NoticeLevel::Warning),
            Capture::Waiting(m) => (m@, NoticeLevel::Warning),
            Capture::Error(e) => (e@, NoticeLevel::Error),
            Capture::Idle => ("no capture"@, NoticeLevel::Quiet),
        },
    }
}

/// The source part of the status bar and how it is coloured.
pub fn status_source_text(conn: &Connection, cap: &Capture) -> (r: (String, NoticeLevel))
    ensures
        (r.0@, r.1) == status_source_for(*conn, *cap),
{
    match conn {
        Connection::Failed(e) => (text::concat("audio server: ", e.as_str()), NoticeLevel::Error),
        Connection::Connecting => (text::owned("connecting to audio server\u{2026}"), NoticeLevel::Warning),
        Connection::Ready => match cap {
            Capture::Streaming(l) => (l.clone(), NoticeLevel::Normal),
            Capture::Connecting(l) => (text::concat(l.as_str(), " (connecting)"), NoticeLevel::Warning),
            Capture::Waiting(m) => (m.clone(), NoticeLevel::Warning),
            Capture::Error(e) => (e.clone(), NoticeLevel::Error),
            Capture::Idle => (text::owned("no capture"), NoticeLevel::Quiet),
        },
    }
}

} // verus!
