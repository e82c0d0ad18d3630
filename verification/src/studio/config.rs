//! Configuration model: modes and the other enumerated settings, audio and colour sections,
//! quality presets and validation.
use vstd::prelude::*;
use crate::text;

verus! {

/// Visualization modes. The order here is the order of the `Tab` key and the digit keys.
#[derive(Debug, Clone, Copy, PartialEq, Eq, Structural)]
pub enum Mode {
    Bars,
    Mirror,
    Wave,
    Vu,
    Spectrogram,
    Lissajous,
    Radial,
}

/// Number of visualization modes.
pub const MODE_COUNT: usize = 7;

/// Position of `m` in the mode order.
pub open spec fn mode_index(m: Mode) -> int {
    match m {
        Mode::Bars => 0,
        Mode::Mirror => 1,
        Mode::Wave => 2,
        Mode::Vu => 3,
        Mode::Spectrogram => 4,
        Mode::Lissajous => 5,
        Mode::Radial => 6,
    }
}

/// The mode at position `i` of the mode order (`0 <= i < 7`).
pub open spec fn mode_at(i: int) -> Mode {
    if i == 0 {
        Mode::Bars
    } else if i == 1 {
        Mode::Mirror
    } else if i == 2 {
        Mode::Wave
    } else if i == 3 {
        Mode::Vu
    } else if i == 4 {
        Mode::Spectrogram
    } else if i == 5 {
        Mode::Lissajous
    } else {
        Mode::Radial
    }
}

pub open spec fn mode_title(m: Mode) -> Seq<char> {
    match m {
        Mode::Bars => "Spectrum bars"@,
        Mode::Mirror => "Mirrored spectrum"@,
        Mode::Wave => "Oscilloscope"@,
        Mode::Vu => "VU meters"@,
        Mode::Spectrogram => "Spectrogram"@,
        Mode::Lissajous => "Vectorscope"@,
        Mode::Radial => "Radial spectrum"@,
    }
}

impl Mode {
    /// All modes in order.
    pub fn all() -> (r: [Mode; 7])
        ensures
            forall|i: int| 0 <= i < 7 ==> r[i] == mode_at(i),
    {
        [
            Mode::Bars,
            Mode::Mirror,
            Mode::Wave,
            Mode::Vu,
            Mode::Spectrogram,
            Mode::Lissajous,
            Mode::Radial,
        ]
    }

    pub fn title(self) -> (r: &'static str)
        ensures
            r@ == mode_title(self),
    {
        match self {
            Mode::Bars => "Spectrum bars",
            Mode::Mirror => "Mirrored spectrum",
            Mode::Wave => "Oscilloscope",
            Mode::Vu => "VU meters",
            Mode::Spectrogram => "Spectrogram",
            Mode::Lissajous => "Vectorscope",
            Mode::Radial => "Radial spectrum",
        }
    }

    pub fn index(self) -> (r: usize)
        ensures
            r == mode_index(self),
    {
        match self {
            Mode::Bars => 0,
            Mode::Mirror => 1,
            Mode::Wave => 2,
            Mode::Vu => 3,
            Mode::Spectrogram => 4,
            Mode::Lissajous => 5,
            Mode::Radial => 6,
        }
    }

    pub fn next(self) -> (r: Mode)
        ensures
            r == next_mode(self),
    {
        Mode::all()[(self.index() + 1) % MODE_COUNT]
    }

    pub fn prev(self) -> (r: Mode)
        ensures
            r == prev_mode(self),
    {
        Mode::all()[(self.index() + MODE_COUNT - 1) % MODE_COUNT]
    }

    /// The mode bound to digit key `d` (`1` is the first mode).
    pub fn from_digit(d: u32) -> (r: Option<Mode>)
        ensures
            r == (if 1 <= d <= 7 { Some(mode_at(d - 1)) } else { None::<Mode> }),
    {
        if d == 0 || d > 7 {
            None
        } else {
            Some(Mode::all()[(d - 1) as usize])
        }
    }
}

/// The mode after `m`; the last mode is followed by the first.
pub open spec fn next_mode(m: Mode) -> Mode {
    mode_at((mode_index(m) + 1) % 7)
}

/// The mode before `m`; the first mode is preceded by the last.
pub open spec fn prev_mode(m: Mode) -> Mode {
    mode_at((mode_index(m) + 6) % 7)
}

/// Stepping forwards then backwards through the modes, or the other way round, returns to
/// the starting mode; positions and modes correspond one to one; the digit key one more
/// than a mode's position selects that mode.
pub proof fn lemma_mode_cycle(m: Mode)
    ensures
        prev_mode(next_mode(m)) == m,
        next_mode(prev_mode(m)) == m,
        0 <= mode_index(m) < 7,
        mode_at(mode_index(m)) == m,
        forall|i: int| 0 <= i < 7 ==> mode_index(#[trigger] mode_at(i)) == i,
        mode_index(next_mode(m)) == (mode_index(m) + 1) % 7,
{
}

/// Seven steps forwards through the modes come back to the start.
pub proof fn lemma_mode_orbit(m: Mode)
    ensures
        next_mode(next_mode(next_mode(next_mode(next_mode(next_mode(next_mode(m))))))) == m,
{
}

#[derive(Debug, Clone, Copy, PartialEq, Eq, Structural)]
pub enum Channels {
    Mono,
    Stereo,
}

#[derive(Debug, Clone, Copy, PartialEq, Eq, Structural)]
pub enum WaveStyle {
    Line,
    Filled,
    Dots,
}

impl WaveStyle {
    pub fn next(self) -> (r: Self)
        ensures
            r == next_wave_style(self),
    {
        match self {
            WaveStyle::Line => WaveStyle::Filled,
            WaveStyle::Filled => WaveStyle::Dots,
            WaveStyle::Dots => WaveStyle::Line,
        }
    }
}

#[derive(Debug, Clone, Copy, PartialEq, Eq, Structural)]
pub enum SpectrogramDirection {
    Up,
    Down,
    Left,
}

impl SpectrogramDirection {
    pub fn next(self) -> (r: Self)
        ensures
            r == next_direction(self),
    {
        match self {
            SpectrogramDirection::Up => SpectrogramDirection::Down,
            SpectrogramDirection::Down => SpectrogramDirection::Left,
            SpectrogramDirection::Left => SpectrogramDirection::Up,
        }
    }
}

#[derive(Debug, Clone, Copy, PartialEq, Eq, Structural)]
pub enum MarkerKind {
    Braille,
    Octant,
    HalfBlock,
    Block,
    Dot,
}

#[derive(Debug, Clone, Copy, PartialEq, Eq, Structural)]
pub enum Scale {
    Log,
    Linear,
    Sqrt,
}

impl Scale {
    pub fn next(self) -> (r: Self)
        ensures
            r == next_scale(self),
    {
        match self {
            Scale::Log => Scale::Sqrt,
            Scale::Sqrt => Scale::Linear,
            Scale::Linear => Scale::Log,
        }
    }
}

#[derive(Debug, Clone, Copy, PartialEq, Eq, Structural)]
pub enum BandMode {
    Peak,
    Average,
}

#[derive(Debug, Clone, Copy, PartialEq, Eq, Structural)]
pub enum GradientDirection {
    Vertical,
    Horizontal,
    Level,
    Solid,
}

impl GradientDirection {
    pub fn next(self) -> (r: Self)
        ensures
            r == next_gradient(self),
    {
        match self {
            GradientDirection::Vertical => GradientDirection::Horizontal,
            GradientDirection::Horizontal => GradientDirection::Level,
            GradientDirection::Level => GradientDirection::Solid,
            GradientDirection::Solid => GradientDirection::Vertical,
        }
    }
}

/// Successor of an oscilloscope style.
pub open spec fn next_wave_style(w: WaveStyle) -> WaveStyle {
    match w {
        WaveStyle::Line => WaveStyle::Filled,
        WaveStyle::Filled => WaveStyle::Dots,
        WaveStyle::Dots => WaveStyle::Line,
    }
}

/// Successor of a spectrogram direction.
pub open spec fn next_direction(d: SpectrogramDirection) -> SpectrogramDirection {
    match d {
        SpectrogramDirection::Up => SpectrogramDirection::Down,
        SpectrogramDirection::Down => SpectrogramDirection::Left,
        SpectrogramDirection::Left => SpectrogramDirection::Up,
    }
}

/// Successor of a bar scale.
pub open spec fn next_scale(s: Scale) -> Scale {
    match s {
        Scale::Log => Scale::Sqrt,
        Scale::Sqrt => Scale::Linear,
        Scale::Linear => Scale::Log,
    }
}

/// Successor of a gradient direction.
pub open spec fn next_gradient(g: GradientDirection) -> GradientDirection {
    match g {
        GradientDirection::Vertical => GradientDirection::Horizontal,
        GradientDirection::Horizontal => GradientDirection::Level,
        GradientDirection::Level => GradientDirection::Solid,
        GradientDirection::Solid => GradientDirection::Vertical,
    }
}

/// Cycling the oscilloscope style, the spectrogram direction or the bar scale three times,
/// or the gradient direction four times, gives back the starting setting, and every
/// setting is visited on the way.
pub proof fn lemma_setting_cycles(
    w: WaveStyle,
    d: SpectrogramDirection,
    s: Scale,
    g: GradientDirection,
)
    ensures
        next_wave_style(next_wave_style(next_wave_style(w))) == w,
        next_wave_style(w) != w && next_wave_style(next_wave_style(w)) != w,
        next_direction(next_direction(next_direction(d))) == d,
        next_direction(d) != d && next_direction(next_direction(d)) != d,
        next_scale(next_scale(next_scale(s))) == s,
        next_scale(s) != s && next_scale(next_scale(s)) != s,
        next_gradient(next_gradient(next_gradient(next_gradient(g)))) == g,
        next_gradient(g) != g && next_gradient(next_gradient(g)) != g,
        next_gradient(next_gradient(next_gradient(g))) != g,
{
}

/// Coarse quality presets exposed on the command line.
#[derive(Debug, Clone, Copy, PartialEq, Eq, Structural)]
pub enum Quality {
    Low,
    Medium,
    High,
    Ultra,
}

/// The `[audio]` section.
#[derive(Debug, Clone)]
pub struct AudioConfig {
    pub source: String,
    pub sample_rate: u32,
    pub buffer_ms: u32,
    pub server: String,
}

impl Default for AudioConfig {
    fn default() -> (r: Self)
        ensures
            r.source@ == "all"@,
            r.sample_rate == 44100,
            r.buffer_ms == 10,
            r.server@ == Seq::<char>::empty(),
    {
        AudioConfig {
            source: text::owned("all"),
            sample_rate: 44100,
            buffer_ms: 10,
            server: String::new(),
        }
    }
}

/// The `[colors]` section.
#[derive(Debug, Clone)]
pub struct ColorConfig {
    pub theme: String,
    pub gradient: Vec<String>,
    pub direction: GradientDirection,
    pub background: String,
    pub peak: String,
    pub text: String,
    pub accent: String,
}

impl Default for ColorConfig {
    fn default() -> (r: Self)
        ensures
            r.theme@ == "spectrum"@,
            r.gradient@.len() == 3,
            r.gradient@[0]@ == "#00e5ff"@,
            r.gradient@[1]@ == "#7c4dff"@,
            r.gradient@[2]@ == "#ff4081"@,
            r.direction == GradientDirection::Vertical,
            r.background@ == "default"@,
            r.peak@ == "#ffffff"@,
            r.text@ == "#c8c8c8"@,
            r.accent@ == "#7c4dff"@,
    {
        let mut gradient: Vec<String> = Vec::new();
        gradient.push(text::owned("#00e5ff"));
        gradient.push(text::owned("#7c4dff"));
        gradient.push(text::owned("#ff4081"));
        ColorConfig {
            theme: text::owned("spectrum"),
            gradient,
            direction: GradientDirection::Vertical,
            background: text::owned("default"),
            peak: text::owned("#ffffff"),
            text: text::owned("#c8c8c8"),
            accent: text::owned("#7c4dff"),
        }
    }
}

/// The settings that a quality preset changes: FFT size and bar width (`[analysis]`),
/// frame rate (`[display]`) and capture fragment length (`[audio]`).
#[derive(Debug, Clone, Copy, PartialEq, Eq)]
pub struct QualitySettings {
    pub fft_size: usize,
    pub fps: u32,
    pub bar_width: u16,
    pub buffer_ms: u32,
}

/// The settings after preset `q` is applied to `s`. Only `Low` and `Ultra` change the bar
/// width.
pub open spec fn with_quality(s: QualitySettings, q: Quality) -> QualitySettings {
    match q {
        Quality::Low => QualitySettings { fft_size: 1024, fps: 30, bar_width: 3, buffer_ms: 20 },
        Quality::Medium => QualitySettings { fft_size: 2048, fps: 45, buffer_ms: 15, ..s },
        Quality::High => QualitySettings { fft_size: 4096, fps: 60, buffer_ms: 10, ..s },
        Quality::Ultra => QualitySettings { fft_size: 8192, fps: 120, bar_width: 1, buffer_ms: 5 },
    }
}

impl QualitySettings {
    pub fn apply_quality(&mut self, q: Quality)
        ensures
            *final(self) == with_quality(*old(self), q),
    {
        match q {
            Quality::Low => {
                self.fft_size = 1024;
                self.fps = 30;
                self.bar_width = 3;
                self.buffer_ms = 20;
            },
            Quality::Medium => {
                self.fft_size = 2048;
                self.fps = 45;
                self.buffer_ms = 15;
            },
            Quality::High => {
                self.fft_size = 4096;
                self.fps = 60;
                self.buffer_ms = 10;
            },
            Quality::Ultra => {
                self.fft_size = 8192;
                self.fps = 120;
                self.bar_width = 1;
                self.buffer_ms = 5;
            },
        }
    }
}

/// Applying a quality preset twice is the same as applying it once, and applying one preset
/// after another leaves the FFT size, frame rate and fragment length of the second.
pub proof fn lemma_quality_idempotent(s: QualitySettings, p: Quality, q: Quality)
    ensures
        with_quality(with_quality(s, q), q) == with_quality(s, q),
        with_quality(with_quality(s, p), q).fft_size == with_quality(s, q).fft_size,
        with_quality(with_quality(s, p), q).fps == with_quality(s, q).fps,
        with_quality(with_quality(s, p), q).buffer_ms == with_quality(s, q).buffer_ms,
        with_quality(s, q).fft_size >= 256 && with_quality(s, q).fft_size <= 32768,
        10 <= with_quality(s, q).fps <= 240,
{
}

/// A configuration value that is out of range.
#[derive(Debug, Clone, Copy, PartialEq, Eq, Structural)]
pub enum ConfigError {
    FftSize,
    FrequencyRange,
    BarWidth,
    Fps,
    SampleRate,
    DynamicRange,
}

impl ConfigError {
    pub fn message(self) -> (r: &'static str)
        ensures
            r@ == match self {
                ConfigError::FftSize => "analysis.fft_size must be a power of two between 256 and 32768"@,
                ConfigError::FrequencyRange => "analysis.freq_min/freq_max are inconsistent"@,
                ConfigError::BarWidth => "analysis.bar_width must be at least 1"@,
                ConfigError::Fps => "display.fps must be between 10 and 240"@,
                ConfigError::SampleRate => "audio.sample_rate must be between 8000 and 192000"@,
                ConfigError::DynamicRange => "sensitivity.dynamic_range_db must be positive"@,
            },
    {
        match self {
            ConfigError::FftSize => "analysis.fft_size must be a power of two between 256 and 32768",
            ConfigError::FrequencyRange => "analysis.freq_min/freq_max are inconsistent",
            ConfigError::BarWidth => "analysis.bar_width must be at least 1",
            ConfigError::Fps => "display.fps must be between 10 and 240",
            ConfigError::SampleRate => "audio.sample_rate must be between 8000 and 192000",
            ConfigError::DynamicRange => "sensitivity.dynamic_range_db must be positive",
        }
    }
}

/// `n` is a power of two.
pub open spec fn is_pow2(n: int) -> bool
    decreases n,
{
    if n <= 0 {
        false
    } else if n == 1 {
        true
    } else {
        n % 2 == 0 && is_pow2(n / 2)
    }
}

/// Whether `n` is a power of two (`usize::is_power_of_two`).
pub fn is_power_of_two(n: usize) -> (r: bool)
    ensures
        r == is_pow2(n as int),
{
    let mut m = n;
    while m > 1
        invariant
            m >= 0,
            is_pow2(n as int) == is_pow2(m as int),
        decreases m,
    {
        if m % 2 != 0 {
            return false;
        }
        m = m / 2;
    }
    m == 1
}

/// The first failing check of a configuration, in the order in which they are made.
/// `freq_ok` is `freq_min >= 1 && freq_min < freq_max` and `range_ok` is
/// `dynamic_range_db > 1`, both computed on the floating-point settings.
pub open spec fn first_config_error(
    fft_size: int,
    freq_ok: bool,
    bar_width: int,
    fps: int,
    sample_rate: int,
    range_ok: bool,
) -> Option<ConfigError> {
    if !(is_pow2(fft_size) && 256 <= fft_size <= 32768) {
        Some(ConfigError::FftSize)
    } else if !freq_ok {
        Some(ConfigError::FrequencyRange)
    } else if bar_width < 1 {
        Some(ConfigError::BarWidth)
    } else if !(10 <= fps <= 240) {
        Some(ConfigError::Fps)
    } else if !(8000 <= sample_rate <= 192000) {
        Some(ConfigError::SampleRate)
    } else if !range_ok {
        Some(ConfigError::DynamicRange)
    } else {
        None
    }
}

/// Checks a configuration: `Ok` exactly when every check passes, otherwise the first
/// failing check.
pub fn validate(
    fft_size: usize,
    freq_ok: bool,
    bar_width: u16,
    fps: u32,
    sample_rate: u32,
    range_ok: bool,
) -> (r: Result<(), ConfigError>)
    ensures
        r == (match first_config_error(
            fft_size as int,
            freq_ok,
            bar_width as int,
            fps as int,
            sample_rate as int,
            range_ok,
        ) {
            Some(e) => Err(e),
            None => Ok(()),
        }),
{
    if !(is_power_of_two(fft_size) && 256 <= fft_size && fft_size <= 32768) {
        return Err(ConfigError::FftSize);
    }
    if !freq_ok {
        return Err(ConfigError::FrequencyRange);
    }
    if bar_width < 1 {
        return Err(ConfigError::BarWidth);
    }
    if !(10 <= fps && fps <= 240) {
        return Err(ConfigError::Fps);
    }
    if !(8000 <= sample_rate && sample_rate <= 192000) {
        return Err(ConfigError::SampleRate);
    }
    if !range_ok {
        return Err(ConfigError::DynamicRange);
    }
    Ok(())
}

/// Every quality preset leaves a valid FFT size and frame rate.
pub proof fn lemma_quality_presets_pass_checks(s: QualitySettings, q: Quality)
    ensures
        is_pow2(with_quality(s, q).fft_size as int),
{
    reveal_with_fuel(is_pow2, 14);
}

} // verus!
