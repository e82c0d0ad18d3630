//! Colours, colour schemes, and the settings that command-line arguments change.
use vstd::prelude::*;
use crate::text::{self, lower_case};

verus! {

/// An RGB colour.
#[derive(Debug, Clone, Copy, PartialEq, Eq, Structural)]
pub struct Color {
    pub r: u8,
    pub g: u8,
    pub b: u8,
}

impl Default for Color {
    fn default() -> (c: Self)
        ensures
            c == (Color { r: 0, g: 255, b: 255 }),
    {
        Color { r: 0, g: 255, b: 255 }
    }
}

/// The colour schemes of the bars.
#[derive(Debug, Clone, Copy, PartialEq, Eq, Structural)]
pub enum ColorScheme {
    Cyan,
    Green,
    Purple,
    Rainbow,
}

impl Default for ColorScheme {
    fn default() -> (s: Self)
        ensures
            s == ColorScheme::Cyan,
    {
        ColorScheme::Cyan
    }
}

pub open spec fn scheme_label(s: ColorScheme) -> Seq<char> {
    match s {
        ColorScheme::Cyan => "cyan"@,
        ColorScheme::Green => "green"@,
        ColorScheme::Purple => "purple"@,
        ColorScheme::Rainbow => "rainbow"@,
    }
}

/// The scheme a name selects once lower-cased; any other name selects cyan.
pub open spec fn scheme_named(lower: Seq<char>) -> ColorScheme {
    if lower == "green"@ {
        ColorScheme::Green
    } else if lower == "purple"@ {
        ColorScheme::Purple
    } else if lower == "rainbow"@ {
        ColorScheme::Rainbow
    } else {
        ColorScheme::Cyan
    }
}

impl ColorScheme {
    pub fn label(&self) -> (r: &'static str)
        ensures
            r@ == scheme_label(*self),
    {
        match self {
            ColorScheme::Cyan => "cyan",
            ColorScheme::Green => "green",
            ColorScheme::Purple => "purple",
            ColorScheme::Rainbow => "rainbow",
        }
    }

    /// The scheme named by `s`, ignoring case; unknown names give cyan.
    pub fn from_str(s: &str) -> (r: ColorScheme)
        ensures
            r == scheme_named(lower_case(s@)),
            text::ascii_text(s@) ==> r == scheme_named(text::ascii_lower_text(s@)),
    {
        let l = text::to_lowercase(s);
        if text::same_text(l.as_str(), "green") {
            ColorScheme::Green
        } else if text::same_text(l.as_str(), "purple") {
            ColorScheme::Purple
        } else if text::same_text(l.as_str(), "rainbow") {
            ColorScheme::Rainbow
        } else {
            ColorScheme::Cyan
        }
    }
}

/// Each scheme's label names it again, also once lowered (it is ASCII and lower-case
/// already, so `from_str(s.label())` is `s`).
pub proof fn lemma_scheme_label_names(s: ColorScheme)
    ensures
        scheme_named(scheme_label(s)) == s,
        text::ascii_text(scheme_label(s)),
        scheme_named(text::ascii_lower_text(scheme_label(s))) == s,
{
    reveal_strlit("cyan");
    reveal_strlit("green");
    reveal_strlit("purple");
    reveal_strlit("rainbow");
    let n = scheme_label(s);
    assert(forall|i: int| 0 <= i < n.len() ==> 'a' <= #[trigger] n[i] && n[i] <= 'z');
    text::lemma_ascii_lower_same(n);
    assert("cyan"@ != "green"@ && "cyan"@ != "purple"@ && "cyan"@ != "rainbow"@) by {
        assert("cyan"@.len() == 4 && "green"@.len() == 5 && "purple"@.len() == 6 && "rainbow"@.len() == 7);
    }
    assert("green"@ != "purple"@ && "green"@ != "rainbow"@ && "purple"@ != "rainbow"@) by {
        assert("green"@.len() == 5 && "purple"@.len() == 6 && "rainbow"@.len() == 7);
    }
}

/// The settings of the minimal visualizer apart from the sensitivity, which the
/// caller keeps.
#[derive(Debug, Clone)]
pub struct Config {
    pub mode: String,
    pub color_scheme: ColorScheme,
    pub quality: u32,
    pub framerate: u32,
    pub source_filter: Option<String>,
    pub window_width: u16,
    pub window_height: u16,
}

impl Default for Config {
    fn default() -> (c: Self)
        ensures
            c.mode@ == "bars"@,
            c.color_scheme == ColorScheme::Cyan,
            c.quality == 64,
            c.framerate == 30,
            c.source_filter is None,
            c.window_width == 80,
            c.window_height == 24,
    {
        Config {
            mode: text::owned("bars"),
            color_scheme: ColorScheme::Cyan,
            quality: 64,
            framerate: 30,
            source_filter: None,
            window_width: 80,
            window_height: 24,
        }
    }
}

/// The text of an optional string.
pub open spec fn text_option(o: Option<String>) -> Option<Seq<char>> {
    match o {
        Some(f) => Some(f@),
        None => None,
    }
}

/// What the command line asks for.
#[derive(Debug, Clone, Copy, PartialEq, Eq, Structural)]
pub enum Action {
    Run,
    Help,
}

/// The settings and action after reading `args` from position `i`: `--mode`/`-m` and
/// `--source` take the next argument (when there is one), `--help`/`-h` stops with the
/// help, anything else is skipped.
pub open spec fn args_result(mode: Seq<char>, filter: Option<Seq<char>>, args: Seq<Seq<char>>, i: int) -> (
    Seq<char>,
    Option<Seq<char>>,
    Action,
)
    decreases args.len() - i,
{
    if i >= args.len() || i < 0 {
        (mode, filter, Action::Run)
    } else {
        let a = args[i];
        if a == "--mode"@ || a == "-m"@ {
            if i + 1 < args.len() {
                args_result(args[i + 1], filter, args, i + 2)
            } else {
                (mode, filter, Action::Run)
            }
        } else if a == "--source"@ {
            if i + 1 < args.len() {
                args_result(mode, Some(args[i + 1]), args, i + 2)
            } else {
                (mode, filter, Action::Run)
            }
        } else if a == "--help"@ || a == "-h"@ {
            (mode, filter, Action::Help)
        } else {
            args_result(mode, filter, args, i + 1)
        }
    }
}

impl Config {
    /// Applies the command-line arguments (without the program name).
    pub fn apply_args(&mut self, args: &Vec<String>) -> (r: Action)
        ensures
            ({
                let (mode, filter, action) = args_result(
                    old(self).mode@,
                    text_option(old(self).source_filter),
                    args@.map_values(|s: String| s@),
                    0,
                );
                &&& final(self).mode@ == mode
                &&& (text_option(final(self).source_filter)) == filter
                &&& r == action
                &&& final(self).color_scheme == old(self).color_scheme
                &&& final(self).quality == old(self).quality
                &&& final(self).framerate == old(self).framerate
                &&& final(self).window_width == old(self).window_width
                &&& final(self).window_height == old(self).window_height
            }),
    {
        let ghost av = args@.map_values(|s: String| s@);
        let ghost start_mode = self.mode@;
        let ghost start_filter = text_option(self.source_filter);
        let ghost goal = args_result(start_mode, start_filter, av, 0);
        let mut i: usize = 0;
        while i < args.len()
            invariant
                i <= args.len(),
                av == args@.map_values(|s: String| s@),
                goal == args_result(old(self).mode@, text_option(old(self).source_filter), av, 0),
                goal == args_result(
                    self.mode@,
                    text_option(self.source_filter),
                    av,
                    i as int,
                ),
                self.color_scheme == old(self).color_scheme,
                self.quality == old(self).quality,
                self.framerate == old(self).framerate,
                self.window_width == old(self).window_width,
                self.window_height == old(self).window_height,
            decreases args.len() - i,
        {
            let a = args[i].as_str();
            assert(av[i as int] == a@);
            proof {
                reveal_strlit("--mode");
                reveal_strlit("-m");
                reveal_strlit("--source");
                reveal_strlit("--help");
                reveal_strlit("-h");
                assert("--help"@ != "--mode"@ && "--help"@ != "--source"@ && "-h"@ != "-m"@ && "-h"@
                    != "--mode"@ && "-h"@ != "--source"@ && "--help"@ != "-m"@) by {
                    assert("--help"@[2] == 'h' && "--mode"@[2] == 'm' && "--source"@[2] == 's');
                    assert("-h"@.len() == 2 && "--mode"@.len() == 6 && "--source"@.len() == 8 && "-m"@[1] == 'm' && "-h"@[1] == 'h' && "--help"@.len() == 6);
                }
                assert("--source"@ != "--mode"@ && "--source"@ != "-m"@) by {
                    assert("--source"@[2] == 's' && "--mode"@[2] == 'm' && "--source"@.len() == 8 && "-m"@.len() == 2);
                }
            }

            if text::same_text(a, "--mode") || text::same_text(a, "-m") {
                if i + 1 < args.len() {
                    assert(av[i + 1] == args@[i + 1]@);
                    self.mode = args[i + 1].clone();
                    i = i + 2;
                } else {
                    i = args.len();
                }
            } else if text::same_text(a, "--source") {
                if i + 1 < args.len() {
                    assert(av[i + 1] == args@[i + 1]@);
                    self.source_filter = Some(args[i + 1].clone());
                    i = i + 2;
                } else {
                    i = args.len();
                }
            } else if text::same_text(a, "--help") || text::same_text(a, "-h") {
                return Action::Help;
            } else {
                i = i + 1;
            }
        }
        Action::Run
    }
}

} // verus!
