//! The text around the drawing and the keys of the minimal visualizer.
use vstd::prelude::*;
use crate::text::{self, decimal};
use crate::viz::audio::{viz_mode_named, VizEngine, VizMode};
use crate::viz::source::SourceInfo;

verus! {

/// A screen of `h.max(1) + 2` rows: the program name, then `title` when `h >= 1`,
/// then empty rows.
pub fn simple_frame(title: &str, _w: usize, h: usize) -> (rows: Vec<String>)
    requires
        h < usize::MAX - 2,
    ensures
        rows@.len() == (if h < 1 {
            1
        } else {
            h
        }) + 2,
        rows@[0]@ == "  pulse-viz"@,
        h >= 1 ==> rows@[1]@ == title@,
        forall|i: int| (if h >= 1 { 2int } else { 1int }) <= i < rows@.len() ==> (#[trigger] rows@[i])@.len() == 0,
{
    let n = (if h < 1 {
        1
    } else {
        h
    }) + 2;
    let mut rows: Vec<String> = Vec::new();
    while rows.len() < n
        invariant
            rows.len() <= n,
            forall|i: int| 0 <= i < rows@.len() ==> (#[trigger] rows@[i])@.len() == 0,
        decreases n - rows.len(),
    {
        rows.push(String::new());
    }
    rows.set(0, text::owned("  pulse-viz"));
    if h >= 1 {
        rows.set(1, text::owned(title));
    }
    rows
}

/// The name shown for source position `idx`: "all" for 0, the alias of source `idx`
/// (1-based), or "unknown" past the last one.
pub open spec fn source_name_for(idx: int, aliases: Seq<Seq<char>>) -> Seq<char> {
    if idx == 0 {
        "all"@
    } else if 0 < idx <= aliases.len() {
        aliases[idx - 1]
    } else {
        "unknown"@
    }
}

pub fn source_name(idx: usize, sources: &Vec<SourceInfo>) -> (r: String)
    ensures
        r@ == source_name_for(idx as int, sources@.map_values(|s: SourceInfo| s.alias@)),
{
    if idx == 0 {
        text::owned("all")
    } else if idx <= sources.len() {
        sources[idx - 1].alias.clone()
    } else {
        text::owned("unknown")
    }
}

/// The first line of a frame.
pub fn header_line(mode_name: &str, source_name: &str) -> (r: String)
    ensures
        r@ == "  pulse-viz  ["@ + mode_name@ + "]  Source: "@ + source_name@,
{
    let a = text::concat3("  pulse-viz  [", mode_name, "]  Source: ");
    text::concat(a.as_str(), source_name)
}

/// The last line of a frame: the keys and the number of sources.
pub fn footer_line(n_sources: usize) -> (r: String)
    ensures
        r@ == "[1] bars [2] scope [3] spectrum [4] waveform [5] meters  [, .] source  [q] quit  ("@
            + decimal(n_sources as nat) + " sources)"@,
{
    let n = text::decimal_text(n_sources as u64);
    text::concat3(
        "[1] bars [2] scope [3] spectrum [4] waveform [5] meters  [, .] source  [q] quit  (",
        n.as_str(),
        " sources)",
    )
}

/// The source position after `.`: the next one, wrapping from the last to "all".
pub open spec fn next_source(idx: int, n: int) -> int {
    (idx + 1) % (n + 1)
}

/// The source position after `,`: the previous one, wrapping from "all" to the last.
pub open spec fn prev_source(idx: int, n: int) -> int {
    if idx == 0 {
        n
    } else {
        idx - 1
    }
}

/// Stepping to the next source and back again returns to the start.
pub proof fn lemma_source_cycle(idx: int, n: int)
    requires
        0 <= idx <= n,
    ensures
        prev_source(next_source(idx, n), n) == idx,
        next_source(prev_source(idx, n), n) == idx,
{
    if idx < n {
        vstd::arithmetic::div_mod::lemma_small_mod((idx + 1) as nat, (n + 1) as nat);
    } else {
        vstd::arithmetic::div_mod::lemma_mod_self_0(n + 1);
    }
    if idx > 0 {
        vstd::arithmetic::div_mod::lemma_small_mod(idx as nat, (n + 1) as nat);
    } else {
        vstd::arithmetic::div_mod::lemma_small_mod(0, (n + 1) as nat);
        vstd::arithmetic::div_mod::lemma_mod_self_0(n + 1);
    }
}

/// The mode a digit key selects.
pub open spec fn mode_key(key: u8) -> Option<Seq<char>> {
    if key == 0x31 {
        Some("bars"@)
    } else if key == 0x32 {
        Some("scope"@)
    } else if key == 0x33 {
        Some("spectrum"@)
    } else if key == 0x34 {
        Some("waveform"@)
    } else if key == 0x35 {
        Some("meters"@)
    } else {
        None
    }
}

impl<T> VizEngine<T> {
    /// Handles a key byte with the source position `idx` of the frame loop: `q`,
    /// Control-C and Escape quit; `1`..`5` choose a mode by name; `.` and `,` step the
    /// source position and select it. Returns whether to quit and the new position.
    pub fn on_key(&mut self, key: u8, idx: usize) -> (r: (bool, usize))
        requires
            idx <= old(self).sources.len(),
            old(self).buffers.len() == old(self).sources.len(),
            old(self).sources.len() < usize::MAX,
        ensures
            r.0 == (key == 0x71 || key == 3 || key == 0x1b),
            final(self).sources == old(self).sources,
            final(self).buffers == old(self).buffers,
            r.0 ==> r.1 == idx && final(self).mode == old(self).mode && final(self).selected_source
                == old(self).selected_source,
            !r.0 ==> match mode_key(key) {
                Some(name) => final(self).mode == viz_mode_named(crate::text::lower_case(name)) && r.1
                    == idx && final(self).selected_source == old(self).selected_source,
                None => final(self).mode == old(self).mode && (if key == 0x2e {
                    r.1 == next_source(idx as int, old(self).sources.len() as int)
                        && final(self).selected_source == r.1
                } else if key == 0x2c {
                    r.1 == prev_source(idx as int, old(self).sources.len() as int)
                        && final(self).selected_source == r.1
                } else {
                    r.1 == idx && final(self).selected_source == old(self).selected_source
                }),
            },
    {
        let n = self.sources.len();
        if key == 0x71 || key == 3 || key == 0x1b {
            return (true, idx);
        }
        if key == 0x31 {
            self.set_mode_name("bars");
            (false, idx)
        } else if key == 0x32 {
            self.set_mode_name("scope");
            (false, idx)
        } else if key == 0x33 {
            self.set_mode_name("spectrum");
            (false, idx)
        } else if key == 0x34 {
            self.set_mode_name("waveform");
            (false, idx)
        } else if key == 0x35 {
            self.set_mode_name("meters");
            (false, idx)
        } else if key == 0x2e {
            let next = (idx + 1) % (n + 1);
            self.set_selected_source(next);
            (false, next)
        } else if key == 0x2c {
            let prev = if idx == 0 {
                n
            } else {
                idx - 1
            };
            self.set_selected_source(prev);
            (false, prev)
        } else {
            (false, idx)
        }
    }
}

} // verus!
