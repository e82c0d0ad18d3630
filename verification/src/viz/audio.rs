//! Visualization modes, the sample history of each source, and the choice of sources
//! to draw.
use vstd::prelude::*;
use crate::seqs::{default_value, first_index};
use crate::text::{self, lower_case};
use crate::viz::source::{matches_source, source_matches, SourceInfo};

verus! {

/// The visualization modes, in key order.
#[derive(Clone, Debug, PartialEq, Eq, Copy, Structural)]
pub enum VizMode {
    Bars,
    Scope,
    Spectrum,
    Waveform,
    Meters,
}

pub open spec fn viz_mode_name(m: VizMode) -> Seq<char> {
    match m {
        VizMode::Bars => "bars"@,
        VizMode::Scope => "scope"@,
        VizMode::Spectrum => "spectrum"@,
        VizMode::Waveform => "waveform"@,
        VizMode::Meters => "meters"@,
    }
}

pub open spec fn viz_mode_index(m: VizMode) -> int {
    match m {
        VizMode::Bars => 0,
        VizMode::Scope => 1,
        VizMode::Spectrum => 2,
        VizMode::Waveform => 3,
        VizMode::Meters => 4,
    }
}

/// The mode a lower-cased name selects; any other name selects bars.
pub open spec fn viz_mode_named(lower: Seq<char>) -> VizMode {
    if lower == "scope"@ {
        VizMode::Scope
    } else if lower == "spectrum"@ {
        VizMode::Spectrum
    } else if lower == "waveform"@ {
        VizMode::Waveform
    } else if lower == "meters"@ {
        VizMode::Meters
    } else {
        VizMode::Bars
    }
}

impl VizMode {
    /// The mode named by `s`, ignoring case; unknown names give bars.
    pub fn from_str(s: &str) -> (r: Self)
        ensures
            r == viz_mode_named(lower_case(s@)),
            text::ascii_text(s@) ==> r == viz_mode_named(text::ascii_lower_text(s@)),
    {
        let l = text::to_lowercase(s);
        if text::same_text(l.as_str(), "scope") {
            VizMode::Scope
        } else if text::same_text(l.as_str(), "spectrum") {
            VizMode::Spectrum
        } else if text::same_text(l.as_str(), "waveform") {
            VizMode::Waveform
        } else if text::same_text(l.as_str(), "meters") {
            VizMode::Meters
        } else {
            VizMode::Bars
        }
    }

    pub fn name(self) -> (r: &'static str)
        ensures
            r@ == viz_mode_name(self),
    {
        match self {
            VizMode::Bars => "bars",
            VizMode::Scope => "scope",
            VizMode::Spectrum => "spectrum",
            VizMode::Waveform => "waveform",
            VizMode::Meters => "meters",
        }
    }

    pub fn order_index(self) -> (r: usize)
        ensures
            r == viz_mode_index(self),
    {
        match self {
            VizMode::Bars => 0,
            VizMode::Scope => 1,
            VizMode::Spectrum => 2,
            VizMode::Waveform => 3,
            VizMode::Meters => 4,
        }
    }
}

/// Each mode's name selects it again, also once lowered (it is ASCII and lower-case
/// already, so `from_str(m.name())` is `m`), and the key order numbers the modes 0 to 4.
pub proof fn lemma_viz_mode_names(m: VizMode)
    ensures
        viz_mode_named(viz_mode_name(m)) == m,
        text::ascii_text(viz_mode_name(m)),
        viz_mode_named(text::ascii_lower_text(viz_mode_name(m))) == m,
        0 <= viz_mode_index(m) < 5,
{
    reveal_strlit("bars");
    reveal_strlit("scope");
    reveal_strlit("spectrum");
    reveal_strlit("waveform");
    reveal_strlit("meters");
    let n = viz_mode_name(m);
    assert(forall|i: int| 0 <= i < n.len() ==> 'a' <= #[trigger] n[i] && n[i] <= 'z');
    text::lemma_ascii_lower_same(n);
    assert("bars"@ != "scope"@ && "bars"@ != "spectrum"@ && "bars"@ != "waveform"@ && "bars"@ != "meters"@) by {
        assert("bars"@.len() == 4 && "scope"@.len() == 5 && "spectrum"@.len() == 8 && "waveform"@.len() == 8 && "meters"@.len() == 6);
    }
    assert("scope"@ != "spectrum"@ && "scope"@ != "waveform"@ && "scope"@ != "meters"@) by {
        assert("scope"@.len() == 5 && "spectrum"@.len() == 8 && "waveform"@.len() == 8 && "meters"@.len() == 6);
    }
    assert("spectrum"@ != "waveform"@ && "spectrum"@ != "meters"@ && "waveform"@ != "meters"@) by {
        assert("spectrum"@[0] == 's' && "waveform"@[0] == 'w' && "meters"@.len() == 6 && "spectrum"@.len() == 8 && "waveform"@.len() == 8);
    }
}

/// A ring of the most recent samples of one source.
pub struct SampleBuffer<T> {
    buffer: Vec<T>,
    write_pos: usize,
    count: usize,
}

/// Position in the ring of the `i`-th of the `count` most recent samples, when the
/// next sample goes to `write_pos`.
pub open spec fn ring_slot(write_pos: int, count: int, len: int, i: int) -> int {
    if write_pos + i >= count {
        write_pos + i - count
    } else {
        write_pos + i + len - count
    }
}

/// The last `n` elements of `s` (all of them when there are fewer).
pub open spec fn keep_last<T>(s: Seq<T>, n: nat) -> Seq<T> {
    if s.len() <= n {
        s
    } else {
        s.skip(s.len() - n)
    }
}

impl<T> SampleBuffer<T> {
    /// The ring's positions lie inside a buffer of at least two slots.
    pub closed spec fn wf(self) -> bool {
        &&& self.buffer.len() >= 2
        &&& self.write_pos < self.buffer.len()
        &&& self.count <= self.buffer.len()
    }

    /// The most recent samples, oldest first.
    pub closed spec fn recent(self) -> Seq<T> {
        Seq::new(
            self.count as nat,
            |i: int| self.buffer@[ring_slot(self.write_pos as int, self.count as int, self.buffer.len() as int, i)],
        )
    }

    /// How many samples the ring holds at most.
    pub closed spec fn capacity(self) -> nat {
        self.buffer.len() as nat
    }
}

impl<T: Copy + Default> SampleBuffer<T> {
    /// An empty ring holding up to `capacity` samples (at least 2).
    pub fn new(capacity: usize) -> (r: Self)
        ensures
            r.wf(),
            r.recent().len() == 0,
            r.capacity() == if capacity < 2 {
                2
            } else {
                capacity
            },
    {
        let cap = if capacity < 2 {
            2
        } else {
            capacity
        };
        let fill = T::default();
        let mut buffer: Vec<T> = Vec::new();
        while buffer.len() < cap
            invariant
                buffer.len() <= cap,
            decreases cap - buffer.len(),
        {
            buffer.push(fill);
        }
        SampleBuffer { buffer, write_pos: 0, count: 0 }
    }
}

impl<T: Copy> SampleBuffer<T> {
    /// Appends the samples, discarding the oldest when the ring is full.
    pub fn push(&mut self, samples: &[T])
        requires
            old(self).wf(),
        ensures
            final(self).wf(),
            final(self).recent() == keep_last(old(self).recent() + samples@, old(self).capacity()),
            final(self).capacity() == old(self).capacity(),
    {
        let ghost start = self.recent();
        let ghost cap = self.capacity();
        let mut k: usize = 0;
        assert(samples@.take(0) =~= Seq::<T>::empty());
        assert(start + samples@.take(0) =~= start);
        while k < samples.len()
            invariant
                k <= samples@.len(),
                self.buffer.len() == cap,
                cap >= 2,
                self.write_pos < cap,
                self.count <= cap,
                self.recent() == keep_last(start + samples@.take(k as int), cap),
            decreases samples.len() - k,
        {
            let ghost before = self.recent();
            let ghost b0 = self.buffer@;
            let wp = self.write_pos;
            let c = self.count;
            let len = self.buffer.len();
            let x = samples[k];
            self.buffer.set(wp, x);
            self.write_pos = if wp + 1 == len {
                0
            } else {
                wp + 1
            };
            if c < len {
                self.count = c + 1;
            }
            proof {
                let after = self.recent();
                let want = before.push(x);
                if c < len {
                    assert forall|i: int| 0 <= i < after.len() implies after[i] == want[i] by {
                        if i < c {
                            let s = ring_slot(wp as int, c as int, len as int, i);
                            assert(ring_slot(self.write_pos as int, c + 1, len as int, i) == s);
                            assert(s != wp);
                        } else {
                            assert(ring_slot(self.write_pos as int, c + 1, len as int, i) == wp);
                        }
                    }
                    assert(after =~= want);
                } else {
                    assert forall|i: int| 0 <= i < after.len() implies after[i] == want.skip(1)[i] by {
                        if i < c - 1 {
                            assert(ring_slot(self.write_pos as int, c as int, len as int, i) == ring_slot(
                                wp as int,
                                c as int,
                                len as int,
                                i + 1,
                            ));
                        } else {
                            assert(ring_slot(self.write_pos as int, c as int, len as int, i) == wp);
                        }
                    }
                    assert(after =~= want.skip(1));
                }
                let all = start + samples@.take(k + 1);
                assert(all =~= (start + samples@.take(k as int)).push(x));
                assert(keep_last(all, cap) =~= (if c < len {
                    want
                } else {
                    want.skip(1)
                }));
            }
            k = k + 1;
        }
        assert(samples@.take(k as int) =~= samples@);
    }

    /// How many samples the ring holds.
    pub fn count(&self) -> (r: usize)
        requires
            self.wf(),
        ensures
            r == self.recent().len(),
            r <= self.capacity(),
            self.capacity() >= 2,
    {
        self.count
    }
}

impl<T: Copy + Default> SampleBuffer<T> {
    /// The most recent `n` samples, oldest first, followed by copies of the default
    /// value where fewer are held.
    pub fn latest(&self, n: usize) -> (r: Vec<T>)
        requires
            self.wf(),
        ensures
            r@.len() == n,
            ({
                let held = self.recent();
                let take = if n < held.len() {
                    n as int
                } else {
                    held.len() as int
                };
                &&& r@.take(take) == held.skip(held.len() - take)
                &&& forall|i: int| take <= i < n ==> #[trigger] r@[i] == r@[take]
                &&& take < n ==> call_ensures(T::default, (), r@[take])
            }),
    {
        let take = if n < self.count {
            n
        } else {
            self.count
        };
        let fill = default_value::<T>();
        let mut out: Vec<T> = Vec::new();
        let len = self.buffer.len();
        let ghost held = self.recent();
        let mut i: usize = 0;
        while i < take
            invariant
                i <= take,
                take <= self.count,
                self.wf(),
                len == self.buffer.len(),
                held == self.recent(),
                out@ == held.skip(held.len() - take).take(i as int),
            decreases take - i,
        {
            let back = self.count - take + i;
            let d = self.count - back;
            let slot = if self.write_pos >= d {
                self.write_pos - d
            } else {
                len - (d - self.write_pos)
            };
            out.push(self.buffer[slot]);
            assert(out@ =~= held.skip(held.len() - take).take(i + 1));
            i = i + 1;
        }
        while out.len() < n
            invariant
                take <= out.len() <= n,
                out@.take(take as int) == held.skip(held.len() - take),
                forall|j: int| take <= j < out.len() ==> #[trigger] out@[j] == fill,
            decreases n - out.len(),
        {
            let ghost before = out@;
            out.push(fill);
            assert(out@.take(take as int) =~= before.take(take as int));
        }
        proof {
            assert(forall|j: int| take <= j < n ==> #[trigger] out@[j] == fill);
            assert(take < n ==> out@[take as int] == fill);
        }
        out
    }
}

/// Once at least `n` samples have been pushed in one go, the newest `n` held (for `n`
/// up to the capacity) are the last `n` pushed.
pub proof fn lemma_newest_after_push<T>(held: Seq<T>, xs: Seq<T>, cap: nat, n: nat)
    requires
        n <= xs.len(),
        n <= cap,
    ensures
        ({
            let after = keep_last(held + xs, cap);
            after.skip(after.len() - n) == xs.skip(xs.len() - n)
        }),
{
    let all = held + xs;
    let after = keep_last(all, cap);
    assert(after.skip(after.len() - n) =~= xs.skip(xs.len() - n)) by {
        assert forall|i: int| 0 <= i < n implies #[trigger] after.skip(after.len() - n)[i] == xs.skip(xs.len() - n)[i] by {
            if all.len() > cap {
                assert(after[after.len() - n + i] == all[all.len() - cap + after.len() - n + i]);
            }
            assert(all[held.len() + xs.len() - n + i] == xs[xs.len() - n + i]);
        }
    }
}

/// The sources to draw and their sample rings.
pub struct VizEngine<T> {
    pub mode: VizMode,
    pub sources: Vec<SourceInfo>,
    /// 0 = all sources, otherwise 1-based index of selected source.
    pub selected_source: usize,
    pub buffers: Vec<SampleBuffer<T>>,
}

/// The 1-based position of the first source that `name` matches, or 0 (all sources).
pub open spec fn selected_by_name(sources: Seq<SourceInfo>, name: Seq<char>) -> int {
    match first_index(sources, |s: SourceInfo| source_matches(s, name)) {
        Some(i) => i + 1,
        None => 0,
    }
}

impl<T: Copy + Default> VizEngine<T> {
    /// An engine drawing all sources in the mode named `mode`, with one empty ring of
    /// `capacity` samples per source.
    pub fn new(mode: &str, sources: Vec<SourceInfo>, capacity: usize) -> (r: Self)
        ensures
            r.mode == viz_mode_named(lower_case(mode@)),
            r.sources@ == sources@,
            r.selected_source == 0,
            r.buffers@.len() == sources@.len(),
            forall|i: int|
                0 <= i < r.buffers@.len() ==> (#[trigger] r.buffers@[i]).wf() && r.buffers@[i].recent().len() == 0,
    {
        let n = sources.len();
        let mut buffers: Vec<SampleBuffer<T>> = Vec::new();
        while buffers.len() < n
            invariant
                buffers.len() <= n,
                forall|i: int|
                    0 <= i < buffers@.len() ==> (#[trigger] buffers@[i]).wf() && buffers@[i].recent().len() == 0,
            decreases n - buffers.len(),
        {
            buffers.push(SampleBuffer::new(capacity));
        }
        VizEngine { mode: VizMode::from_str(mode), sources, selected_source: 0, buffers }
    }
}

impl<T> VizEngine<T> {
    pub fn get_mode(&self) -> (r: VizMode)
        ensures
            r == self.mode,
    {
        self.mode
    }

    pub fn get_mode_name(&self) -> (r: &'static str)
        ensures
            r@ == viz_mode_name(self.mode),
    {
        self.mode.name()
    }

    pub fn set_mode_name(&mut self, mode: &str)
        ensures
            final(self).mode == viz_mode_named(lower_case(mode@)),
            final(self).sources == old(self).sources,
            final(self).selected_source == old(self).selected_source,
            final(self).buffers == old(self).buffers,
    {
        self.mode = VizMode::from_str(mode);
    }

    /// 1-based selected source index (0 = all).
    pub fn get_selected_source(&self) -> (r: usize)
        ensures
            r == self.selected_source,
    {
        self.selected_source
    }

    /// Selects source `idx` (1-based); 0 or an index past the last source selects all.
    pub fn set_selected_source(&mut self, idx: usize)
        ensures
            final(self).selected_source == (if idx == 0 || idx > old(self).buffers.len() {
                0
            } else {
                idx
            }),
            final(self).mode == old(self).mode,
            final(self).sources == old(self).sources,
            final(self).buffers == old(self).buffers,
    {
        if idx == 0 || idx > self.buffers.len() {
            self.selected_source = 0;
        } else {
            self.selected_source = idx;
        }
    }

    /// Selects the first source whose name or alias contains `name`, ignoring case;
    /// when none does, all sources.
    pub fn set_selected_source_name(&mut self, name: &str)
        ensures
            final(self).selected_source == selected_by_name(old(self).sources@, name@),
            final(self).mode == old(self).mode,
            final(self).sources == old(self).sources,
            final(self).buffers == old(self).buffers,
    {
        let ghost p = |s: SourceInfo| source_matches(s, name@);
        let mut k: usize = 0;
        while k < self.sources.len()
            invariant
                k <= self.sources.len(),
                p == (|s: SourceInfo| source_matches(s, name@)),
                self.sources == old(self).sources,
                self.mode == old(self).mode,
                self.buffers == old(self).buffers,
                forall|j: int| 0 <= j < k ==> !p(#[trigger] self.sources@[j]),
            decreases self.sources.len() - k,
        {
            if matches_source(&self.sources[k], name) {
                proof {
                    crate::seqs::lemma_first_index(self.sources@, p, k as int);
                }
                self.selected_source = k + 1;
                return;
            }
            k = k + 1;
        }
        proof {
            crate::seqs::lemma_first_index(self.sources@, p, k as int);
        }
        self.selected_source = 0;
    }

    /// 0-based indices of the rings to draw: all of them when nothing is selected, else
    /// the selected one.
    pub fn active_indices(&self) -> (r: Vec<usize>)
        ensures
            self.selected_source == 0 ==> r@ == Seq::new(self.buffers@.len(), |i: int| i as usize),
            self.selected_source != 0 ==> r@ == seq![(self.selected_source - 1) as usize],
    {
        if self.selected_source == 0 {
            let mut out: Vec<usize> = Vec::new();
            let mut i: usize = 0;
            while i < self.buffers.len()
                invariant
                    i <= self.buffers.len(),
                    out@ == Seq::new(i as nat, |j: int| j as usize),
                decreases self.buffers.len() - i,
            {
                out.push(i);
                assert(out@ =~= Seq::new((i + 1) as nat, |j: int| j as usize));
                i = i + 1;
            }
            out
        } else {
            vec![self.selected_source - 1]
        }
    }
}

} // verus!
