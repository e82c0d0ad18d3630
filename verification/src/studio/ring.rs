//! The stereo sample history shared between the capture thread and the display.
use vstd::prelude::*;
use std::collections::VecDeque;
use crate::seqs::default_value;

verus! {

/// The newest frames of a stereo signal, at most `cap` of them (a capacity of 0 keeps
/// every frame), and the number of frames ever pushed.
pub struct Ring<T> {
    l: VecDeque<T>,
    r: VecDeque<T>,
    cap: usize,
    pub total: u64,
}

/// `s` after one more sample: the oldest goes first when `s` is at the capacity.
pub open spec fn push_one<T>(s: Seq<T>, cap: nat, x: T) -> Seq<T> {
    if s.len() == cap && s.len() > 0 {
        s.drop_first().push(x)
    } else {
        s.push(x)
    }
}

/// `s` after each sample of `xs` in turn.
pub open spec fn push_all<T>(s: Seq<T>, cap: nat, xs: Seq<T>) -> Seq<T>
    decreases xs.len(),
{
    if xs.len() == 0 {
        s
    } else {
        push_one(push_all(s, cap, xs.drop_last()), cap, xs.last())
    }
}

/// The samples at even positions of interleaved data (left channel), frame by frame;
/// a trailing half frame is ignored.
pub open spec fn left_of<T>(data: Seq<T>) -> Seq<T> {
    Seq::new(data.len() / 2, |i: int| data[2 * i])
}

/// The samples at odd positions (right channel).
pub open spec fn right_of<T>(data: Seq<T>) -> Seq<T> {
    Seq::new(data.len() / 2, |i: int| data[2 * i + 1])
}

/// The last `n` elements of `s` (all of them when there are fewer).
pub open spec fn newest<T>(s: Seq<T>, n: nat) -> Seq<T> {
    if s.len() <= n {
        s
    } else {
        s.skip(s.len() - n)
    }
}

/// With a capacity, pushing keeps exactly the newest `cap` frames of everything pushed.
pub proof fn lemma_push_all_keeps_newest<T>(s: Seq<T>, cap: nat, xs: Seq<T>)
    requires
        cap > 0,
        s.len() <= cap,
    ensures
        push_all(s, cap, xs) == newest(s + xs, cap),
    decreases xs.len(),
{
    if xs.len() == 0 {
        assert(s + xs =~= s);
    } else {
        let ys = xs.drop_last();
        lemma_push_all_keeps_newest(s, cap, ys);
        let prev = newest(s + ys, cap);
        assert(s + xs =~= (s + ys).push(xs.last()));
        let all = (s + ys).push(xs.last());
        if (s + ys).len() < cap {
            assert(prev == s + ys);
        } else {
            assert(prev.len() == cap);
            assert(prev.drop_first().push(xs.last()) =~= all.skip(all.len() - cap));
        }
    }
}

impl<T> Ring<T> {
    /// Both channels hold the same number of frames, at most the capacity when there is
    /// one.
    pub closed spec fn wf(self) -> bool {
        &&& self.l@.len() == self.r@.len()
        &&& (self.cap > 0 ==> self.l@.len() <= self.cap)
    }

    /// The left channel's frames, oldest first.
    pub closed spec fn left(self) -> Seq<T> {
        self.l@
    }

    /// The right channel's frames, oldest first.
    pub closed spec fn right(self) -> Seq<T> {
        self.r@
    }

    /// Number of frames ever pushed.
    pub closed spec fn pushed(self) -> u64 {
        self.total
    }

    pub closed spec fn capacity(self) -> nat {
        self.cap as nat
    }

    pub fn new(cap: usize) -> (r: Ring<T>)
        ensures
            r.wf(),
            r.left().len() == 0,
            r.right().len() == 0,
            r.capacity() == cap,
            r.pushed() == 0,
    {
        Ring { l: VecDeque::new(), r: VecDeque::new(), cap, total: 0 }
    }
}

impl<T: Copy> Ring<T> {
    /// Appends interleaved stereo frames (left, right, left, right, ...), dropping the
    /// oldest frames beyond the capacity, and counts them.
    pub fn push_interleaved(&mut self, data: &[T])
        requires
            old(self).wf(),
            old(self).pushed() + data@.len() / 2 <= u64::MAX,
        ensures
            final(self).wf(),
            final(self).left() == push_all(old(self).left(), old(self).capacity(), left_of(data@)),
            final(self).right() == push_all(old(self).right(), old(self).capacity(), right_of(data@)),
            final(self).pushed() == old(self).pushed() + data@.len() / 2,
            final(self).capacity() == old(self).capacity(),
    {
        let frames = data.len() / 2;
        let ghost l0 = self.l@;
        let ghost r0 = self.r@;
        let ghost cap = self.cap as nat;
        let mut f: usize = 0;
        while f < frames
            invariant
                frames == data@.len() / 2,
                f <= frames,
                self.cap == cap,
                self.total == old(self).total,
                self.l@.len() == self.r@.len(),
                cap > 0 ==> self.l@.len() <= cap,
                self.l@ == push_all(l0, cap, left_of(data@).take(f as int)),
                self.r@ == push_all(r0, cap, right_of(data@).take(f as int)),
            decreases frames - f,
        {
            assert(2 * f + 1 < data.len());
            let x = data[2 * f];
            let y = data[2 * f + 1];
            if self.l.len() == self.cap {
                self.l.pop_front();
                self.r.pop_front();
            }
            self.l.push_back(x);
            self.r.push_back(y);
            proof {
                assert(left_of(data@).take(f + 1).drop_last() =~= left_of(data@).take(f as int));
                assert(right_of(data@).take(f + 1).drop_last() =~= right_of(data@).take(f as int));
                assert(left_of(data@).take(f + 1).last() == x);
                assert(right_of(data@).take(f + 1).last() == y);
            }
            f = f + 1;
        }
        assert(left_of(data@).take(frames as int) =~= left_of(data@));
        assert(right_of(data@).take(frames as int) =~= right_of(data@));
        self.total = self.total + frames as u64;
    }
}

impl<T: Copy + Default> Ring<T> {
    /// Copies the newest `n` frames into `out_l`/`out_r`, padding at the front with the
    /// default value when fewer exist.
    pub fn latest(&self, n: usize, out_l: &mut Vec<T>, out_r: &mut Vec<T>)
        requires
            self.wf(),
        ensures
            ({
                let have = self.left().len();
                let avail = if have < n {
                    have
                } else {
                    n as nat
                };
                let pad = n - avail;
                &&& final(out_l)@.len() == n
                &&& final(out_r)@.len() == n
                &&& final(out_l)@.skip(pad) == self.left().skip(have - avail)
                &&& final(out_r)@.skip(pad) == self.right().skip(have - avail)
                &&& forall|i: int|
                    0 <= i < pad ==> #[trigger] final(out_l)@[i] == final(out_l)@[0] && final(out_r)@[i]
                        == final(out_l)@[0]
                &&& pad > 0 ==> call_ensures(T::default, (), final(out_l)@[0])
            }),
    {
        out_l.clear();
        out_r.clear();
        let have = self.l.len();
        let avail = if have < n {
            have
        } else {
            n
        };
        let pad = n - avail;
        let z = default_value::<T>();
        while out_l.len() < pad
            invariant
                out_l.len() == out_r.len(),
                out_l.len() <= pad,
                forall|i: int| 0 <= i < out_l@.len() ==> #[trigger] out_l@[i] == z && out_r@[i] == z,
            decreases pad - out_l.len(),
        {
            out_l.push(z);
            out_r.push(z);
        }
        let mut k: usize = have - avail;
        while k < have
            invariant
                have == self.l@.len(),
                self.wf(),
                avail <= have,
                have - avail <= k <= have,
                out_l@.len() == out_r@.len(),
                out_l@.len() == pad + (k - (have - avail)),
                forall|i: int| 0 <= i < pad ==> #[trigger] out_l@[i] == z && out_r@[i] == z,
                out_l@.skip(pad as int) == self.l@.subrange(have - avail, k as int),
                out_r@.skip(pad as int) == self.r@.subrange(have - avail, k as int),
            decreases have - k,
        {
            let ghost bl = out_l@;
            let ghost br = out_r@;
            out_l.push(self.l[k]);
            out_r.push(self.r[k]);
            assert(out_l@.skip(pad as int) =~= bl.skip(pad as int).push(self.l@[k as int]));
            assert(out_r@.skip(pad as int) =~= br.skip(pad as int).push(self.r@[k as int]));
            let ghost lo = (have - avail) as int;
            proof {
                crate::seqs::lemma_subrange_push(self.l@, lo, k as int);
                crate::seqs::lemma_subrange_push(self.r@, lo, k as int);
            }
            k = k + 1;
        }
        assert(self.l@.subrange(have - avail, have as int) =~= self.l@.skip(have - avail));
        assert(self.r@.subrange(have - avail, have as int) =~= self.r@.skip(have - avail));
        assert(pad > 0 ==> out_l@[0] == z);
    }
}

} // verus!
