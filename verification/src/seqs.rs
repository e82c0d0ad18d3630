//! Searching sequences for the first element with a property, facts about growing
//! sequences, and the default value that pads them.
use vstd::prelude::*;

verus! {

/// The default value of `T`, made by a call of `T::default` whose contract it meets.
pub fn default_value<T: Default>() -> (r: T)
    ensures
        call_ensures(T::default, (), r),
{
    let make = T::default;
    make()
}


/// Position of the first element of `s` satisfying `p`.
pub open spec fn first_index<T>(s: Seq<T>, p: spec_fn(T) -> bool) -> Option<int>
    decreases s.len(),
{
    if s.len() == 0 {
        None
    } else if p(s[0]) {
        Some(0)
    } else {
        match first_index(s.drop_first(), p) {
            Some(i) => Some(i + 1),
            None => None,
        }
    }
}

/// A scan that has passed `i` elements without finding one satisfying `p` decides
/// `first_index` at the next step.
pub proof fn lemma_first_index<T>(s: Seq<T>, p: spec_fn(T) -> bool, i: int)
    requires
        0 <= i <= s.len(),
        forall|k: int| 0 <= k < i ==> !p(#[trigger] s[k]),
    ensures
        i < s.len() && p(s[i]) ==> first_index(s, p) == Some(i),
        i == s.len() ==> first_index(s, p) is None,
    decreases s.len(),
{
    if s.len() > 0 && i > 0 {
        let t = s.drop_first();
        assert forall|k: int| 0 <= k < i - 1 implies !p(#[trigger] t[k]) by {
            assert(t[k] == s[k + 1]);
        }
        lemma_first_index(t, p, i - 1);
        assert(!p(s[0]));
        if i < s.len() {
            assert(t[i - 1] == s[i]);
        }
    }
}

/// The position found by `first_index` holds an element satisfying `p`, and no earlier
/// element does.
pub proof fn lemma_first_index_found<T>(s: Seq<T>, p: spec_fn(T) -> bool)
    ensures
        match first_index(s, p) {
            Some(i) => 0 <= i < s.len() && p(s[i]) && forall|k: int| 0 <= k < i ==> !p(#[trigger] s[k]),
            None => forall|k: int| 0 <= k < s.len() ==> !p(#[trigger] s[k]),
        },
    decreases s.len(),
{
    if s.len() > 0 {
        let t = s.drop_first();
        lemma_first_index_found(t, p);
        if !p(s[0]) {
            match first_index(t, p) {
                Some(i) => {
                    assert(s[i + 1] == t[i]);
                    assert forall|k: int| 0 <= k < i + 1 implies !p(#[trigger] s[k]) by {
                        if k > 0 {
                            assert(s[k] == t[k - 1]);
                        }
                    }
                },
                None => {
                    assert forall|k: int| 0 <= k < s.len() implies !p(#[trigger] s[k]) by {
                        if k > 0 {
                            assert(s[k] == t[k - 1]);
                        }
                    }
                },
            }
        }
    }
}

/// Mapping commutes with appending one element.
pub proof fn lemma_map_push<A, B>(s: Seq<A>, x: A, f: spec_fn(A) -> B)
    ensures
        s.push(x).map_values(f) == s.map_values(f).push(f(x)),
{
    assert(s.push(x).map_values(f) =~= s.map_values(f).push(f(x)));
}

/// The first `k + 1` elements are the first `k` and the element at `k`.
pub proof fn lemma_take_push<A>(s: Seq<A>, k: int)
    requires
        0 <= k < s.len(),
    ensures
        s.take(k + 1) == s.take(k).push(s[k]),
{
    assert(s.take(k + 1) =~= s.take(k).push(s[k]));
}

/// Filtering commutes with appending one element, which stays exactly when it passes.
pub proof fn lemma_filter_push<A>(s: Seq<A>, x: A, f: spec_fn(A) -> bool)
    ensures
        s.push(x).filter(f) == (if f(x) {
            s.filter(f).push(x)
        } else {
            s.filter(f)
        }),
{
    reveal(Seq::filter);
    assert(s.push(x).drop_last() =~= s);
}

/// Extending a range by one element appends that element.
pub proof fn lemma_subrange_push<A>(s: Seq<A>, lo: int, k: int)
    requires
        0 <= lo <= k < s.len(),
    ensures
        s.subrange(lo, k + 1) == s.subrange(lo, k).push(s[k]),
{
    assert(s.subrange(lo, k + 1) =~= s.subrange(lo, k).push(s[k]));
}

} // verus!
