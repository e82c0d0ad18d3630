//! Audio sources as the C shim reports them, decoded into strings, and the choice of
//! sources by name.
use vstd::prelude::*;
use vstd::utf8::{decode_utf8, encode_utf8, valid_utf8};
use crate::seqs::first_index;
use crate::text::{self, contains, lower_case};

verus! {

/// A source record as the C shim lays it out: names as NUL-terminated byte arrays.
#[derive(Clone)]
pub struct PVzSourceInfo {
    pub name: [u8; 512],
    pub alias: [u8; 256],
    pub source: u32,
    pub channels: i32,
    pub rate: i32,
    pub sample_format: i32,
    pub client: u32,
    pub index: u32,
    pub mute: i32,
}

/// A source with its names decoded.
#[derive(Debug)]
pub struct SourceInfo {
    pub name: String,
    pub alias: String,
    pub source: u32,
    pub channels: i32,
    pub rate: i32,
    pub sample_format: i32,
    pub client: u32,
    pub index: u32,
    pub mute: i32,
}

impl Clone for SourceInfo {
    fn clone(&self) -> (r: Self)
        ensures
            r == *self,
    {
        SourceInfo {
            name: self.name.clone(),
            alias: self.alias.clone(),
            source: self.source,
            channels: self.channels,
            rate: self.rate,
            sample_format: self.sample_format,
            client: self.client,
            index: self.index,
            mute: self.mute,
        }
    }
}

/// The bytes before the first NUL, or all of them.
pub open spec fn c_bytes(b: Seq<u8>) -> Seq<u8> {
    match first_index(b, |x: u8| x == 0) {
        Some(k) => b.take(k),
        None => b,
    }
}

/// The text that the bytes before the first NUL encode as UTF-8, or `fallback` when
/// they are not UTF-8.
pub open spec fn c_text(b: Seq<u8>, fallback: Seq<char>) -> Seq<char> {
    if valid_utf8(c_bytes(b)) {
        decode_utf8(c_bytes(b))
    } else {
        fallback
    }
}

/// Calls `std::str::from_utf8`, which accepts exactly the byte strings that are valid
/// UTF-8 and then returns the text whose encoding they are; the text is copied into a
/// `String`.
#[verifier::external_body]
fn utf8_text(bytes: &[u8]) -> (r: Option<String>)
    ensures
        r is Some <==> valid_utf8(bytes@),
        r matches Some(s) ==> encode_utf8(s@) == bytes@,
{
    std::str::from_utf8(bytes).ok().map(|s| s.to_string())
}

/// Number of bytes before the first NUL.
fn c_len(b: &[u8]) -> (r: usize)
    ensures
        b@.take(r as int) == c_bytes(b@),
        r <= b@.len(),
{
    let ghost p = |x: u8| x == 0;
    let mut k: usize = 0;
    while k < b.len()
        invariant
            k <= b@.len(),
            p == (|x: u8| x == 0),
            forall|j: int| 0 <= j < k ==> !p(#[trigger] b@[j]),
        decreases b.len() - k,
    {
        if b[k] == 0 {
            proof {
                crate::seqs::lemma_first_index(b@, p, k as int);
            }
            return k;
        }
        k = k + 1;
    }
    proof {
        crate::seqs::lemma_first_index(b@, p, k as int);
        assert(b@.take(k as int) =~= b@);
    }
    k
}

/// Decodes a NUL-terminated name; bytes that are not UTF-8 give `fallback`.
pub fn decode_name(b: &[u8], fallback: &str) -> (r: String)
    ensures
        r@ == c_text(b@, fallback@),
{
    let n = c_len(b);
    let part = vstd::slice::slice_subrange(b, 0, n);
    assert(part@ == c_bytes(b@));
    match utf8_text(part) {
        Some(s) => {
            proof {
                vstd::utf8::encode_utf8_decode_utf8(s@);
            }
            s
        },
        None => text::owned(fallback),
    }
}

impl SourceInfo {
    /// The source with its name (or "unknown") and alias (or empty) decoded.
    pub fn from_raw(raw: &PVzSourceInfo) -> (r: SourceInfo)
        ensures
            r.name@ == c_text(raw.name@, "unknown"@),
            r.alias@ == c_text(raw.alias@, ""@),
            r.source == raw.source,
            r.channels == raw.channels,
            r.rate == raw.rate,
            r.sample_format == raw.sample_format,
            r.client == raw.client,
            r.index == raw.index,
            r.mute == raw.mute,
    {
        SourceInfo {
            name: decode_name(raw.name.as_slice(), "unknown"),
            alias: decode_name(raw.alias.as_slice(), ""),
            source: raw.source,
            channels: raw.channels,
            rate: raw.rate,
            sample_format: raw.sample_format,
            client: raw.client,
            index: raw.index,
            mute: raw.mute,
        }
    }
}

/// A filter matches a source when, ignoring case, it occurs in the source's name or
/// alias.
pub open spec fn source_matches(s: SourceInfo, filter: Seq<char>) -> bool {
    contains(lower_case(s.name@), lower_case(filter)) || contains(lower_case(s.alias@), lower_case(filter))
}

pub fn matches_source(s: &SourceInfo, filter: &str) -> (r: bool)
    ensures
        r == source_matches(*s, filter@),
{
    let fl = text::to_lowercase(filter);
    let n = text::to_lowercase(s.name.as_str());
    if text::contains_str(n.as_str(), fl.as_str()) {
        return true;
    }
    let a = text::to_lowercase(s.alias.as_str());
    text::contains_str(a.as_str(), fl.as_str())
}

/// The sources that `filter` matches, in order.
pub fn filter_sources(sources: Vec<SourceInfo>, filter: &str) -> (r: Vec<SourceInfo>)
    ensures
        r@ == sources@.filter(|s: SourceInfo| source_matches(s, filter@)),
{
    let ghost keep = |s: SourceInfo| source_matches(s, filter@);
    let mut out: Vec<SourceInfo> = Vec::new();
    let mut k: usize = 0;
    while k < sources.len()
        invariant
            k <= sources.len(),
            keep == (|s: SourceInfo| source_matches(s, filter@)),
            out@ == sources@.take(k as int).filter(keep),
        decreases sources.len() - k,
    {
        proof {
            reveal(Seq::filter);
            assert(sources@.take(k + 1).drop_last() =~= sources@.take(k as int));
            assert(sources@.take(k + 1).last() == sources@[k as int]);
        }
        if matches_source(&sources[k], filter) {
            out.push(sources[k].clone());
        }
        k = k + 1;
    }
    assert(sources@.take(k as int) =~= sources@);
    out
}

} // verus!
