//! Splitting a reply body into delimiter-terminated segments.

use vstd::prelude::*;

verus! {

/// Every reply starts with four bytes of this value.
pub const MARKER: u8 = 0xFF;

/// The byte that closes each segment of a reply body.
pub const DELIMITER: u8 = 0x5C;

/// The segments closed so far by `delim` in `s`, in order. Bytes after the
/// last delimiter belong to no segment.
pub open spec fn segments(s: Seq<u8>, delim: u8) -> Seq<Seq<u8>>
    decreases s.len(),
{
    if s.len() == 0 {
        seq![]
    } else if s.last() == delim {
        segments(s.drop_last(), delim).push(open_segment(s.drop_last(), delim))
    } else {
        segments(s.drop_last(), delim)
    }
}

/// The bytes after the last `delim` in `s` (all of `s` when it holds none).
pub open spec fn open_segment(s: Seq<u8>, delim: u8) -> Seq<u8>
    decreases s.len(),
{
    if s.len() == 0 {
        seq![]
    } else if s.last() == delim {
        seq![]
    } else {
        open_segment(s.drop_last(), delim).push(s.last())
    }
}

/// The views of a vector of byte vectors.
pub open spec fn byte_rows(v: Seq<Vec<u8>>) -> Seq<Seq<u8>> {
    v.map_values(|r: Vec<u8>| r@)
}

/// Splits `bytes[start..end]` into the segments that `delim` closes; the
/// unterminated tail is dropped.
pub fn split_segments(bytes: &[u8], start: usize, end: usize, delim: u8) -> (r: Vec<Vec<u8>>)
    requires
        start <= end <= bytes@.len(),
    ensures
        byte_rows(r@) == segments(bytes@.subrange(start as int, end as int), delim),
{
    let ghost s = bytes@.subrange(start as int, end as int);
    let mut out: Vec<Vec<u8>> = Vec::new();
    let mut cur: Vec<u8> = Vec::new();
    let mut i: usize = start;
    while i < end
        invariant
            start <= i <= end <= bytes@.len(),
            s == bytes@.subrange(start as int, end as int),
            byte_rows(out@) == segments(s.take(i - start), delim),
            cur@ == open_segment(s.take(i - start), delim),
        decreases end - i,
    {
        let b = bytes[i];
        let ghost p = s.take(i - start);
        assert(s.take(i + 1 - start).drop_last() == p);
        assert(s.take(i + 1 - start).last() == b);
        if b == delim {
            let ghost before = out@;
            let done = cur;
            cur = Vec::new();
            out.push(done);
            assert(byte_rows(out@) == byte_rows(before).push(done@));
        } else {
            cur.push(b);
        }
        i = i + 1;
    }
    assert(s.take(end - start) == s);
    out
}

} // verus!
