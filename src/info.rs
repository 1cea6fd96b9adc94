//! Replies of a game server to an info query: its status text.

use vstd::prelude::*;
use vstd::utf8::{decode_utf8, valid_utf8};
use crate::directory::has_marker;
use crate::segment::{DELIMITER, MARKER};

verus! {

/// The outcome of one info query. `error` is set when the query failed; the
/// text is then empty.
pub struct Info {
    pub error: bool,
    pub text: String,
}

/// The bytes after the first `delim` in `s` (none when `s` holds no `delim`).
pub open spec fn after_first(s: Seq<u8>, delim: u8) -> Seq<u8>
    decreases s.len(),
{
    if s.len() == 0 {
        s
    } else if s[0] == delim {
        s.skip(1)
    } else {
        after_first(s.skip(1), delim)
    }
}

/// `s` without the zero bytes at its end.
pub open spec fn strip_trailing_nul(s: Seq<u8>) -> Seq<u8>
    decreases s.len(),
{
    if s.len() > 0 && s.last() == 0 {
        strip_trailing_nul(s.drop_last())
    } else {
        s
    }
}

/// The status text that the info reply `r` (the received bytes only) carries:
/// the bytes after the first delimiter past the marker, without trailing
/// zero bytes, read as UTF-8. None when the marker is missing or the text is no
/// valid UTF-8.
pub open spec fn info_text_of(r: Seq<u8>) -> Option<Seq<char>> {
    let t = strip_trailing_nul(after_first(r.skip(4), DELIMITER));
    if has_marker(r) && valid_utf8(t) {
        Some(decode_utf8(t))
    } else {
        None
    }
}

/// The `Info` that the info reply `r` gives.
pub open spec fn info_matches(res: Info, r: Seq<u8>) -> bool {
    match info_text_of(r) {
        Some(t) => !res.error && res.text@ == t,
        None => res.error && res.text@ == Seq::<char>::empty(),
    }
}

/// Relies on String::from_utf8: it succeeds exactly on valid UTF-8 and then
/// holds the decoded characters.
#[verifier::external_body]
fn decode_text(b: Vec<u8>) -> (r: Option<String>)
    ensures
        r.is_some() == valid_utf8(b@),
        r.is_some() ==> r.unwrap()@ == decode_utf8(b@),
{
    String::from_utf8(b).ok()
}

/// The failed query.
pub fn failed_info() -> (res: Info)
    ensures
        res.error,
        res.text@ == Seq::<char>::empty(),
{
    Info { error: true, text: String::new() }
}

/// Parses the first `len` bytes of `r` as an info reply.
pub fn parse_server_info(r: &[u8], len: usize) -> (res: Info)
    requires
        len <= r@.len(),
    ensures
        info_matches(res, r@.take(len as int)),
{
    let ghost rr = r@.take(len as int);
    if len < 4 || r[0] != MARKER || r[1] != MARKER || r[2] != MARKER || r[3] != MARKER {
        return failed_info();
    }
    // skip the echoed command, up to and including the first delimiter
    let mut j: usize = 4;
    while j < len && r[j] != DELIMITER
        invariant
            4 <= j <= len <= r@.len(),
            rr == r@.take(len as int),
            after_first(rr.skip(4), DELIMITER) == after_first(rr.subrange(j as int, len as int), DELIMITER),
        decreases len - j,
    {
        assert(rr.subrange(j as int, len as int).skip(1) == rr.subrange(j + 1, len as int));
        j = j + 1;
    }
    let start: usize = if j < len { j + 1 } else { len };
    if j < len {
        assert(rr.subrange(j as int, len as int).skip(1) == rr.subrange(start as int, len as int));
    } else {
        assert(rr.subrange(j as int, len as int) == rr.subrange(start as int, len as int));
    }
    assert(after_first(rr.skip(4), DELIMITER) == rr.subrange(start as int, len as int));
    // drop the zero padding at the end
    let mut e: usize = len;
    while e > start && r[e - 1] == 0
        invariant
            start <= e <= len <= r@.len(),
            rr == r@.take(len as int),
            strip_trailing_nul(rr.subrange(start as int, e as int)) == strip_trailing_nul(rr.subrange(start as int, len as int)),
        decreases e,
    {
        assert(rr.subrange(start as int, e as int).drop_last() == rr.subrange(start as int, e - 1));
        e = e - 1;
    }
    let mut payload: Vec<u8> = Vec::new();
    let mut k: usize = start;
    while k < e
        invariant
            start <= k <= e <= len <= r@.len(),
            rr == r@.take(len as int),
            payload@ == rr.subrange(start as int, k as int),
        decreases e - k,
    {
        payload.push(r[k]);
        k = k + 1;
    }
    assert(strip_trailing_nul(payload@) == payload@);
    match decode_text(payload) {
        Some(text) => Info { error: false, text },
        None => failed_info(),
    }
}

} // verus!
