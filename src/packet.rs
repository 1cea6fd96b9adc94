//! The two requests: the master server's server list and a game server's info.

use vstd::prelude::*;
use vstd::string::StringSliceAdditionalSpecFns;
use crate::segment::MARKER;

verus! {

/// Size of a server-list request on the wire.
pub const DIRECTORY_REQUEST_SIZE: usize = 64;

/// Size of an info request on the wire.
pub const INFO_REQUEST_SIZE: usize = 20;

/// A request of `size` bytes: the four marker bytes, then as much of `body` as
/// fits, then zero bytes.
pub open spec fn framed(body: Seq<u8>, size: nat) -> Seq<u8> {
    Seq::new(
        size,
        |i: int|
            if i < 4 {
                MARKER
            } else if i - 4 < body.len() {
                body[i - 4]
            } else {
                0u8
            },
    )
}

/// The body of a server-list request for the game and protocol named by `token`.
pub open spec fn directory_body(token: Seq<u8>) -> Seq<u8> {
    "getservers\n".spec_bytes() + token + " full empty".spec_bytes()
}

/// The body of an info request carrying `challenge`.
pub open spec fn info_body(challenge: Seq<u8>) -> Seq<u8> {
    "getinfo ".spec_bytes() + challenge
}

/// Appends the bytes of `s` to `v`.
pub(crate) fn append_bytes(v: &mut Vec<u8>, s: &[u8])
    ensures
        final(v)@ == old(v)@ + s@,
{
    let mut i: usize = 0;
    while i < s.len()
        invariant
            i <= s@.len(),
            v@ == old(v)@ + s@.take(i as int),
        decreases s@.len() - i,
    {
        v.push(s[i]);
        i = i + 1;
    }
    assert(s@.take(s@.len() as int) == s@);
}

/// Frames `body` into a request of `size` bytes; what does not fit is cut off.
pub fn frame_request(body: &[u8], size: usize) -> (r: Vec<u8>)
    ensures
        r@ == framed(body@, size as nat),
{
    let mut r: Vec<u8> = Vec::new();
    let mut i: usize = 0;
    while i < size
        invariant
            i <= size,
            r@ == framed(body@, size as nat).take(i as int),
        decreases size - i,
    {
        let b: u8 = if i < 4 {
            MARKER
        } else if i - 4 < body.len() {
            body[i - 4]
        } else {
            0
        };
        r.push(b);
        i = i + 1;
    }
    assert(framed(body@, size as nat).take(size as int) == framed(body@, size as nat));
    r
}

/// The server-list request for the game and protocol named by `token`
/// (such as "IW4 150").
pub fn build_directory_request(token: &str) -> (r: Vec<u8>)
    ensures
        r@ == framed(directory_body(token.spec_bytes()), DIRECTORY_REQUEST_SIZE as nat),
{
    let mut body: Vec<u8> = Vec::new();
    append_bytes(&mut body, "getservers\n".as_bytes());
    append_bytes(&mut body, token.as_bytes());
    append_bytes(&mut body, " full empty".as_bytes());
    frame_request(body.as_slice(), DIRECTORY_REQUEST_SIZE)
}

/// The info request carrying `challenge`.
pub fn build_info_request(challenge: &[u8]) -> (r: Vec<u8>)
    ensures
        r@ == framed(info_body(challenge@), INFO_REQUEST_SIZE as nat),
{
    let mut body: Vec<u8> = Vec::new();
    append_bytes(&mut body, "getinfo ".as_bytes());
    append_bytes(&mut body, challenge);
    frame_request(body.as_slice(), INFO_REQUEST_SIZE)
}

} // verus!
