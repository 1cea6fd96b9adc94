//! Replies of the master server: the list of registered game servers.

use vstd::prelude::*;
use crate::segment::{byte_rows, segments, split_segments, DELIMITER, MARKER};

verus! {

/// An IPv4 host, as the number whose big-endian bytes are its octets, and a port.
#[derive(Clone, Copy, PartialEq, Eq, Structural, Debug)]
pub struct Server {
    pub ip: u32,
    pub port: u16,
}

/// A parsed master-server reply.
pub struct ServerListSegments {
    /// The marker bytes that were received, at most four.
    pub header: Vec<u8>,
    /// The first segment, the echoed command.
    pub command: Vec<u8>,
    /// Every later segment of six bytes, as an address, in order of arrival.
    pub servers: Vec<Server>,
    /// Every later segment of another length, kept as it came.
    pub invalid: Vec<Vec<u8>>,
}

/// What a `ServerListSegments` holds.
pub struct ServerList {
    pub header: Seq<u8>,
    pub command: Seq<u8>,
    pub servers: Seq<Server>,
    pub invalid: Seq<Seq<u8>>,
}

impl View for ServerListSegments {
    type V = ServerList;

    open spec fn view(&self) -> ServerList {
        ServerList {
            header: self.header@,
            command: self.command@,
            servers: self.servers@,
            invalid: byte_rows(self.invalid@),
        }
    }
}

/// Whether `r` starts with the four marker bytes.
pub open spec fn has_marker(r: Seq<u8>) -> bool {
    &&& r.len() >= 4
    &&& r[0] == MARKER
    &&& r[1] == MARKER
    &&& r[2] == MARKER
    &&& r[3] == MARKER
}

/// How many marker bytes `r` starts with, counting at most four.
pub open spec fn marker_len(r: Seq<u8>) -> nat {
    if r.len() < 1 || r[0] != MARKER {
        0
    } else if r.len() < 2 || r[1] != MARKER {
        1
    } else if r.len() < 3 || r[2] != MARKER {
        2
    } else if r.len() < 4 || r[3] != MARKER {
        3
    } else {
        4
    }
}

/// The address that a six-byte segment holds: four octets in network order,
/// then the port, big-endian.
pub open spec fn address_of(seg: Seq<u8>) -> Server {
    Server {
        ip: (seg[0] * 0x100_0000 + seg[1] * 0x1_0000 + seg[2] * 0x100 + seg[3]) as u32,
        port: (seg[4] * 0x100 + seg[5]) as u16,
    }
}

/// Whether a segment after the command is an address.
pub open spec fn is_address_segment(seg: Seq<u8>) -> bool {
    seg.len() == 6
}

/// The addresses among `segs`, in order.
pub open spec fn addresses_in(segs: Seq<Seq<u8>>) -> Seq<Server> {
    segs.filter(|s: Seq<u8>| is_address_segment(s)).map_values(|s: Seq<u8>| address_of(s))
}

/// The segments among `segs` that are no address, in order.
pub open spec fn invalid_in(segs: Seq<Seq<u8>>) -> Seq<Seq<u8>> {
    segs.filter(|s: Seq<u8>| !is_address_segment(s))
}

/// What the master-server reply `r` (the received bytes only) says.
pub open spec fn server_list_of(r: Seq<u8>) -> ServerList {
    let header = r.take(marker_len(r) as int);
    let segs = segments(r.skip(4), DELIMITER);
    if !has_marker(r) || segs.len() == 0 {
        ServerList { header, command: seq![], servers: seq![], invalid: seq![] }
    } else {
        ServerList {
            header,
            command: segs[0],
            servers: addresses_in(segs.skip(1)),
            invalid: invalid_in(segs.skip(1)),
        }
    }
}

/// Reads the address in a six-byte segment.
pub fn parse_address(seg: &[u8]) -> (r: Server)
    requires
        seg@.len() == 6,
    ensures
        r == address_of(seg@),
{
    let ip: u32 = (seg[0] as u32) * 0x100_0000 + (seg[1] as u32) * 0x1_0000 + (seg[2] as u32)
        * 0x100 + seg[3] as u32;
    let port: u16 = (seg[4] as u16) * 0x100 + seg[5] as u16;
    Server { ip, port }
}

/// Counts the marker bytes at the start of `r`, at most four.
fn leading_markers(r: &[u8], len: usize) -> (n: usize)
    requires
        len <= r@.len(),
    ensures
        n == marker_len(r@.take(len as int)),
{
    let mut n: usize = 0;
    while n < 4 && n < len && r[n] == MARKER
        invariant
            n <= 4,
            n <= len <= r@.len(),
            forall|j: int| 0 <= j < n ==> r@[j] == MARKER,
        decreases 4 - n,
    {
        n = n + 1;
    }
    n
}

/// Parses the first `len` bytes of `r` as a master-server reply. A reply
/// without the marker gives an empty list; segments of the wrong length are
/// set aside in `invalid`.
pub fn parse_server_list(r: &[u8], len: usize) -> (res: ServerListSegments)
    requires
        len <= r@.len(),
    ensures
        res@ == server_list_of(r@.take(len as int)),
{
    let ghost rr = r@.take(len as int);
    let n = leading_markers(r, len);
    let mut header: Vec<u8> = Vec::new();
    let mut k: usize = 0;
    while k < n
        invariant
            k <= n <= len <= r@.len(),
            header@ == rr.take(k as int),
            rr == r@.take(len as int),
        decreases n - k,
    {
        header.push(r[k]);
        k = k + 1;
    }
    let mut res = ServerListSegments {
        header,
        command: Vec::new(),
        servers: Vec::new(),
        invalid: Vec::new(),
    };
    assert(byte_rows(res.invalid@) == Seq::<Seq<u8>>::empty());
    if n < 4 {
        return res;
    }
    let segs = split_segments(r, 4, len, DELIMITER);
    assert(r@.subrange(4, len as int) == rr.skip(4));
    if segs.len() == 0 {
        return res;
    }
    let ghost all = byte_rows(segs@);
    res.command = segs[0].clone();
    assert(res.command@ =~= all[0]);
    let mut i: usize = 1;
    while i < segs.len()
        invariant
            1 <= i <= segs@.len(),
            all == byte_rows(segs@),
            all == segments(rr.skip(4), DELIMITER),
            has_marker(rr),
            rr == r@.take(len as int),
            res.header@ == rr.take(marker_len(rr) as int),
            res.command@ == all[0],
            res.servers@ == addresses_in(all.subrange(1, i as int)),
            byte_rows(res.invalid@) == invalid_in(all.subrange(1, i as int)),
        decreases segs@.len() - i,
    {
        let seg = &segs[i];
        let ghost done = all.subrange(1, i as int);
        assert(all.subrange(1, i + 1).drop_last() == done);
        assert(all.subrange(1, i + 1).last() == seg@);
        reveal(Seq::filter);
        if seg.len() == 6 {
            let a = parse_address(seg.as_slice());
            res.servers.push(a);
        } else {
            let ghost before = res.invalid@;
            res.invalid.push(seg.clone());
            assert(byte_rows(res.invalid@) == byte_rows(before).push(seg@));
        }
        i = i + 1;
    }
    assert(all.subrange(1, all.len() as int) == all.skip(1));
    res
}

} // verus!
