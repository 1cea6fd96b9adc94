//! Properties that relate the parsers and the assembly of records.

use vstd::prelude::*;
use crate::directory::{has_marker, is_address_segment, server_list_of, Server, ServerListSegments};
use crate::info::{info_matches, info_text_of, Info};
use crate::query::full_servers_of;
use crate::segment::{segments, DELIMITER};

verus! {

/// When `q` keeps exactly what `p` drops, the two filters of `s` together are
/// as long as `s`.
pub proof fn lemma_filter_split<A>(s: Seq<A>, p: spec_fn(A) -> bool, q: spec_fn(A) -> bool)
    requires
        forall|x: A| #[trigger] q(x) == !p(x),
    ensures
        s.filter(p).len() + s.filter(q).len() == s.len(),
    decreases s.len(),
{
    reveal(Seq::filter);
    if s.len() > 0 {
        lemma_filter_split(s.drop_last(), p, q);
    }
}

/// A reply that does not start with the four marker bytes lists no server,
/// no command and no invalid segment, and carries no status text.
pub proof fn missing_marker_yields_nothing(r: Seq<u8>)
    requires
        !has_marker(r),
    ensures
        server_list_of(r).servers.len() == 0,
        server_list_of(r).invalid.len() == 0,
        server_list_of(r).command.len() == 0,
        info_text_of(r) is None,
{
}

/// In a reply with the marker, whose body closes the command segment and then
/// `k` segments of six bytes and `m` of another length, in any order, the
/// list holds `k` servers and `m` invalid segments.
pub proof fn segment_counts(r: Seq<u8>)
    requires
        has_marker(r),
        segments(r.skip(4), DELIMITER).len() > 0,
    ensures
        ({
            let later = segments(r.skip(4), DELIMITER).skip(1);
            let k = later.filter(|s: Seq<u8>| is_address_segment(s)).len();
            let m = later.filter(|s: Seq<u8>| !is_address_segment(s)).len();
            &&& server_list_of(r).servers.len() == k
            &&& server_list_of(r).invalid.len() == m
            &&& k + m == later.len()
        }),
{
    let later = segments(r.skip(4), DELIMITER).skip(1);
    lemma_filter_split(
        later,
        |s: Seq<u8>| is_address_segment(s),
        |s: Seq<u8>| !is_address_segment(s),
    );
}

/// Parsing is a function of the bytes alone: two server lists parsed from the
/// same bytes are equal, and so are two infos.
pub proof fn parsing_is_deterministic(
    bytes: Seq<u8>,
    a: ServerListSegments,
    b: ServerListSegments,
    x: Info,
    y: Info,
)
    requires
        a@ == server_list_of(bytes),
        b@ == server_list_of(bytes),
        info_matches(x, bytes),
        info_matches(y, bytes),
    ensures
        a@ == b@,
        x.error == y.error,
        x.text@ == y.text@,
{
}

/// Of `n` listed servers, at most `n` get a record, and exactly as many as
/// there are successful info queries.
pub proof fn records_count_successes(game: Seq<char>, servers: Seq<Server>, infos: Seq<Info>)
    requires
        servers.len() == infos.len(),
    ensures
        full_servers_of(game, servers, infos).len() <= servers.len(),
        full_servers_of(game, servers, infos).len() == infos.filter(|i: Info| !i.error).len(),
    decreases servers.len(),
{
    reveal(Seq::filter);
    if servers.len() > 0 {
        records_count_successes(game, servers.drop_last(), infos.drop_last());
    }
}

} // verus!
