//! One refresh of a game's server list: the master server's reply, the info
//! replies of the listed servers, and the records of those that answered.

use vstd::prelude::*;
use crate::directory::{parse_server_list, server_list_of, Server, ServerListSegments};
use crate::game::{game_name, Game};
use crate::info::{failed_info, info_matches, parse_server_info, Info};

verus! {

/// Size of the buffer that one reply is received into; longer replies are cut.
pub const RECEIVE_BUFFER_SIZE: usize = 4096;

/// One request/reply exchange. `size` bytes of `buffer` were received;
/// `error` is set when nothing was.
pub struct SendResult {
    pub error: bool,
    pub size: usize,
    pub buffer: [u8; 4096],
}

impl SendResult {
    /// The bytes that were received.
    pub open spec fn received(&self) -> Seq<u8> {
        self.buffer@.take(self.size as int)
    }
}

/// A game server that answered an info query.
pub struct FullServer {
    pub game: String,
    pub ip: u32,
    pub port: u16,
    pub cod_info: String,
}

/// What a `FullServer` holds.
pub struct FullServerView {
    pub game: Seq<char>,
    pub ip: u32,
    pub port: u16,
    pub cod_info: Seq<char>,
}

impl View for FullServer {
    type V = FullServerView;

    open spec fn view(&self) -> FullServerView {
        FullServerView { game: self.game@, ip: self.ip, port: self.port, cod_info: self.cod_info@ }
    }
}

/// The views of a sequence of records.
pub open spec fn full_views(v: Seq<FullServer>) -> Seq<FullServerView> {
    v.map_values(|f: FullServer| f@)
}

/// The records of the game `game` for the servers whose info query (the
/// info at the same position) succeeded, in order.
pub open spec fn full_servers_of(game: Seq<char>, servers: Seq<Server>, infos: Seq<Info>) -> Seq<FullServerView>
    decreases servers.len(),
{
    if servers.len() == 0 || infos.len() == 0 {
        seq![]
    } else {
        let rest = full_servers_of(game, servers.drop_last(), infos.drop_last());
        if infos.last().error {
            rest
        } else {
            rest.push(
                FullServerView {
                    game,
                    ip: servers.last().ip,
                    port: servers.last().port,
                    cod_info: infos.last().text@,
                },
            )
        }
    }
}

/// The server list in the master server's reply. A failed exchange gives an
/// empty list.
pub fn get_servers(reply: &SendResult) -> (res: ServerListSegments)
    requires
        reply.size <= RECEIVE_BUFFER_SIZE,
    ensures
        res@ == server_list_of(reply.received()),
        reply.error && reply.size == 0 ==> res@.servers.len() == 0,
{
    parse_server_list(reply.buffer.as_slice(), reply.size)
}

/// The status of a game server from its reply to an info query. A failed
/// exchange, a reply without the marker or text that is no UTF-8 gives a
/// failed `Info`.
pub fn get_server_info(reply: &SendResult) -> (res: Info)
    requires
        reply.size <= RECEIVE_BUFFER_SIZE,
    ensures
        reply.error ==> res.error && res.text@ == Seq::<char>::empty(),
        !reply.error ==> info_matches(res, reply.received()),
{
    if reply.error {
        return failed_info();
    }
    parse_server_info(reply.buffer.as_slice(), reply.size)
}

/// The records of `game` for the listed `servers`, given the outcome of each
/// one's info query (`infos[i]` for `servers[i]`): one record per success,
/// none for a failure.
pub fn get_servers_full(game: Game, servers: &Vec<Server>, infos: &Vec<Info>) -> (r: Vec<FullServer>)
    requires
        servers@.len() == infos@.len(),
    ensures
        full_views(r@) == full_servers_of(game_name(game), servers@, infos@),
{
    let name = game.name();
    let mut r: Vec<FullServer> = Vec::new();
    let mut i: usize = 0;
    while i < servers.len()
        invariant
            i <= servers@.len() == infos@.len(),
            name@ == game_name(game),
            full_views(r@) == full_servers_of(game_name(game), servers@.take(i as int), infos@.take(i as int)),
        decreases servers@.len() - i,
    {
        assert(servers@.take(i + 1).drop_last() == servers@.take(i as int));
        assert(infos@.take(i + 1).drop_last() == infos@.take(i as int));
        let info = &infos[i];
        if !info.error {
            let s = servers[i];
            let ghost before = r@;
            r.push(FullServer { game: name.clone(), ip: s.ip, port: s.port, cod_info: info.text.clone() });
            assert(full_views(r@) == full_views(before).push(r@.last()@));
        }
        i = i + 1;
    }
    assert(servers@.take(servers@.len() as int) == servers@);
    assert(infos@.take(infos@.len() as int) == infos@);
    r
}

} // verus!
