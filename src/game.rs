//! The game families whose servers are listed.

use vstd::prelude::*;

verus! {

/// A game family known to the master server.
#[derive(Clone, Copy, PartialEq, Eq, Structural, Debug)]
pub enum Game {
    IW4,
    IW6,
    S1,
}

/// The game and protocol that a server-list request names.
pub open spec fn game_token(g: Game) -> Seq<char> {
    match g {
        Game::IW4 => "IW4 150"@,
        Game::IW6 => "IW6 1"@,
        Game::S1 => "S1 1"@,
    }
}

/// The short name of a game, as records and cache files carry it.
pub open spec fn game_name(g: Game) -> Seq<char> {
    match g {
        Game::IW4 => "iw4x"@,
        Game::IW6 => "iw6x"@,
        Game::S1 => "s1x"@,
    }
}

impl Game {
    /// The game and protocol that a server-list request names.
    pub fn token(&self) -> (r: &'static str)
        ensures
            r@ == game_token(*self),
    {
        match self {
            Game::IW4 => "IW4 150",
            Game::IW6 => "IW6 1",
            Game::S1 => "S1 1",
        }
    }

    /// The short name of the game.
    pub fn name(&self) -> (r: String)
        ensures
            r@ == game_name(*self),
    {
        let s = match self {
            Game::IW4 => "iw4x",
            Game::IW6 => "iw6x",
            Game::S1 => "s1x",
        };
        s.to_string()
    }
}

/// The games that one refresh cycle covers, in the order they are queried.
pub fn cache_servers_all() -> (r: Vec<Game>)
    ensures
        r@ == seq![Game::IW4, Game::IW6, Game::S1],
{
    vec![Game::IW4, Game::IW6, Game::S1]
}

} // verus!
