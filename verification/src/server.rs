use vstd::prelude::*;
use std::collections::HashMap;
use crate::player::Player;
use vstd::std_specs::hash::spec_hash_map_iter;
use vstd::std_specs::iter::IteratorSpec;

verus! {

broadcast use vstd::std_specs::hash::group_hash_axioms;

/// The size of a game's field.
#[derive(Clone, Copy, Debug, PartialEq, Eq, Structural)]
pub struct FieldSize {
    pub width: u32,
    pub height: u32,
}

/// A game that waits for a second player.
#[derive(Clone, Copy, Debug, PartialEq, Eq, Structural)]
pub struct OpenGame {
    pub player_id: u128,
    pub size: FieldSize,
}

/// A game between two players (its field is kept by the server).
#[derive(Clone, Copy, Debug, PartialEq, Eq, Structural)]
pub struct Game {
    pub red_player_id: u128,
    pub black_player_id: u128,
    pub size: FieldSize,
}

impl Game {
    /// The side that `player_id` plays in this game, red first.
    pub open spec fn spec_color(self, player_id: u128) -> Option<Player> {
        if player_id == self.red_player_id {
            Some(Player::Red)
        } else if player_id == self.black_player_id {
            Some(Player::Black)
        } else {
            None
        }
    }

    /// The side that `player_id` plays in this game, if any.
    pub fn color(&self, player_id: u128) -> (r: Option<Player>)
        ensures
            r == self.spec_color(player_id),
    {
        if player_id == self.red_player_id {
            Some(Player::Red)
        } else if player_id == self.black_player_id {
            Some(Player::Black)
        } else {
            None
        }
    }
}

/// A request of a connected player.
#[derive(Clone, Copy, Debug, PartialEq, Eq, Structural)]
pub enum Request {
    /// Open a new game with a fresh id.
    Create { game_id: u128, size: FieldSize },
    /// Join an open game.
    Join { game_id: u128 },
    /// Watch a game.
    Subscribe { game_id: u128 },
    /// Stop watching a game.
    Unsubscribe { game_id: u128 },
    /// Put a point on a game's field.
    PutPoint { game_id: u128, x: u32, y: u32 },
}

/// Why a request is refused; a refused request ends the connection.
#[derive(Clone, Copy, Debug, PartialEq, Eq, Structural)]
pub enum RequestError {
    /// The player does not play in the game.
    PutPointNotAllowed,
    /// There is no such game.
    NoGameToPutPoint,
    /// The field refused the point.
    WrongPosition,
}

impl RequestError {
    /// The text of the error.
    pub open spec fn spec_message(self) -> Seq<char> {
        match self {
            RequestError::PutPointNotAllowed => "putting point is not allowed"@,
            RequestError::NoGameToPutPoint => "no game to put point"@,
            RequestError::WrongPosition => "putting point on a wrong position"@,
        }
    }

    /// The text of the error.
    pub fn message(&self) -> (r: &'static str)
        ensures
            r@ == self.spec_message(),
    {
        match self {
            RequestError::PutPointNotAllowed => "putting point is not allowed",
            RequestError::NoGameToPutPoint => "no game to put point",
            RequestError::WrongPosition => "putting point on a wrong position",
        }
    }
}

/// What the server has to do outside the lobby after a request.
#[derive(Clone, Copy, Debug, PartialEq, Eq, Structural)]
pub enum Effect {
    /// Nothing.
    Nothing,
    /// A game started: create its field.
    GameStarted { game_id: u128, game: Game },
    /// Put a point of `player` on the field of the game.
    PutPoint { game_id: u128, player: Player, x: u32, y: u32 },
}

/// The lobby as maps from game ids.
#[verifier::ext_equal]
pub struct LobbyView {
    pub open_games: Map<u128, OpenGame>,
    pub games: Map<u128, Game>,
}

/// The games of a server: those waiting for a second player and those being played.
pub struct Lobby {
    open_games: HashMap<u128, OpenGame>,
    games: HashMap<u128, Game>,
}

impl View for Lobby {
    type V = LobbyView;

    closed spec fn view(&self) -> LobbyView {
        LobbyView { open_games: self.open_games@, games: self.games@ }
    }
}

/// The state of the lobby after `player_id` made `request`, and what the request
/// leads to.
pub open spec fn spec_handle(lobby: LobbyView, player_id: u128, request: Request) -> (
    LobbyView,
    Result<Effect, RequestError>,
) {
    match request {
        Request::Create { game_id, size } => (
            LobbyView {
                open_games: lobby.open_games.insert(game_id, OpenGame { player_id, size }),
                games: lobby.games,
            },
            Ok(Effect::Nothing),
        ),
        Request::Join { game_id } => if lobby.open_games.contains_key(game_id) {
            let open = lobby.open_games[game_id];
            let game = Game {
                red_player_id: open.player_id,
                black_player_id: player_id,
                size: open.size,
            };
            (
                LobbyView {
                    open_games: lobby.open_games.remove(game_id),
                    games: lobby.games.insert(game_id, game),
                },
                Ok(Effect::GameStarted { game_id, game }),
            )
        } else {
            (lobby, Ok(Effect::Nothing))
        },
        Request::Subscribe { .. } => (lobby, Ok(Effect::Nothing)),
        Request::Unsubscribe { .. } => (lobby, Ok(Effect::Nothing)),
        Request::PutPoint { game_id, x, y } => if lobby.games.contains_key(game_id) {
            match lobby.games[game_id].spec_color(player_id) {
                Some(player) => (lobby, Ok(Effect::PutPoint { game_id, player, x, y })),
                None => (lobby, Err(RequestError::PutPointNotAllowed)),
            }
        } else {
            (lobby, Err(RequestError::NoGameToPutPoint))
        },
    }
}

impl Lobby {
    /// A lobby without games.
    pub fn new() -> (l: Lobby)
        ensures
            l@.open_games == Map::<u128, OpenGame>::empty(),
            l@.games == Map::<u128, Game>::empty(),
    {
        Lobby { open_games: HashMap::new(), games: HashMap::new() }
    }

    /// Carries out a request of `player_id`: creating a game opens it under its id
    /// (replacing any open game with that id); joining an open game removes it from
    /// the open games and starts it with its creator as red and the joining player
    /// as black (joining a game that is not open does nothing); putting a point is
    /// allowed to the two players of a started game, each with their side.
    pub fn handle(&mut self, player_id: u128, request: Request) -> (r: Result<Effect, RequestError>)
        ensures
            (final(self)@, r) == spec_handle(old(self)@, player_id, request),
    {
        match request {
            Request::Create { game_id, size } => {
                let _replaced = self.open_games.insert(game_id, OpenGame { player_id, size });
                Ok(Effect::Nothing)
            },
            Request::Join { game_id } => {
                match self.open_games.remove(&game_id) {
                    Some(open) => {
                        let game = Game {
                            red_player_id: open.player_id,
                            black_player_id: player_id,
                            size: open.size,
                        };
                        self.games.insert(game_id, game);
                        Ok(Effect::GameStarted { game_id, game })
                    },
                    None => Ok(Effect::Nothing),
                }
            },
            Request::Subscribe { .. } => Ok(Effect::Nothing),
            Request::Unsubscribe { .. } => Ok(Effect::Nothing),
            Request::PutPoint { game_id, x, y } => {
                match self.games.get(&game_id) {
                    Some(game) => match game.color(player_id) {
                        Some(player) => Ok(Effect::PutPoint { game_id, player, x, y }),
                        None => Err(RequestError::PutPointNotAllowed),
                    },
                    None => Err(RequestError::NoGameToPutPoint),
                }
            },
        }
    }
}

/// A game as it is announced to a player who connects: its id and field size.
#[derive(Clone, Copy, Debug, PartialEq, Eq, Structural)]
pub struct GameSummary {
    pub game_id: u128,
    pub size: FieldSize,
}

/// `r` lists each open game of `m` once, with its size, in some order.
pub open spec fn lists_open_games(r: Seq<GameSummary>, m: Map<u128, OpenGame>) -> bool {
    &&& r.len() == m.dom().len()
    &&& forall|i: int, j: int| 0 <= i < j < r.len() ==> #[trigger] r[i].game_id != #[trigger] r[j].game_id
    &&& forall|i: int|
        0 <= i < r.len() ==> m.contains_key(#[trigger] r[i].game_id) && m[r[i].game_id].size
            == r[i].size
    &&& forall|k: u128| m.contains_key(k) ==> exists|i: int| 0 <= i < r.len() && #[trigger] r[i].game_id == k
}

/// `r` lists each started game of `m` once, with its size, in some order.
pub open spec fn lists_games(r: Seq<GameSummary>, m: Map<u128, Game>) -> bool {
    &&& r.len() == m.dom().len()
    &&& forall|i: int, j: int| 0 <= i < j < r.len() ==> #[trigger] r[i].game_id != #[trigger] r[j].game_id
    &&& forall|i: int|
        0 <= i < r.len() ==> m.contains_key(#[trigger] r[i].game_id) && m[r[i].game_id].size
            == r[i].size
    &&& forall|k: u128| m.contains_key(k) ==> exists|i: int| 0 <= i < r.len() && #[trigger] r[i].game_id == k
}

/// What putting a point comes to, given whether the field accepted it.
pub fn put_point_result(accepted: bool) -> (r: Result<(), RequestError>)
    ensures
        r == if accepted {
            Ok::<(), RequestError>(())
        } else {
            Err(RequestError::WrongPosition)
        },
{
    if accepted {
        Ok(())
    } else {
        Err(RequestError::WrongPosition)
    }
}

impl Lobby {
    /// The open games, each with its size, in the map's order.
    pub fn open_game_summaries(&self) -> (r: Vec<GameSummary>)
        ensures
            lists_open_games(r@, self@.open_games),
    {
        let mut r: Vec<GameSummary> = Vec::new();
        let ghost v = spec_hash_map_iter(&self.open_games).remaining();
        let entries = self.open_games.iter();
        assert(v.no_duplicates());
        for entry in it: entries
            invariant
                it.seq() == v,
                r@.len() == it.index(),
                forall|i: int|
                    0 <= i < it.index() ==> (#[trigger] r@[i]).game_id == *it.seq()[i].0
                        && r@[i].size == it.seq()[i].1.size,
        {
            let (id, open) = entry;
            r.push(GameSummary { game_id: *id, size: open.size });
        }
        proof {
            assert forall|k: u128| self@.open_games.contains_key(k) implies exists|i: int|
                0 <= i < r@.len() && #[trigger] r@[i].game_id == k by {
                assert(v.contains((&k, &self@.open_games[k])));
                let i = choose|i: int| 0 <= i < v.len() && v[i] == (&k, &self@.open_games[k]);
                assert(r@[i].game_id == k);
            }
            assert forall|i: int, j: int| 0 <= i < j < r@.len() implies #[trigger] r@[i].game_id
                != #[trigger] r@[j].game_id by {
                if r@[i].game_id == r@[j].game_id {
                    assert(self@.open_games.contains_key(*v[i].0));
                    assert(self@.open_games.contains_key(*v[j].0));
                    assert(v[i] == v[j]);
                }
            }
        }
        r
    }

    /// The started games, each with its size, in the map's order.
    pub fn game_summaries(&self) -> (r: Vec<GameSummary>)
        ensures
            lists_games(r@, self@.games),
    {
        let mut r: Vec<GameSummary> = Vec::new();
        let ghost v = spec_hash_map_iter(&self.games).remaining();
        let entries = self.games.iter();
        assert(v.no_duplicates());
        for entry in it: entries
            invariant
                it.seq() == v,
                r@.len() == it.index(),
                forall|i: int|
                    0 <= i < it.index() ==> (#[trigger] r@[i]).game_id == *it.seq()[i].0
                        && r@[i].size == it.seq()[i].1.size,
        {
            let (id, game) = entry;
            r.push(GameSummary { game_id: *id, size: game.size });
        }
        proof {
            assert forall|k: u128| self@.games.contains_key(k) implies exists|i: int|
                0 <= i < r@.len() && #[trigger] r@[i].game_id == k by {
                assert(v.contains((&k, &self@.games[k])));
                let i = choose|i: int| 0 <= i < v.len() && v[i] == (&k, &self@.games[k]);
                assert(r@[i].game_id == k);
            }
            assert forall|i: int, j: int| 0 <= i < j < r@.len() implies #[trigger] r@[i].game_id
                != #[trigger] r@[j].game_id by {
                if r@[i].game_id == r@[j].game_id {
                    assert(self@.games.contains_key(*v[i].0));
                    assert(self@.games.contains_key(*v[j].0));
                    assert(v[i] == v[j]);
                }
            }
        }
        r
    }
}

// ---------------------------------------------------------------------------
// Laws
// ---------------------------------------------------------------------------

/// A game created by one player and joined by another is no longer open and is
/// started with its creator as red, the joining player as black, and the size it
/// was created with; each of the two is told their side when putting a point.
pub proof fn law_join_after_create(lobby: LobbyView, creator: u128, joiner: u128, game_id: u128, size: FieldSize)
    ensures
        ({
            let (after_create, created) = spec_handle(lobby, creator, Request::Create { game_id, size });
            let (after_join, joined) = spec_handle(after_create, joiner, Request::Join { game_id });
            let game = Game { red_player_id: creator, black_player_id: joiner, size };
            &&& created == Ok::<Effect, RequestError>(Effect::Nothing)
            &&& joined == Ok::<Effect, RequestError>(Effect::GameStarted { game_id, game })
            &&& !after_join.open_games.contains_key(game_id)
            &&& after_join.games.contains_key(game_id)
            &&& after_join.games[game_id] == game
            &&& game.spec_color(creator) == Some(Player::Red)
            &&& creator != joiner ==> game.spec_color(joiner) == Some(Player::Black)
        }),
{
}

/// A refused request leaves the lobby as it was.
pub proof fn law_refused_request_changes_nothing(lobby: LobbyView, player_id: u128, request: Request)
    requires
        spec_handle(lobby, player_id, request).1 is Err,
    ensures
        spec_handle(lobby, player_id, request).0 == lobby,
{
}

/// Joining a game id that is not among the open games does nothing: the open and
/// the started games stay as they were, and the request is answered with no effect.
pub proof fn law_join_of_no_open_game_changes_nothing(lobby: LobbyView, player_id: u128, game_id: u128)
    requires
        !lobby.open_games.contains_key(game_id),
    ensures
        spec_handle(lobby, player_id, Request::Join { game_id }).0 == lobby,
        spec_handle(lobby, player_id, Request::Join { game_id }).1 == Ok::<Effect, RequestError>(
            Effect::Nothing,
        ),
{
}

/// A started game stays started, with its players and size, whatever request comes,
/// as long as no game id is both open and started (which every request keeps so, see
/// [`law_open_and_started_stay_apart`]); and a request never ends a started game.
pub proof fn law_started_games_stay(lobby: LobbyView, player_id: u128, request: Request)
    requires
        forall|k: u128| !(#[trigger] lobby.open_games.contains_key(k) && lobby.games.contains_key(k)),
    ensures
        ({
            let after = spec_handle(lobby, player_id, request).0;
            forall|k: u128| #[trigger] lobby.games.contains_key(k) ==> after.games.contains_key(k)
                && after.games[k] == lobby.games[k]
        }),
{
}

/// No game id is both open and started, as long as every created game gets an id
/// that no started game has: each request keeps this so.
pub proof fn law_open_and_started_stay_apart(lobby: LobbyView, player_id: u128, request: Request)
    requires
        forall|k: u128| !(#[trigger] lobby.open_games.contains_key(k) && lobby.games.contains_key(k)),
        request matches Request::Create { game_id, .. } ==> !lobby.games.contains_key(game_id),
    ensures
        ({
            let after = spec_handle(lobby, player_id, request).0;
            forall|k: u128| !(#[trigger] after.open_games.contains_key(k) && after.games.contains_key(k))
        }),
{
}

} // verus!
