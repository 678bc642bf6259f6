//! Sessions and the accumulated state.

use vstd::prelude::*;
use vstd::string::*;
use crate::error::FoldError;
use crate::instant::Instant;
use crate::names::{copy_registry, Registry, RegistryView};
use crate::player::{Player, PlayerView};
use crate::strmap::{Snapshot, StrMap};

verus! {

/// One session: a match on one map, from the loading of the map on.
#[derive(Debug)]
pub struct Game {
    pub map: String,
    /// The players of the session, by name.
    pub players: StrMap<Player>,
    pub start_time: Instant,
}

/// A session as a mathematical value.
#[verifier::ext_equal]
pub struct GameView {
    pub map: Seq<char>,
    pub players: Map<Seq<char>, PlayerView>,
    pub start_time: Instant,
}

impl View for Game {
    type V = GameView;

    open spec fn view(&self) -> GameView {
        GameView { map: self.map@, players: self.players@, start_time: self.start_time }
    }
}

impl Snapshot for Game {
    fn snapshot(&self) -> (r: Self) {
        Game { map: self.map.clone(), players: self.players.snapshot(), start_time: self.start_time }
    }
}

/// All that has been gathered from the log so far.
#[derive(Debug)]
pub struct GameState {
    /// The sessions, in the order in which they began.
    pub games: Vec<Game>,
    /// The start of the current session: the key by which it is found.
    pub current_game_start_time: Instant,
    /// The latest instant that was accepted from the log.
    pub last_timestamp: Instant,
    /// The name registry of the current session.
    pub player_names: Registry,
}

/// The accumulated state as a mathematical value.
#[verifier::ext_equal]
pub struct GameStateView {
    pub games: Seq<GameView>,
    pub current_game_start_time: Instant,
    pub last_timestamp: Instant,
    pub player_names: RegistryView,
}

/// The sessions of a list, each as a mathematical value.
pub open spec fn games_view(games: Seq<Game>) -> Seq<GameView> {
    Seq::new(games.len(), |i: int| games[i]@)
}

impl View for GameState {
    type V = GameStateView;

    open spec fn view(&self) -> GameStateView {
        GameStateView {
            games: games_view(self.games@),
            current_game_start_time: self.current_game_start_time,
            last_timestamp: self.last_timestamp,
            player_names: self.player_names.deep_view(),
        }
    }
}

/// A copy of a list of sessions.
pub fn copy_games(games: &Vec<Game>) -> (r: Vec<Game>)
    ensures
        games_view(r@) == games_view(games@),
{
    let mut out: Vec<Game> = Vec::new();
    let mut i: usize = 0;
    while i < games.len()
        invariant
            i <= games@.len(),
            out@.len() == i,
            forall|j: int| 0 <= j < i ==> (#[trigger] out@[j])@ == games@[j]@,
        decreases games@.len() - i,
    {
        out.push(games[i].snapshot());
        i = i + 1;
    }
    out
}

impl Snapshot for GameState {
    fn snapshot(&self) -> (r: Self) {
        GameState {
            games: copy_games(&self.games),
            current_game_start_time: self.current_game_start_time,
            last_timestamp: self.last_timestamp,
            player_names: copy_registry(&self.player_names),
        }
    }
}

impl GameState {
    /// The state with which a first run begins: no session, an empty
    /// registry, and the epoch as the current start and as the latest
    /// instant.
    pub fn initial() -> (r: Self)
        ensures
            r@ == (GameStateView {
                games: Seq::empty(),
                current_game_start_time: Instant::epoch(),
                last_timestamp: Instant::epoch(),
                player_names: Seq::empty(),
            }),
    {
        GameState::new(Instant::epoch())
    }

    /// A state without sessions and with an empty registry, which has
    /// `epoch` as the current start and as the latest instant.
    pub fn new(epoch: Instant) -> (r: Self)
        ensures
            r@ == (GameStateView {
                games: Seq::empty(),
                current_game_start_time: epoch,
                last_timestamp: epoch,
                player_names: Seq::empty(),
            }),
    {
        let r = GameState {
            games: Vec::new(),
            current_game_start_time: epoch,
            last_timestamp: epoch,
            player_names: Vec::new(),
        };
        r
    }
}

/// Some session starts at the instant that the state names as current.
pub open spec fn has_current(g: GameStateView) -> bool {
    exists|i: int| 0 <= i < g.games.len() && (#[trigger] g.games[i]).start_time == g.current_game_start_time
}

/// Session `i` is the latest that starts at the instant that the state
/// names as current.
pub open spec fn is_current(g: GameStateView, i: int) -> bool {
    &&& 0 <= i < g.games.len()
    &&& g.games[i].start_time == g.current_game_start_time
    &&& forall|j: int|
        i < j < g.games.len() ==> (#[trigger] g.games[j]).start_time != g.current_game_start_time
}

/// The index of the current session, where there is one.
pub open spec fn current_index(g: GameStateView) -> int {
    choose|i: int| is_current(g, i)
}

/// At most one session is the current one.
pub proof fn lemma_current_unique(g: GameStateView, i: int)
    requires
        is_current(g, i),
    ensures
        has_current(g),
        current_index(g) == i,
{
    assert(is_current(g, current_index(g)));
}

/// Where some session starts at the current instant, one of them is the
/// current session.
pub proof fn lemma_current_exists(g: GameStateView)
    requires
        has_current(g),
    ensures
        is_current(g, current_index(g)),
{
    let w = choose|i: int| 0 <= i < g.games.len() && (#[trigger] g.games[i]).start_time == g.current_game_start_time;
    lemma_latest_from(g, w);
}

proof fn lemma_latest_from(g: GameStateView, n: int)
    requires
        0 <= n < g.games.len(),
        g.games[n].start_time == g.current_game_start_time,
    ensures
        exists|i: int| is_current(g, i),
    decreases g.games.len() - n,
{
    if exists|j: int| n < j < g.games.len() && (#[trigger] g.games[j]).start_time == g.current_game_start_time {
        let j = choose|j: int| n < j < g.games.len() && (#[trigger] g.games[j]).start_time == g.current_game_start_time;
        lemma_latest_from(g, j);
    } else {
        assert(is_current(g, n));
    }
}

/// The index of the current session: the latest session that starts at
/// `current_game_start_time`. Without such a session there is none.
pub fn get_current_game_idx(g: &GameState) -> (r: Result<usize, FoldError>)
    ensures
        match r {
            Ok(i) => has_current(g@) && i == current_index(g@) && is_current(g@, i as int),
            Err(e) => e == FoldError::SessionNotFound && !has_current(g@),
        },
{
    let mut i: usize = g.games.len();
    while i > 0
        invariant
            i <= g.games@.len(),
            forall|j: int|
                i <= j < g.games@.len() ==> (#[trigger] g@.games[j]).start_time != g.current_game_start_time,
        decreases i,
    {
        i = i - 1;
        if g.games[i].start_time == g.current_game_start_time {
            proof {
                lemma_current_unique(g@, i as int);
            }
            return Ok(i);
        }
    }
    Err(FoldError::SessionNotFound)
}

} // verus!
