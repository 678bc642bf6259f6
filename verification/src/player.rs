//! One player within one session.

use vstd::prelude::*;
use vstd::string::*;
use crate::instant::Instant;
use crate::strmap::{Snapshot, StrMap};
use crate::strset::StrSet;

verus! {

/// Hit points are counted in millionths of a point.
pub const HEALTH_UNIT: i64 = 1_000_000;

/// The hit points of a player who has just spawned: 100 points.
pub const FULL_HEALTH: i64 = 100_000_000;

/// The hit points of a player who has just been revived: 5 points.
pub const REVIVED_HEALTH: i64 = 5_000_000;

/// Whether a player is in play.
#[derive(Clone, Copy, Debug, PartialEq, Eq, Structural)]
pub enum PlayerState {
    Playing,
    Inactive,
}

/// Counts by player name.
pub type Tally = StrMap<u32>;

/// What is known of a player in a session. The player's name is the key
/// under which the session holds this record.
#[derive(Debug)]
pub struct Player {
    pub state: PlayerState,
    /// In millionths of a point; damage may take it below zero.
    pub hitpoints: i64,
    /// Who damaged the player last, until the player goes down or spawns.
    pub last_damaged: Option<String>,
    pub last_spawn_time: Option<Instant>,
    pub last_down_time: Option<Instant>,
    pub players_killed_by: Tally,
    pub players_killed: Tally,
    pub classes_played: StrSet,
    pub players_revived_by: Tally,
    pub players_revived: Tally,
}

/// A player as a mathematical value.
#[verifier::ext_equal]
pub struct PlayerView {
    pub state: PlayerState,
    pub hitpoints: i64,
    pub last_damaged: Option<Seq<char>>,
    pub last_spawn_time: Option<Instant>,
    pub last_down_time: Option<Instant>,
    pub players_killed_by: Map<Seq<char>, u32>,
    pub players_killed: Map<Seq<char>, u32>,
    pub classes_played: Set<Seq<char>>,
    pub players_revived_by: Map<Seq<char>, u32>,
    pub players_revived: Map<Seq<char>, u32>,
}

/// The text of an optional string.
pub open spec fn text_of(s: Option<String>) -> Option<Seq<char>> {
    match s {
        Some(t) => Some(t@),
        None => None,
    }
}

impl View for Player {
    type V = PlayerView;

    open spec fn view(&self) -> PlayerView {
        PlayerView {
            state: self.state,
            hitpoints: self.hitpoints,
            last_damaged: text_of(self.last_damaged),
            last_spawn_time: self.last_spawn_time,
            last_down_time: self.last_down_time,
            players_killed_by: self.players_killed_by@,
            players_killed: self.players_killed@,
            classes_played: self.classes_played@,
            players_revived_by: self.players_revived_by@,
            players_revived: self.players_revived@,
        }
    }
}

/// A copy of an optional string.
pub fn copy_text(s: &Option<String>) -> (r: Option<String>)
    ensures
        text_of(r) == text_of(*s),
{
    match s {
        Some(t) => Some(t.clone()),
        None => None,
    }
}

impl Snapshot for Player {
    fn snapshot(&self) -> (r: Self) {
        Player {
            state: self.state,
            hitpoints: self.hitpoints,
            last_damaged: copy_text(&self.last_damaged),
            last_spawn_time: self.last_spawn_time,
            last_down_time: self.last_down_time,
            players_killed_by: self.players_killed_by.snapshot(),
            players_killed: self.players_killed.snapshot(),
            classes_played: self.classes_played.snapshot(),
            players_revived_by: self.players_revived_by.snapshot(),
            players_revived: self.players_revived.snapshot(),
        }
    }
}

/// The count under `key` raised by one, where the counter can hold it.
pub open spec fn bumped(tally: Map<Seq<char>, u32>, key: Seq<char>) -> Option<Map<Seq<char>, u32>> {
    let count = if tally.contains_key(key) {
        tally[key]
    } else {
        0u32
    };
    if count == u32::MAX {
        None
    } else {
        Some(tally.insert(key, (count + 1) as u32))
    }
}

/// A copy of `tally` in which the count under `key` is one more; a key that
/// is not there counts as zero. `None` where the count is `u32::MAX`.
pub fn bump(tally: &Tally, key: &str) -> (r: Option<Tally>)
    ensures
        match r {
            Some(t) => bumped(tally@, key@) == Some(t@),
            None => bumped(tally@, key@) is None,
        },
{
    let count: u32 = match tally.get(key) {
        Some(c) => *c,
        None => 0,
    };
    if count == u32::MAX {
        None
    } else {
        Some(tally.snapshot().with(String::from_str(key), count + 1))
    }
}

} // verus!
