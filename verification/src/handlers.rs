//! The events of a session, each folded into the accumulated state: the
//! state that comes in is left as it is, and a new state comes out.

use vstd::prelude::*;
use vstd::string::*;
use crate::error::FoldError;
use crate::game::{
    copy_games, current_index, games_view, get_current_game_idx, has_current, Game, GameState, GameStateView,
    GameView,
};
use crate::instant::Instant;
use crate::names::{copy_registry, lookup_player_name, resolution, Registry};
use crate::player::{
    bump, bumped, copy_text, Player, PlayerState, PlayerView, FULL_HEALTH, REVIVED_HEALTH,
};
use crate::strmap::{Snapshot, StrMap};
use crate::strset::StrSet;
use crate::text::same_text;

verus! {

/// The name that the log gives where there is no player or no role.
pub open spec fn null_name() -> Seq<char> {
    "nullptr"@
}

/// `v`, or the nearest value that hit points can take.
pub open spec fn clipped(v: int) -> i64 {
    if v < i64::MIN {
        i64::MIN
    } else if v > i64::MAX {
        i64::MAX
    } else {
        v as i64
    }
}

/// Hit points after damage, in millionths; there is no floor at zero.
pub fn after_damage(hitpoints: i64, damage: i64) -> (r: i64)
    ensures
        r == clipped(hitpoints - damage),
{
    let wide: i128 = hitpoints as i128 - damage as i128;
    if wide < i64::MIN as i128 {
        i64::MIN
    } else if wide > i64::MAX as i128 {
        i64::MAX
    } else {
        wide as i64
    }
}

/// The state with `player` under `name` in session `i`.
pub open spec fn with_player(g: GameStateView, i: int, name: Seq<char>, player: PlayerView) -> GameStateView {
    with_roster(g, i, g.games[i].players.insert(name, player))
}

/// The state with `roster` as the players of session `i`.
pub open spec fn with_roster(g: GameStateView, i: int, roster: Map<Seq<char>, PlayerView>) -> GameStateView {
    GameStateView { games: g.games.update(i, GameView { players: roster, ..g.games[i] }), ..g }
}

/// The state of `g` with `roster` as the players of session `idx` and with
/// `names` as the registry.
fn rebuilt(g: &GameState, idx: usize, roster: StrMap<Player>, names: Registry) -> (r: GameState)
    requires
        idx < g.games@.len(),
    ensures
        r@ == (GameStateView { player_names: names.deep_view(), ..with_roster(g@, idx as int, roster@) }),
{
    let mut games = copy_games(&g.games);
    let game = Game { map: g.games[idx].map.clone(), players: roster, start_time: g.games[idx].start_time };
    assert(games_view(games@).len() == g.games@.len());
    games.set(idx, game);
    GameState {
        games,
        current_game_start_time: g.current_game_start_time,
        last_timestamp: g.last_timestamp,
        player_names: names,
    }
}

/// The state after a map was loaded: a new session without players, which
/// starts at `ts` and is the current one.
pub open spec fn started(ts: Instant, map: Seq<char>, g: GameStateView) -> GameStateView {
    GameStateView {
        games: g.games.push(GameView { map, players: Map::empty(), start_time: ts }),
        current_game_start_time: ts,
        ..g
    }
}

/// A map was loaded: a new session begins.
pub fn starting_game(timestamp: &Instant, map_name: &str, g: &GameState) -> (r: GameState)
    ensures
        r@ == started(*timestamp, map_name@, g@),
{
    let game = Game { map: String::from_str(map_name), players: StrMap::new(), start_time: *timestamp };
    let mut games = copy_games(&g.games);
    games.push(game);
    GameState {
        games,
        current_game_start_time: *timestamp,
        last_timestamp: g.last_timestamp,
        player_names: copy_registry(&g.player_names),
    }
}

/// A player at the first spawn in a session.
pub open spec fn first_spawn(ts: Instant, class: Seq<char>) -> PlayerView {
    PlayerView {
        state: PlayerState::Inactive,
        hitpoints: FULL_HEALTH,
        last_damaged: None,
        last_spawn_time: Some(ts),
        last_down_time: None,
        players_killed_by: Map::empty(),
        players_killed: Map::empty(),
        classes_played: Set::empty().insert(class),
        players_revived_by: Map::empty(),
        players_revived: Map::empty(),
    }
}

/// A player of the session after a further spawn: in play, at full health,
/// with no damager on record and one more class played. Counters and the
/// time of the last down stay.
pub open spec fn respawn(ts: Instant, class: Seq<char>, p: PlayerView) -> PlayerView {
    PlayerView {
        state: PlayerState::Playing,
        hitpoints: FULL_HEALTH,
        last_damaged: None,
        last_spawn_time: Some(ts),
        classes_played: p.classes_played.insert(class),
        ..p
    }
}

/// The state after `name` has spawned with role `class` at `ts`.
pub open spec fn spawned(ts: Instant, name: Seq<char>, class: Seq<char>, g: GameStateView) -> Result<
    GameStateView,
    FoldError,
> {
    if !has_current(g) {
        Err(FoldError::SessionNotFound)
    } else {
        let i = current_index(g);
        let roster = g.games[i].players;
        let player = if roster.contains_key(name) {
            respawn(ts, class, roster[name])
        } else {
            first_spawn(ts, class)
        };
        Ok(with_player(g, i, name, player))
    }
}

/// The outcome `r` is what `expected` says, state by its view.
pub open spec fn agrees(r: Result<GameState, FoldError>, expected: Result<GameStateView, FoldError>) -> bool {
    match r {
        Ok(s) => expected == Ok::<GameStateView, FoldError>(s@),
        Err(e) => expected == Err::<GameStateView, FoldError>(e),
    }
}

/// A player has taken a role: the player spawns.
pub fn player_spawned(timestamp: &Instant, name: &str, class: &str, g: &GameState) -> (r: Result<
    GameState,
    FoldError,
>)
    ensures
        agrees(r, spawned(*timestamp, name@, class@, g@)),
{
    let idx = match get_current_game_idx(g) {
        Ok(i) => i,
        Err(e) => {
            return Err(e);
        },
    };
    let roster = &g.games[idx].players;
    let player = match roster.get(name) {
        Some(p) => Player {
            state: PlayerState::Playing,
            hitpoints: FULL_HEALTH,
            last_damaged: None,
            last_spawn_time: Some(*timestamp),
            last_down_time: p.last_down_time,
            players_killed_by: p.players_killed_by.snapshot(),
            players_killed: p.players_killed.snapshot(),
            classes_played: p.classes_played.snapshot().with(String::from_str(class)),
            players_revived_by: p.players_revived_by.snapshot(),
            players_revived: p.players_revived.snapshot(),
        },
        None => Player {
            state: PlayerState::Inactive,
            hitpoints: FULL_HEALTH,
            last_damaged: None,
            last_spawn_time: Some(*timestamp),
            last_down_time: None,
            players_killed_by: StrMap::new(),
            players_killed: StrMap::new(),
            classes_played: StrSet::new().with(String::from_str(class)),
            players_revived_by: StrMap::new(),
            players_revived: StrMap::new(),
        },
    };
    let after = roster.snapshot().with(String::from_str(name), player);
    Ok(rebuilt(g, idx, after, copy_registry(&g.player_names)))
}

/// The state after `target` took `damage` from `shooter`. The target is
/// resolved through the registry and must be a player of the current
/// session. Where the shooter is the null name, the damager on record stays.
pub open spec fn damaged(shooter: Seq<char>, damage: i64, target: Seq<char>, g: GameStateView) -> Result<
    GameStateView,
    FoldError,
> {
    if !has_current(g) {
        Err(FoldError::SessionNotFound)
    } else {
        match resolution(target, g.player_names) {
            Err(e) => Err(e),
            Ok((victim, names)) => {
                let i = current_index(g);
                let roster = g.games[i].players;
                if !roster.contains_key(victim) {
                    Err(FoldError::UnknownPlayer)
                } else {
                    let p = roster[victim];
                    let hurt = PlayerView {
                        last_damaged: if shooter != null_name() {
                            Some(shooter)
                        } else {
                            p.last_damaged
                        },
                        hitpoints: clipped(p.hitpoints - damage),
                        ..p
                    };
                    Ok(GameStateView { player_names: names, ..with_player(g, i, victim, hurt) })
                }
            },
        }
    }
}

/// A player was damaged. `damage` is in millionths of a hit point.
pub fn player_damaged(
    _timestamp: &Instant,
    shooter: &str,
    damage: i64,
    target: &str,
    _weapon: &str,
    g: &GameState,
) -> (r: Result<GameState, FoldError>)
    ensures
        agrees(r, damaged(shooter@, damage, target@, g@)),
        r is Ok && shooter@ == null_name() ==> {
            let victim = resolution(target@, g@.player_names)->Ok_0.0;
            r->Ok_0@.games[current_index(g@)].players[victim].last_damaged
                == g@.games[current_index(g@)].players[victim].last_damaged
        },
{
    let idx = match get_current_game_idx(g) {
        Ok(i) => i,
        Err(e) => {
            return Err(e);
        },
    };
    let (victim, names) = match lookup_player_name(&String::from_str(target), &g.player_names) {
        Ok(found) => found,
        Err(e) => {
            return Err(e);
        },
    };
    let roster = &g.games[idx].players;
    let p = match roster.get(victim.as_str()) {
        Some(p) => p,
        None => {
            return Err(FoldError::UnknownPlayer);
        },
    };
    let damager = if !same_text(shooter, "nullptr") {
        Some(String::from_str(shooter))
    } else {
        copy_text(&p.last_damaged)
    };
    let hurt = Player {
        state: p.state,
        hitpoints: after_damage(p.hitpoints, damage),
        last_damaged: damager,
        last_spawn_time: p.last_spawn_time,
        last_down_time: p.last_down_time,
        players_killed_by: p.players_killed_by.snapshot(),
        players_killed: p.players_killed.snapshot(),
        classes_played: p.classes_played.snapshot(),
        players_revived_by: p.players_revived_by.snapshot(),
        players_revived: p.players_revived.snapshot(),
    };
    let after = roster.snapshot().with(victim, hurt);
    Ok(rebuilt(g, idx, after, names))
}

/// The state after `target` went down at `ts`. The target is resolved
/// through the registry and must be a player of the current session. With a
/// damager on record, the damager is resolved too and must be a player of the
/// session; the target counts one more under killed-by for the damager, has
/// no damager on record any more and has `ts` as the time of the last down;
/// then the damager counts one more under killed for the target. Without a
/// damager on record the down is recorded all the same, as the time of the
/// target's last down, and no counter changes.
pub open spec fn downed(ts: Instant, target: Seq<char>, g: GameStateView) -> Result<GameStateView, FoldError> {
    if !has_current(g) {
        Err(FoldError::SessionNotFound)
    } else {
        match resolution(target, g.player_names) {
            Err(e) => Err(e),
            Ok((victim, names)) => {
                let i = current_index(g);
                let roster = g.games[i].players;
                if !roster.contains_key(victim) {
                    Err(FoldError::UnknownPlayer)
                } else {
                    match roster[victim].last_damaged {
                        None => Ok(
                            GameStateView {
                                player_names: names,
                                ..with_player(
                                    g,
                                    i,
                                    victim,
                                    PlayerView { last_down_time: Some(ts), ..roster[victim] },
                                )
                            },
                        ),
                        Some(full) => match resolution(full, names) {
                            Err(e) => Err(e),
                            Ok((killer, names)) => match kill_counted(ts, victim, killer, roster) {
                                Err(e) => Err(e),
                                Ok(roster) => Ok(GameStateView { player_names: names, ..with_roster(g, i, roster) }),
                            },
                        },
                    }
                }
            },
        }
    }
}

/// The players of a session after `killer` has brought `victim` down at
/// `ts`; `victim` is one of the players.
pub open spec fn kill_counted(
    ts: Instant,
    victim: Seq<char>,
    killer: Seq<char>,
    roster: Map<Seq<char>, PlayerView>,
) -> Result<Map<Seq<char>, PlayerView>, FoldError> {
    if !roster.contains_key(killer) {
        Err(FoldError::UnknownPlayer)
    } else {
        match bumped(roster[victim].players_killed_by, killer) {
            None => Err(FoldError::CounterOverflow),
            Some(killed_by) => {
                let fallen = PlayerView {
                    last_damaged: None,
                    last_down_time: Some(ts),
                    players_killed_by: killed_by,
                    ..roster[victim]
                };
                let roster = roster.insert(victim, fallen);
                match bumped(roster[killer].players_killed, victim) {
                    None => Err(FoldError::CounterOverflow),
                    Some(killed) => Ok(
                        roster.insert(killer, PlayerView { players_killed: killed, ..roster[killer] }),
                    ),
                }
            },
        }
    }
}

/// Counts a kill in the players of a session.
fn count_kill(ts: &Instant, victim: &String, killer: &String, roster: &StrMap<Player>) -> (r: Result<
    StrMap<Player>,
    FoldError,
>)
    requires
        roster@.contains_key(victim@),
    ensures
        match r {
            Ok(after) => kill_counted(*ts, victim@, killer@, roster@) == Ok::<
                Map<Seq<char>, PlayerView>,
                FoldError,
            >(after@),
            Err(e) => kill_counted(*ts, victim@, killer@, roster@) == Err::<
                Map<Seq<char>, PlayerView>,
                FoldError,
            >(e),
        },
{
    if !roster.contains_key(killer.as_str()) {
        return Err(FoldError::UnknownPlayer);
    }
    let p = match roster.get(victim.as_str()) {
        Some(p) => p,
        None => {
            return Err(FoldError::UnknownPlayer);
        },
    };
    let killed_by = match bump(&p.players_killed_by, killer.as_str()) {
        Some(t) => t,
        None => {
            return Err(FoldError::CounterOverflow);
        },
    };
    let fallen = Player {
        state: p.state,
        hitpoints: p.hitpoints,
        last_damaged: None,
        last_spawn_time: p.last_spawn_time,
        last_down_time: Some(*ts),
        players_killed_by: killed_by,
        players_killed: p.players_killed.snapshot(),
        classes_played: p.classes_played.snapshot(),
        players_revived_by: p.players_revived_by.snapshot(),
        players_revived: p.players_revived.snapshot(),
    };
    let first = roster.snapshot().with(victim.clone(), fallen);
    let q = match first.get(killer.as_str()) {
        Some(q) => q,
        None => {
            return Err(FoldError::UnknownPlayer);
        },
    };
    let killed = match bump(&q.players_killed, victim.as_str()) {
        Some(t) => t,
        None => {
            return Err(FoldError::CounterOverflow);
        },
    };
    let credited = Player {
        state: q.state,
        hitpoints: q.hitpoints,
        last_damaged: copy_text(&q.last_damaged),
        last_spawn_time: q.last_spawn_time,
        last_down_time: q.last_down_time,
        players_killed_by: q.players_killed_by.snapshot(),
        players_killed: killed,
        classes_played: q.classes_played.snapshot(),
        players_revived_by: q.players_revived_by.snapshot(),
        players_revived: q.players_revived.snapshot(),
    };
    Ok(first.snapshot().with(killer.clone(), credited))
}

/// A player went down.
pub fn player_down(timestamp: &Instant, player: &str, g: &GameState) -> (r: Result<GameState, FoldError>)
    ensures
        agrees(r, downed(*timestamp, player@, g@)),
{
    let idx = match get_current_game_idx(g) {
        Ok(i) => i,
        Err(e) => {
            return Err(e);
        },
    };
    let (victim, names) = match lookup_player_name(&String::from_str(player), &g.player_names) {
        Ok(found) => found,
        Err(e) => {
            return Err(e);
        },
    };
    let roster = &g.games[idx].players;
    let p = match roster.get(victim.as_str()) {
        Some(p) => p,
        None => {
            return Err(FoldError::UnknownPlayer);
        },
    };
    match &p.last_damaged {
        None => {
            let fallen = Player {
                state: p.state,
                hitpoints: p.hitpoints,
                last_damaged: None,
                last_spawn_time: p.last_spawn_time,
                last_down_time: Some(*timestamp),
                players_killed_by: p.players_killed_by.snapshot(),
                players_killed: p.players_killed.snapshot(),
                classes_played: p.classes_played.snapshot(),
                players_revived_by: p.players_revived_by.snapshot(),
                players_revived: p.players_revived.snapshot(),
            };
            let after = roster.snapshot().with(victim, fallen);
            Ok(rebuilt(g, idx, after, names))
        },
        Some(full) => {
            let (killer, names) = match lookup_player_name(full, &names) {
                Ok(found) => found,
                Err(e) => {
                    return Err(e);
                },
            };
            match count_kill(timestamp, &victim, &killer, roster) {
                Ok(after) => Ok(rebuilt(g, idx, after, names)),
                Err(e) => Err(e),
            }
        },
    }
}

/// The state after `reviver` has revived `revivee`. Where either is no
/// player of the current session, nothing changes. Else the reviver counts
/// one more under revived for the revivee; then the revivee counts one more
/// under revived-by, under the revivee's own name, and has the hit points of
/// a revived player.
pub open spec fn revived(reviver: Seq<char>, revivee: Seq<char>, g: GameStateView) -> Result<
    GameStateView,
    FoldError,
> {
    if !has_current(g) {
        Err(FoldError::SessionNotFound)
    } else {
        let i = current_index(g);
        let roster = g.games[i].players;
        if !(roster.contains_key(reviver) && roster.contains_key(revivee)) {
            Ok(g)
        } else {
            match bumped(roster[reviver].players_revived, revivee) {
                None => Err(FoldError::CounterOverflow),
                Some(has_revived) => {
                    let roster = roster.insert(
                        reviver,
                        PlayerView { players_revived: has_revived, ..roster[reviver] },
                    );
                    match bumped(roster[revivee].players_revived_by, revivee) {
                        None => Err(FoldError::CounterOverflow),
                        Some(revived_by) => Ok(
                            with_roster(
                                g,
                                i,
                                roster.insert(
                                    revivee,
                                    PlayerView {
                                        players_revived_by: revived_by,
                                        hitpoints: REVIVED_HEALTH,
                                        ..roster[revivee]
                                    },
                                ),
                            ),
                        ),
                    }
                },
            }
        }
    }
}

/// One player revived another.
pub fn player_revived(_timestamp: &Instant, reviving: &str, revived: &str, g: &GameState) -> (r: Result<
    GameState,
    FoldError,
>)
    ensures
        agrees(r, self::revived(reviving@, revived@, g@)),
{
    let idx = match get_current_game_idx(g) {
        Ok(i) => i,
        Err(e) => {
            return Err(e);
        },
    };
    let roster = &g.games[idx].players;
    let p = match roster.get(reviving) {
        Some(p) => p,
        None => {
            return Ok(g.snapshot());
        },
    };
    if !roster.contains_key(revived) {
        return Ok(g.snapshot());
    }
    let has_revived = match bump(&p.players_revived, revived) {
        Some(t) => t,
        None => {
            return Err(FoldError::CounterOverflow);
        },
    };
    let helper = Player {
        state: p.state,
        hitpoints: p.hitpoints,
        last_damaged: copy_text(&p.last_damaged),
        last_spawn_time: p.last_spawn_time,
        last_down_time: p.last_down_time,
        players_killed_by: p.players_killed_by.snapshot(),
        players_killed: p.players_killed.snapshot(),
        classes_played: p.classes_played.snapshot(),
        players_revived_by: p.players_revived_by.snapshot(),
        players_revived: has_revived,
    };
    let first = roster.snapshot().with(String::from_str(reviving), helper);
    let q = match first.get(revived) {
        Some(q) => q,
        None => {
            return Ok(g.snapshot());
        },
    };
    let revived_by = match bump(&q.players_revived_by, revived) {
        Some(t) => t,
        None => {
            return Err(FoldError::CounterOverflow);
        },
    };
    let risen = Player {
        state: q.state,
        hitpoints: REVIVED_HEALTH,
        last_damaged: copy_text(&q.last_damaged),
        last_spawn_time: q.last_spawn_time,
        last_down_time: q.last_down_time,
        players_killed_by: q.players_killed_by.snapshot(),
        players_killed: q.players_killed.snapshot(),
        classes_played: q.classes_played.snapshot(),
        players_revived_by: revived_by,
        players_revived: q.players_revived.snapshot(),
    };
    let after = first.snapshot().with(String::from_str(revived), risen);
    Ok(rebuilt(g, idx, after, copy_registry(&g.player_names)))
}

/// The state after the match has ended. Without any session nothing happens
/// (`None`). Else the current session must be there, and the registry is
/// emptied; the sessions stay as they are.
pub open spec fn ended(g: GameStateView) -> Result<Option<GameStateView>, FoldError> {
    if g.games.len() == 0 {
        Ok(None)
    } else if !has_current(g) {
        Err(FoldError::SessionNotFound)
    } else {
        Ok(Some(GameStateView { player_names: Seq::empty(), ..g }))
    }
}

/// The outcome `r` is what `expected` says, state by its view.
pub open spec fn agrees_opt(
    r: Result<Option<GameState>, FoldError>,
    expected: Result<Option<GameStateView>, FoldError>,
) -> bool {
    match r {
        Ok(Some(s)) => expected == Ok::<Option<GameStateView>, FoldError>(Some(s@)),
        Ok(None) => expected == Ok::<Option<GameStateView>, FoldError>(None),
        Err(e) => expected == Err::<Option<GameStateView>, FoldError>(e),
    }
}

/// The match has ended: the session is over, and with it its registry.
pub fn match_ended(g: &GameState) -> (r: Result<Option<GameState>, FoldError>)
    ensures
        agrees_opt(r, ended(g@)),
        r matches Ok(Some(s)) ==> s@.player_names.len() == 0 && s@.games == g@.games,
{
    if g.games.len() == 0 {
        return Ok(None);
    }
    match get_current_game_idx(g) {
        Ok(_) => {
            let r = GameState {
                games: copy_games(&g.games),
                current_game_start_time: g.current_game_start_time,
                last_timestamp: g.last_timestamp,
                player_names: Vec::new(),
            };
            assert(r@.player_names =~= Seq::empty());
            Ok(Some(r))
        },
        Err(e) => Err(e),
    }
}

} // verus!
