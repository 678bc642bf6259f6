//! From a line of the log to the state after it: the line is taken apart by
//! patterns, and what the patterns capture is folded into the state.

use vstd::prelude::*;
use vstd::string::*;
use crate::amount::{amount_of, parse_amount};
use crate::capture::{captured_groups, captures, group, is_shaped, shaped, Groups, GroupsView};
use crate::error::FoldError;
use crate::game::{copy_games, GameState, GameStateView};
use crate::handlers::{
    agrees, agrees_opt, damaged, downed, ended, match_ended, null_name, player_damaged, player_down,
    player_revived, player_spawned, revived, spawned, started, starting_game,
};
use crate::instant::{get_dt, token_instant, Instant};
use crate::names::{copy_registry, observed, seen_player_name};
use crate::text::same_text;

verus! {

/// A line of the log: a timestamp and frame information in brackets, the
/// channel tag, a colon and the message.
pub open spec fn line_pattern() -> Seq<char> {
    r"^\[(\d+.\d+.\d+-\d+.\d+.\d+:\d+)\]\[.*\](\w+): (.*)"@
}

/// The message that tells of a revive.
pub open spec fn revive_pattern() -> Seq<char> {
    r"(.*) has revived (.*)\.$"@
}

/// The message that tells of damage.
pub open spec fn damage_pattern() -> Seq<char> {
    r"Player:(.*) ActualDamage=(\d+\.\d+) from (.*) caused by (.*)$"@
}

/// The message that tells of a role taken, which is a spawn.
pub open spec fn role_pattern() -> Seq<char> {
    r"\[DedicatedServer\]ASQPlayerController::SetCurrentRole\(\): On Server PC=(.*) NewRole=(.*)"@
}

/// The message that tells of a player going down.
pub open spec fn down_pattern() -> Seq<char> {
    r"\[DedicatedServer\]ASQSoldier::Wound\(\): Player:(.*) KillingDamage=(\d+.\d+) from (.*) caused by (.*)"@
}

/// The message that tells of a player's change of state.
pub open spec fn change_pattern() -> Seq<char> {
    r"\[DedicatedServer\]ASQPlayerController::ChangeState\(\): PC=(.*) OldState=(.*) NewState=(.*)"@
}

/// The message that tells of a change of the match state.
pub open spec fn match_state_pattern() -> Seq<char> {
    r"Match State Changed from (\w+) to (\w+)$"@
}

/// The message that tells of a map being loaded.
pub open spec fn map_pattern() -> Seq<char> {
    r"StartLoadingDestination to: /Game/Maps/(.*)"@
}

/// The match state that ends a session.
pub open spec fn post_match() -> Seq<char> {
    "WaitingPostMatch"@
}

/// There is a match, it has `n` groups besides the whole match, and each
/// took part.
pub open spec fn matched(c: Option<GroupsView>, n: int) -> bool {
    c is Some && shaped(c->0, n)
}

/// The text of group `i` of a match.
pub open spec fn text(c: Option<GroupsView>, i: int) -> Seq<char> {
    c->0[i]->0
}

/// A handler's outcome as the outcome of a message.
pub open spec fn lift(r: Result<GameStateView, FoldError>) -> Result<Option<GameStateView>, FoldError> {
    match r {
        Ok(s) => Ok(Some(s)),
        Err(e) => Err(e),
    }
}

/// The state that a handler has made, or `g` where none has.
pub open spec fn or_base(made: Option<GameStateView>, g: GameStateView) -> GameStateView {
    match made {
        Some(s) => s,
        None => g,
    }
}

/// What a message of the combat channel does, given what the revive pattern
/// and the damage pattern capture in it. A revive is folded first, then
/// damage, on what the revive made. Damage to the null name undoes the whole
/// message: `None`. `None` also where neither pattern matches.
pub open spec fn squad_outcome(
    ts: Instant,
    revive: Option<GroupsView>,
    hit: Option<GroupsView>,
    g: GameStateView,
) -> Result<Option<GameStateView>, FoldError> {
    let first = if matched(revive, 2) {
        lift(revived(text(revive, 1), text(revive, 2), g))
    } else {
        Ok(None)
    };
    match first {
        Err(e) => Err(e),
        Ok(g1) => if matched(hit, 4) {
            if text(hit, 1) == null_name() {
                Ok(None)
            } else {
                match amount_of(text(hit, 2)) {
                    None => Err(FoldError::MalformedAmount),
                    Some(amount) => lift(damaged(text(hit, 3), amount, text(hit, 1), or_base(g1, g))),
                }
            }
        } else {
            Ok(g1)
        },
    }
}

/// Folds a message of the combat channel, given what the two patterns
/// capture in it.
pub fn apply_logsquad(
    timestamp: &Instant,
    revive: &Option<Groups>,
    hit: &Option<Groups>,
    g: &GameState,
) -> (r: Result<Option<GameState>, FoldError>)
    ensures
        agrees_opt(r, squad_outcome(*timestamp, revive.deep_view(), hit.deep_view(), g@)),
{
    let mut g1: Option<GameState> = None;
    if let Some(c) = revive {
        if is_shaped(c, 2) {
            match player_revived(timestamp, group(c, 1), group(c, 2), g) {
                Ok(s) => {
                    g1 = Some(s);
                },
                Err(e) => {
                    return Err(e);
                },
            }
        }
    }
    if let Some(c) = hit {
        if is_shaped(c, 4) {
            if same_text(group(c, 1), "nullptr") {
                return Ok(None);
            }
            let amount = match parse_amount(group(c, 2)) {
                Some(a) => a,
                None => {
                    return Err(FoldError::MalformedAmount);
                },
            };
            let made = match &g1 {
                Some(t) => player_damaged(timestamp, group(c, 3), amount, group(c, 1), group(c, 4), t),
                None => player_damaged(timestamp, group(c, 3), amount, group(c, 1), group(c, 4), g),
            };
            return match made {
                Ok(s) => Ok(Some(s)),
                Err(e) => Err(e),
            };
        }
    }
    Ok(g1)
}

/// Folds a message of the combat channel.
pub fn parse_logsquad(timestamp: &Instant, msg: &str, g: &GameState) -> (r: Result<
    Option<GameState>,
    FoldError,
>)
    ensures
        agrees_opt(
            r,
            squad_outcome(
                *timestamp,
                captured_groups(revive_pattern(), msg@),
                captured_groups(damage_pattern(), msg@),
                g@,
            ),
        ),
{
    let revive = captures(r"(.*) has revived (.*)\.$", msg);
    let hit = captures(r"Player:(.*) ActualDamage=(\d+\.\d+) from (.*) caused by (.*)$", msg);
    apply_logsquad(timestamp, &revive, &hit, g)
}

/// What a message of the trace channel does, given what the role pattern,
/// the down pattern and the state-change pattern capture in it. A spawn is
/// folded first, unless the role is the null name; then a down, on what the
/// spawn made; a down of the null name undoes what came before. Last, a
/// change of state has the player's name seen in the registry.
pub open spec fn trace_outcome(
    ts: Instant,
    role: Option<GroupsView>,
    down: Option<GroupsView>,
    change: Option<GroupsView>,
    g: GameStateView,
) -> Result<Option<GameStateView>, FoldError> {
    let first = if matched(role, 2) && text(role, 2) != null_name() {
        lift(spawned(ts, text(role, 1), text(role, 2), g))
    } else {
        Ok(None)
    };
    match first {
        Err(e) => Err(e),
        Ok(g1) => {
            let second = if matched(down, 4) {
                if text(down, 1) == null_name() {
                    Ok(None)
                } else {
                    lift(downed(ts, text(down, 1), or_base(g1, g)))
                }
            } else {
                Ok(g1)
            };
            match second {
                Err(e) => Err(e),
                Ok(g2) => if matched(change, 3) {
                    let base = or_base(g2, g);
                    Ok(
                        Some(
                            GameStateView {
                                player_names: observed(text(change, 1), base.player_names),
                                ..base
                            },
                        ),
                    )
                } else {
                    Ok(g2)
                },
            }
        },
    }
}

/// The state with the name seen in its registry.
fn with_name_seen(name: &str, g: &GameState) -> (r: GameState)
    ensures
        r@ == (GameStateView { player_names: observed(name@, g@.player_names), ..g@ }),
{
    GameState {
        games: copy_games(&g.games),
        current_game_start_time: g.current_game_start_time,
        last_timestamp: g.last_timestamp,
        player_names: seen_player_name(&String::from_str(name), &g.player_names),
    }
}

/// Folds a message of the trace channel, given what the three patterns
/// capture in it.
pub fn apply_logtrace(
    timestamp: &Instant,
    role: &Option<Groups>,
    down: &Option<Groups>,
    change: &Option<Groups>,
    g: &GameState,
) -> (r: Result<Option<GameState>, FoldError>)
    ensures
        agrees_opt(
            r,
            trace_outcome(*timestamp, role.deep_view(), down.deep_view(), change.deep_view(), g@),
        ),
{
    let mut g1: Option<GameState> = None;
    if let Some(c) = role {
        if is_shaped(c, 2) {
            if !same_text(group(c, 2), "nullptr") {
                match player_spawned(timestamp, group(c, 1), group(c, 2), g) {
                    Ok(s) => {
                        g1 = Some(s);
                    },
                    Err(e) => {
                        return Err(e);
                    },
                }
            }
        }
    }
    let mut g2: Option<GameState> = g1;
    if let Some(c) = down {
        if is_shaped(c, 4) {
            if same_text(group(c, 1), "nullptr") {
                g2 = None;
            } else {
                let made = match &g2 {
                    Some(t) => player_down(timestamp, group(c, 1), t),
                    None => player_down(timestamp, group(c, 1), g),
                };
                match made {
                    Ok(s) => {
                        g2 = Some(s);
                    },
                    Err(e) => {
                        return Err(e);
                    },
                }
            }
        }
    }
    if let Some(c) = change {
        if is_shaped(c, 3) {
            let seen = match &g2 {
                Some(t) => with_name_seen(group(c, 1), t),
                None => with_name_seen(group(c, 1), g),
            };
            return Ok(Some(seen));
        }
    }
    Ok(g2)
}

/// Folds a message of the trace channel.
pub fn parse_logtrace(timestamp: &Instant, msg: &str, g: &GameState) -> (r: Result<
    Option<GameState>,
    FoldError,
>)
    ensures
        agrees_opt(
            r,
            trace_outcome(
                *timestamp,
                captured_groups(role_pattern(), msg@),
                captured_groups(down_pattern(), msg@),
                captured_groups(change_pattern(), msg@),
                g@,
            ),
        ),
{
    let role = captures(
        r"\[DedicatedServer\]ASQPlayerController::SetCurrentRole\(\): On Server PC=(.*) NewRole=(.*)",
        msg,
    );
    let down = captures(
        r"\[DedicatedServer\]ASQSoldier::Wound\(\): Player:(.*) KillingDamage=(\d+.\d+) from (.*) caused by (.*)",
        msg,
    );
    let change = captures(
        r"\[DedicatedServer\]ASQPlayerController::ChangeState\(\): PC=(.*) OldState=(.*) NewState=(.*)",
        msg,
    );
    apply_logtrace(timestamp, &role, &down, &change, g)
}

/// What a message of the game-state channel does, given what the
/// match-state pattern captures in it: a change to the state after the match
/// ends the session; any other does nothing.
pub open spec fn game_state_outcome(change: Option<GroupsView>, g: GameStateView) -> Result<
    Option<GameStateView>,
    FoldError,
> {
    if matched(change, 2) && text(change, 2) == post_match() {
        ended(g)
    } else {
        Ok(None)
    }
}

/// Folds a message of the game-state channel, given what the pattern
/// captures in it.
pub fn apply_game_state(_timestamp: &Instant, change: &Option<Groups>, g: &GameState) -> (r: Result<
    Option<GameState>,
    FoldError,
>)
    ensures
        agrees_opt(r, game_state_outcome(change.deep_view(), g@)),
        r matches Ok(Some(s)) ==> s@.player_names.len() == 0 && s@.games == g@.games,
{
    if let Some(c) = change {
        if is_shaped(c, 2) {
            if same_text(group(c, 2), "WaitingPostMatch") {
                return match_ended(g);
            }
        }
    }
    Ok(None)
}

/// Folds a message of the game-state channel.
pub fn parse_game_state(timestamp: &Instant, msg: &str, g: &GameState) -> (r: Result<
    Option<GameState>,
    FoldError,
>)
    ensures
        agrees_opt(r, game_state_outcome(captured_groups(match_state_pattern(), msg@), g@)),
        r matches Ok(Some(s)) ==> s@.player_names.len() == 0 && s@.games == g@.games,
{
    let change = captures(r"Match State Changed from (\w+) to (\w+)$", msg);
    apply_game_state(timestamp, &change, g)
}

/// What a message of the world channel does, given what the map pattern
/// captures in it: a session begins on the map.
pub open spec fn world_outcome(ts: Instant, load: Option<GroupsView>, g: GameStateView) -> Option<
    GameStateView,
> {
    if matched(load, 1) {
        Some(started(ts, text(load, 1), g))
    } else {
        None
    }
}

/// The state `r` is what `expected` says, by its view.
pub open spec fn agrees_some(r: Option<GameState>, expected: Option<GameStateView>) -> bool {
    match r {
        Some(s) => expected == Some(s@),
        None => expected is None,
    }
}

/// Folds a message of the world channel, given what the pattern captures in
/// it.
pub fn apply_world_state(timestamp: &Instant, load: &Option<Groups>, g: &GameState) -> (r: Option<
    GameState,
>)
    ensures
        agrees_some(r, world_outcome(*timestamp, load.deep_view(), g@)),
{
    if let Some(c) = load {
        if is_shaped(c, 1) {
            return Some(starting_game(timestamp, group(c, 1), g));
        }
    }
    None
}

/// Folds a message of the world channel.
pub fn parse_world_state(timestamp: &Instant, msg: &str, g: &GameState) -> (r: Option<GameState>)
    ensures
        agrees_some(r, world_outcome(*timestamp, captured_groups(map_pattern(), msg@), g@)),
{
    let load = captures(r"StartLoadingDestination to: /Game/Maps/(.*)", msg);
    apply_world_state(timestamp, &load, g)
}

/// The state with `ts` as the latest instant, or `None` where `ts` is
/// earlier than the latest instant: such a line is stale.
pub open spec fn accepted(ts: Instant, g: GameStateView) -> Option<GameStateView> {
    if ts.precedes(g.last_timestamp) {
        None
    } else {
        Some(GameStateView { last_timestamp: ts, ..g })
    }
}

/// Takes the instant of a line: a stale instant is refused, any other
/// becomes the latest instant of the state.
pub fn accept_instant(timestamp: &Instant, g: &GameState) -> (r: Option<GameState>)
    ensures
        agrees_some(r, accepted(*timestamp, g@)),
{
    if timestamp.is_before(&g.last_timestamp) {
        None
    } else {
        Some(
            GameState {
                games: copy_games(&g.games),
                current_game_start_time: g.current_game_start_time,
                last_timestamp: *timestamp,
                player_names: copy_registry(&g.player_names),
            },
        )
    }
}

/// What the message `msg` of channel `tag` does to the state `cur`, whose
/// latest instant is that of the line already. A message that its channel's
/// patterns do not match, and any message of another channel, leaves `cur`.
pub open spec fn message_outcome(ts: Instant, tag: Seq<char>, msg: Seq<char>, cur: GameStateView) -> Result<
    GameStateView,
    FoldError,
> {
    let handled = if tag == "LogSquad"@ {
        squad_outcome(
            ts,
            captured_groups(revive_pattern(), msg),
            captured_groups(damage_pattern(), msg),
            cur,
        )
    } else if tag == "LogSquadTrace"@ {
        trace_outcome(
            ts,
            captured_groups(role_pattern(), msg),
            captured_groups(down_pattern(), msg),
            captured_groups(change_pattern(), msg),
            cur,
        )
    } else if tag == "LogGameState"@ {
        game_state_outcome(captured_groups(match_state_pattern(), msg), cur)
    } else if tag == "LogWorld"@ {
        Ok(world_outcome(ts, captured_groups(map_pattern(), msg), cur))
    } else {
        Ok(None)
    };
    match handled {
        Err(e) => Err(e),
        Ok(Some(s)) => Ok(s),
        Ok(None) => Ok(cur),
    }
}

/// What a line does, given what the line pattern captures in it. A line
/// that the pattern does not match, whose timestamp is no instant, or whose
/// instant is stale does nothing: `None`. Any other line gives a state, with
/// the line's instant as the latest.
pub open spec fn line_outcome_of(line: Option<GroupsView>, g: GameStateView) -> Result<
    Option<GameStateView>,
    FoldError,
> {
    if !matched(line, 3) {
        Ok(None)
    } else {
        match token_instant(text(line, 1)) {
            None => Ok(None),
            Some(ts) => match accepted(ts, g) {
                None => Ok(None),
                Some(cur) => lift(message_outcome(ts, text(line, 2), text(line, 3), cur)),
            },
        }
    }
}

/// What a line of the log does to the state.
pub open spec fn line_outcome(line: Seq<char>, g: GameStateView) -> Result<Option<GameStateView>, FoldError> {
    line_outcome_of(captured_groups(line_pattern(), line), g)
}

/// The instant of a line, where the line has the form of a log line and its
/// timestamp is an instant.
pub open spec fn line_instant(line: Seq<char>) -> Option<Instant> {
    let c = captured_groups(line_pattern(), line);
    if matched(c, 3) {
        token_instant(text(c, 1))
    } else {
        None
    }
}

/// Folds the message of a line whose instant has been taken.
fn dispatch(timestamp: &Instant, tag: &str, msg: &str, cur: GameState) -> (r: Result<GameState, FoldError>)
    ensures
        agrees(r, message_outcome(*timestamp, tag@, msg@, cur@)),
{
    let handled = if same_text(tag, "LogSquad") {
        parse_logsquad(timestamp, msg, &cur)
    } else if same_text(tag, "LogSquadTrace") {
        parse_logtrace(timestamp, msg, &cur)
    } else if same_text(tag, "LogGameState") {
        parse_game_state(timestamp, msg, &cur)
    } else if same_text(tag, "LogWorld") {
        Ok(parse_world_state(timestamp, msg, &cur))
    } else {
        Ok(None)
    };
    match handled {
        Err(e) => Err(e),
        Ok(Some(s)) => Ok(s),
        Ok(None) => Ok(cur),
    }
}

/// Folds one line of the log into the state. `Ok(None)` says that the line
/// changes nothing; `Ok(Some(s))` gives the state after the line.
pub fn parse_line(line: &str, g: &GameState) -> (r: Result<Option<GameState>, FoldError>)
    ensures
        agrees_opt(r, line_outcome(line@, g@)),
        line_instant(line@) matches Some(ts) && ts.precedes(g@.last_timestamp) ==> r matches Ok(None),
        r matches Ok(Some(s)) ==> line_instant(line@) == Some(s@.last_timestamp),
{
    let found = captures(r"^\[(\d+.\d+.\d+-\d+.\d+.\d+:\d+)\]\[.*\](\w+): (.*)", line);
    let c = match &found {
        Some(c) => c,
        None => {
            return Ok(None);
        },
    };
    if !is_shaped(c, 3) {
        return Ok(None);
    }
    let timestamp = match get_dt(group(c, 1)) {
        Some(t) => t,
        None => {
            return Ok(None);
        },
    };
    let cur = match accept_instant(&timestamp, g) {
        Some(cur) => cur,
        None => {
            return Ok(None);
        },
    };
    match dispatch(&timestamp, group(c, 2), group(c, 3), cur) {
        Ok(s) => Ok(Some(s)),
        Err(e) => Err(e),
    }
}

} // verus!
