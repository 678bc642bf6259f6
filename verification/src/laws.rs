//! What holds of the folding of events, whatever the log.

use vstd::prelude::*;
use vstd::string::*;
use crate::amount::amount_of;
use crate::capture::{captured_groups, GroupsView};
use crate::error::FoldError;
use crate::game::{
    current_index, has_current, is_current, lemma_current_exists, lemma_current_unique, GameStateView,
};
use crate::handlers::{damaged, downed, ended, null_name, revived, spawned};
use crate::instant::{token_instant, Instant};
use crate::names::resolution;
use crate::parse::{
    accepted, change_pattern, damage_pattern, down_pattern, line_outcome_of, map_pattern, matched,
    message_outcome, or_base, revive_pattern, role_pattern, squad_outcome, text, trace_outcome, world_outcome,
};

verus! {

/// A spawn in a state with a current session succeeds, and the same session
/// is the current one afterwards.
pub proof fn lemma_spawn_keeps_current(ts: Instant, name: Seq<char>, class: Seq<char>, g: GameStateView)
    requires
        has_current(g),
    ensures
        spawned(ts, name, class, g) is Ok,
        has_current(spawned(ts, name, class, g)->Ok_0),
        current_index(spawned(ts, name, class, g)->Ok_0) == current_index(g),
{
    lemma_current_exists(g);
    let i = current_index(g);
    let s = spawned(ts, name, class, g)->Ok_0;
    lemma_current_unique(s, i);
}

/// The classes that `name` has played in the current session; none where
/// there is no such player.
pub open spec fn classes_of(g: GameStateView, name: Seq<char>) -> Set<Seq<char>> {
    if has_current(g) && g.games[current_index(g)].players.contains_key(name) {
        g.games[current_index(g)].players[name].classes_played
    } else {
        Set::empty()
    }
}

/// The state after `name` has spawned once for each class of `classes`, in
/// their order, at the instants of `times`.
pub open spec fn spawned_in_turn(
    times: Seq<Instant>,
    name: Seq<char>,
    classes: Seq<Seq<char>>,
    g: GameStateView,
) -> Result<GameStateView, FoldError>
    decreases classes.len(),
{
    if classes.len() == 0 {
        Ok(g)
    } else {
        match spawned_in_turn(times.drop_last(), name, classes.drop_last(), g) {
            Err(e) => Err(e),
            Ok(s) => spawned(times.last(), name, classes.last(), s),
        }
    }
}

/// After any number of spawns of one player, the classes that the player
/// has played are those played before together with every class of the
/// spawns.
pub proof fn lemma_classes_are_union(
    times: Seq<Instant>,
    name: Seq<char>,
    classes: Seq<Seq<char>>,
    g: GameStateView,
)
    requires
        has_current(g),
        times.len() == classes.len(),
    ensures
        spawned_in_turn(times, name, classes, g) is Ok,
        has_current(spawned_in_turn(times, name, classes, g)->Ok_0),
        current_index(spawned_in_turn(times, name, classes, g)->Ok_0) == current_index(g),
        classes_of(spawned_in_turn(times, name, classes, g)->Ok_0, name) == classes_of(g, name).union(
            classes.to_set(),
        ),
    decreases classes.len(),
{
    if classes.len() > 0 {
        let earlier = classes.drop_last();
        lemma_classes_are_union(times.drop_last(), name, earlier, g);
        let s = spawned_in_turn(times.drop_last(), name, earlier, g)->Ok_0;
        lemma_spawn_keeps_current(times.last(), name, classes.last(), s);
        lemma_current_exists(s);
        assert(earlier.push(classes.last()) =~= classes);
    }
}

/// The classes that a player has played after a number of spawns do not
/// depend on the order of the spawns, nor on their instants.
pub proof fn lemma_classes_in_any_order(
    times_a: Seq<Instant>,
    classes_a: Seq<Seq<char>>,
    times_b: Seq<Instant>,
    classes_b: Seq<Seq<char>>,
    name: Seq<char>,
    g: GameStateView,
)
    requires
        has_current(g),
        times_a.len() == classes_a.len(),
        times_b.len() == classes_b.len(),
        classes_a.to_multiset() == classes_b.to_multiset(),
    ensures
        classes_of(spawned_in_turn(times_a, name, classes_a, g)->Ok_0, name) == classes_of(
            spawned_in_turn(times_b, name, classes_b, g)->Ok_0,
            name,
        ),
{
    lemma_classes_are_union(times_a, name, classes_a, g);
    lemma_classes_are_union(times_b, name, classes_b, g);
    classes_a.to_multiset_ensures();
    classes_b.to_multiset_ensures();
    assert forall|c: Seq<char>| classes_a.to_set().contains(c) <==> classes_b.to_set().contains(c) by {
        assert(classes_a.contains(c) <==> classes_a.to_multiset().count(c) > 0);
    }
}

/// The damager on record of `name` in the current session.
pub open spec fn damager_of(g: GameStateView, name: Seq<char>) -> Option<Seq<char>> {
    g.games[current_index(g)].players[name].last_damaged
}

/// Damage from the null name leaves the damager on record as it was.
pub proof fn lemma_null_shooter_keeps_damager(damage: i64, target: Seq<char>, g: GameStateView)
    requires
        damaged(null_name(), damage, target, g) is Ok,
    ensures
        ({
            let victim = resolution(target, g.player_names)->Ok_0.0;
            let after = damaged(null_name(), damage, target, g)->Ok_0;
            &&& has_current(after)
            &&& current_index(after) == current_index(g)
            &&& damager_of(after, victim) == damager_of(g, victim)
        }),
{
    lemma_current_exists(g);
    let i = current_index(g);
    let after = damaged(null_name(), damage, target, g)->Ok_0;
    lemma_current_unique(after, i);
}

/// When a match has ended, the registry is empty and every session is as it
/// was, each player of it too.
pub proof fn lemma_session_end_freezes(g: GameStateView)
    requires
        ended(g) matches Ok(Some(_)),
    ensures
        ended(g)->Ok_0->0.player_names == Seq::<(Seq<char>, Option<Seq<char>>)>::empty(),
        ended(g)->Ok_0->0.games == g.games,
        ended(g)->Ok_0->0.current_game_start_time == g.current_game_start_time,
        ended(g)->Ok_0->0.last_timestamp == g.last_timestamp,
{
}

/// A line whose instant is earlier than the latest instant of the state
/// changes nothing.
pub proof fn lemma_stale_line_changes_nothing(line: Option<GroupsView>, ts: Instant, g: GameStateView)
    requires
        matched(line, 3),
        token_instant(text(line, 1)) == Some(ts),
        ts.precedes(g.last_timestamp),
    ensures
        line_outcome_of(line, g) == Ok::<Option<GameStateView>, FoldError>(None),
{
}

/// Session `j` of `s` is session `j` of `g` grown: the same map and start,
/// and every player of before is a player still.
pub open spec fn session_grown(g: GameStateView, s: GameStateView, j: int) -> bool {
    &&& s.games[j].start_time == g.games[j].start_time
    &&& s.games[j].map == g.games[j].map
    &&& g.games[j].players.dom().subset_of(s.games[j].players.dom())
}

/// `s` comes after `g` within one session: the sessions are the same in
/// number, map and start, no player has left, and no session but the current
/// one has changed at all. The current start and the latest instant are as
/// they were.
pub open spec fn follows(g: GameStateView, s: GameStateView) -> bool {
    &&& s.games.len() == g.games.len()
    &&& s.current_game_start_time == g.current_game_start_time
    &&& s.last_timestamp == g.last_timestamp
    &&& forall|j: int|
        0 <= j < g.games.len() ==> #[trigger] session_grown(g, s, j) && (is_current(g, j) || s.games[j]
            == g.games[j])
}

/// What follows a state that follows another, follows the first.
pub proof fn lemma_follows_in_turn(a: GameStateView, b: GameStateView, c: GameStateView)
    requires
        follows(a, b),
        follows(b, c),
    ensures
        follows(a, c),
{
    assert forall|j: int| 0 <= j < a.games.len() implies #[trigger] session_grown(a, c, j) && (is_current(a, j)
        || c.games[j] == a.games[j]) by {
        assert(session_grown(a, b, j));
        assert(session_grown(b, c, j));
        if !is_current(a, j) {
            if is_current(b, j) {
                assert forall|k: int| j < k < a.games.len() implies (#[trigger] a.games[k]).start_time
                    != a.current_game_start_time by {
                    assert(session_grown(a, b, k));
                }
            }
        }
    }
}

/// Every state follows itself.
pub proof fn lemma_follows_itself(g: GameStateView)
    ensures
        follows(g, g),
{
}

/// The state after a spawn follows the state before it.
pub proof fn lemma_spawn_follows(ts: Instant, name: Seq<char>, class: Seq<char>, g: GameStateView)
    requires
        spawned(ts, name, class, g) is Ok,
    ensures
        follows(g, spawned(ts, name, class, g)->Ok_0),
{
    lemma_current_exists(g);
}

/// The state after damage follows the state before it.
pub proof fn lemma_damage_follows(shooter: Seq<char>, damage: i64, target: Seq<char>, g: GameStateView)
    requires
        damaged(shooter, damage, target, g) is Ok,
    ensures
        follows(g, damaged(shooter, damage, target, g)->Ok_0),
{
    lemma_current_exists(g);
}

/// The state after a down follows the state before it.
pub proof fn lemma_down_follows(ts: Instant, target: Seq<char>, g: GameStateView)
    requires
        downed(ts, target, g) is Ok,
    ensures
        follows(g, downed(ts, target, g)->Ok_0),
{
    lemma_current_exists(g);
}

/// The state after a revive follows the state before it.
pub proof fn lemma_revive_follows(reviver: Seq<char>, revivee: Seq<char>, g: GameStateView)
    requires
        revived(reviver, revivee, g) is Ok,
    ensures
        follows(g, revived(reviver, revivee, g)->Ok_0),
{
    lemma_current_exists(g);
    assert(is_current(g, current_index(g)));
}

/// What a message of the combat channel makes follows the state before it.
pub proof fn lemma_squad_follows(
    ts: Instant,
    revive: Option<GroupsView>,
    hit: Option<GroupsView>,
    g: GameStateView,
)
    requires
        squad_outcome(ts, revive, hit, g) matches Ok(Some(_)),
    ensures
        follows(g, squad_outcome(ts, revive, hit, g)->Ok_0->0),
{
    let g1 = if matched(revive, 2) {
        lemma_revive_follows(text(revive, 1), text(revive, 2), g);
        revived(text(revive, 1), text(revive, 2), g)->Ok_0
    } else {
        g
    };
    if matched(hit, 4) {
        let amount = amount_of(text(hit, 2))->0;
        lemma_damage_follows(text(hit, 3), amount, text(hit, 1), g1);
        lemma_follows_in_turn(g, g1, damaged(text(hit, 3), amount, text(hit, 1), g1)->Ok_0);
    }
}

/// A state that differs only in its registry from one that follows `g`,
/// follows `g`.
proof fn lemma_registry_apart(g: GameStateView, mid: GameStateView, s: GameStateView)
    requires
        follows(g, mid),
        s.games == mid.games,
        s.current_game_start_time == mid.current_game_start_time,
        s.last_timestamp == mid.last_timestamp,
    ensures
        follows(g, s),
{
    assert forall|j: int| 0 <= j < g.games.len() implies #[trigger] session_grown(g, s, j) && (is_current(g, j)
        || s.games[j] == g.games[j]) by {
        assert(session_grown(g, mid, j));
    }
}

/// What a message of the trace channel makes follows the state before it.
pub proof fn lemma_trace_follows(
    ts: Instant,
    role: Option<GroupsView>,
    down: Option<GroupsView>,
    change: Option<GroupsView>,
    g: GameStateView,
)
    requires
        trace_outcome(ts, role, down, change, g) matches Ok(Some(_)),
    ensures
        follows(g, trace_outcome(ts, role, down, change, g)->Ok_0->0),
{
    let g1 = if matched(role, 2) && text(role, 2) != null_name() {
        lemma_spawn_follows(ts, text(role, 1), text(role, 2), g);
        spawned(ts, text(role, 1), text(role, 2), g)->Ok_0
    } else {
        g
    };
    let g2 = if matched(down, 4) {
        if text(down, 1) == null_name() {
            g
        } else {
            lemma_down_follows(ts, text(down, 1), g1);
            lemma_follows_in_turn(g, g1, downed(ts, text(down, 1), g1)->Ok_0);
            downed(ts, text(down, 1), g1)->Ok_0
        }
    } else {
        g1
    };
    let s = trace_outcome(ts, role, down, change, g)->Ok_0->0;
    lemma_registry_apart(g, g2, s);
}

/// `s` comes after `g`: every session of `g` is a session of `s`, at the
/// same place, with the same map and start and with every player it had; of
/// these sessions only the current one of `g` can have changed at all.
pub open spec fn extends(g: GameStateView, s: GameStateView) -> bool {
    &&& s.games.len() >= g.games.len()
    &&& forall|j: int|
        0 <= j < g.games.len() ==> #[trigger] session_grown(g, s, j) && (is_current(g, j) || s.games[j]
            == g.games[j])
}

/// Sessions are only ever added, and players too: the state after a line
/// extends the state before it.
pub proof fn lemma_line_extends(line: Option<GroupsView>, g: GameStateView)
    requires
        line_outcome_of(line, g) matches Ok(Some(_)),
    ensures
        extends(g, line_outcome_of(line, g)->Ok_0->0),
{
    let ts = token_instant(text(line, 1))->0;
    let cur = accepted(ts, g)->0;
    let tag = text(line, 2);
    let msg = text(line, 3);
    let s = line_outcome_of(line, g)->Ok_0->0;
    lemma_message_extends(ts, tag, msg, cur);
    assert forall|j: int| 0 <= j < g.games.len() implies #[trigger] session_grown(g, s, j) && (is_current(g, j)
        || s.games[j] == g.games[j]) by {
        assert(session_grown(cur, s, j));
    }
}

/// The state after a message extends the state before it, and has the same
/// latest instant.
pub proof fn lemma_message_extends(ts: Instant, tag: Seq<char>, msg: Seq<char>, cur: GameStateView)
    requires
        message_outcome(ts, tag, msg, cur) is Ok,
    ensures
        extends(cur, message_outcome(ts, tag, msg, cur)->Ok_0),
        message_outcome(ts, tag, msg, cur)->Ok_0.last_timestamp == cur.last_timestamp,
        tag != "LogWorld"@ ==> follows(cur, message_outcome(ts, tag, msg, cur)->Ok_0),
        tag == "LogWorld"@ ==> message_outcome(ts, tag, msg, cur)->Ok_0 == or_base(
            world_outcome(ts, captured_groups(map_pattern(), msg), cur),
            cur,
        ),
{
    reveal_strlit("LogSquad");
    reveal_strlit("LogSquadTrace");
    reveal_strlit("LogGameState");
    reveal_strlit("LogWorld");
    assert("LogSquad"@[3] != "LogWorld"@[3]);
    if tag == "LogSquad"@ {
        let revive = captured_groups(revive_pattern(), msg);
        let hit = captured_groups(damage_pattern(), msg);
        if squad_outcome(ts, revive, hit, cur) matches Ok(Some(_)) {
            lemma_squad_follows(ts, revive, hit, cur);
        }
    } else if tag == "LogSquadTrace"@ {
        let role = captured_groups(role_pattern(), msg);
        let down = captured_groups(down_pattern(), msg);
        let change = captured_groups(change_pattern(), msg);
        if trace_outcome(ts, role, down, change, cur) matches Ok(Some(_)) {
            lemma_trace_follows(ts, role, down, change, cur);
        }
    }
    assert(extends(cur, message_outcome(ts, tag, msg, cur)->Ok_0));
}

/// The sessions are in the order of their starts, and none starts after the
/// latest instant of the state.
pub open spec fn in_order(g: GameStateView) -> bool {
    &&& forall|i: int, j: int|
        0 <= i <= j < g.games.len() ==> !(#[trigger] g.games[j]).start_time.precedes(
            (#[trigger] g.games[i]).start_time,
        )
    &&& forall|i: int| 0 <= i < g.games.len() ==> !g.last_timestamp.precedes((#[trigger] g.games[i]).start_time)
}

/// Folding a line keeps the sessions in the order of their starts, and the
/// latest instant never goes back.
pub proof fn lemma_line_keeps_order(line: Option<GroupsView>, g: GameStateView)
    requires
        in_order(g),
        line_outcome_of(line, g) matches Ok(Some(_)),
    ensures
        in_order(line_outcome_of(line, g)->Ok_0->0),
        !line_outcome_of(line, g)->Ok_0->0.last_timestamp.precedes(g.last_timestamp),
{
    let ts = token_instant(text(line, 1))->0;
    let cur = accepted(ts, g)->0;
    let tag = text(line, 2);
    let msg = text(line, 3);
    let s = line_outcome_of(line, g)->Ok_0->0;
    lemma_message_extends(ts, tag, msg, cur);
    if tag != "LogWorld"@ || s == cur {
        assert forall|i: int| 0 <= i < s.games.len() implies (#[trigger] s.games[i]).start_time
            == cur.games[i].start_time by {
            if tag != "LogWorld"@ {
                assert(session_grown(cur, s, i));
            }
        }
    }
}

} // verus!
