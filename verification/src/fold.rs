//! Folding a whole log: line after line, from a state to the state after the
//! last line.

use vstd::prelude::*;
use vstd::string::*;
use crate::capture::captured_groups;
use crate::error::FoldError;
use crate::game::{GameState, GameStateView};
use crate::handlers::agrees;
use crate::laws::{extends, in_order, lemma_line_extends, lemma_line_keeps_order, session_grown};
use crate::parse::{line_instant, line_outcome, line_pattern, parse_line};
use crate::strmap::Snapshot;

verus! {

/// The state after one more line: a line that changes nothing leaves the
/// state.
pub open spec fn stepped(line: Seq<char>, g: GameStateView) -> Result<GameStateView, FoldError> {
    match line_outcome(line, g) {
        Err(e) => Err(e),
        Ok(None) => Ok(g),
        Ok(Some(s)) => Ok(s),
    }
}

/// The state after the lines, folded in their order. The first line that
/// fails ends the folding with its error.
pub open spec fn folded(lines: Seq<Seq<char>>, g: GameStateView) -> Result<GameStateView, FoldError>
    decreases lines.len(),
{
    if lines.len() == 0 {
        Ok(g)
    } else {
        match folded(lines.drop_last(), g) {
            Err(e) => Err(e),
            Ok(s) => stepped(lines.last(), s),
        }
    }
}

/// An error among the first lines is the error of the whole log.
proof fn lemma_error_stays(lines: Seq<Seq<char>>, g: GameStateView, i: int)
    requires
        0 <= i <= lines.len(),
        folded(lines.take(i), g) is Err,
    ensures
        folded(lines, g) == folded(lines.take(i), g),
    decreases lines.len() - i,
{
    if i < lines.len() {
        assert(lines.take(i + 1).drop_last() =~= lines.take(i));
        lemma_error_stays(lines, g, i + 1);
    } else {
        assert(lines.take(i) =~= lines);
    }
}

/// Folds the lines of a log into the state, in their order, and stops at the
/// first line that fails.
pub fn fold_lines(lines: &Vec<String>, g: &GameState) -> (r: Result<GameState, FoldError>)
    ensures
        agrees(r, folded(lines.deep_view(), g@)),
{
    let ghost all = lines.deep_view();
    let mut state = g.snapshot();
    let mut i: usize = 0;
    while i < lines.len()
        invariant
            i <= lines@.len(),
            all == lines.deep_view(),
            folded(all.take(i as int), g@) == Ok::<GameStateView, FoldError>(state@),
        decreases lines@.len() - i,
    {
        proof {
            assert(all.take(i + 1).drop_last() =~= all.take(i as int));
        }
        match parse_line(lines[i].as_str(), &state) {
            Ok(Some(next)) => {
                state = next;
            },
            Ok(None) => {},
            Err(e) => {
                proof {
                    lemma_error_stays(all, g@, i + 1);
                }
                return Err(e);
            },
        }
        i = i + 1;
    }
    assert(all.take(i as int) =~= all);
    Ok(state)
}

/// `s` holds every session of `g`, at the same place, with the same map and
/// start and with every player it had.
pub open spec fn keeps_all(g: GameStateView, s: GameStateView) -> bool {
    &&& s.games.len() >= g.games.len()
    &&& forall|j: int| 0 <= j < g.games.len() ==> #[trigger] session_grown(g, s, j)
}

/// One line keeps the sessions in order and removes nothing.
proof fn lemma_step(line: Seq<char>, g: GameStateView)
    requires
        stepped(line, g) is Ok,
    ensures
        keeps_all(g, stepped(line, g)->Ok_0),
        in_order(g) ==> in_order(stepped(line, g)->Ok_0),
        !stepped(line, g)->Ok_0.last_timestamp.precedes(g.last_timestamp),
{
    let c = captured_groups(line_pattern(), line);
    if line_outcome(line, g) matches Ok(Some(_)) {
        lemma_line_extends(c, g);
        if in_order(g) {
            lemma_line_keeps_order(c, g);
        }
        assert(extends(g, stepped(line, g)->Ok_0));
    }
}

/// Whatever the log: no session is ever removed or moved, nor its map or
/// start changed, and no player ever leaves a session.
pub proof fn lemma_fold_removes_nothing(lines: Seq<Seq<char>>, g: GameStateView)
    requires
        folded(lines, g) is Ok,
    ensures
        keeps_all(g, folded(lines, g)->Ok_0),
    decreases lines.len(),
{
    if lines.len() > 0 {
        lemma_fold_removes_nothing(lines.drop_last(), g);
        let s = folded(lines.drop_last(), g)->Ok_0;
        lemma_step(lines.last(), s);
        let t = folded(lines, g)->Ok_0;
        assert forall|j: int| 0 <= j < g.games.len() implies #[trigger] session_grown(g, t, j) by {
            assert(session_grown(s, t, j));
        }
    }
}

/// Whatever the log: where the sessions are in the order of their starts
/// and none starts after the latest instant, that is so afterwards too, and
/// the latest instant has not gone back.
pub proof fn lemma_fold_keeps_order(lines: Seq<Seq<char>>, g: GameStateView)
    requires
        in_order(g),
        folded(lines, g) is Ok,
    ensures
        in_order(folded(lines, g)->Ok_0),
        !folded(lines, g)->Ok_0.last_timestamp.precedes(g.last_timestamp),
    decreases lines.len(),
{
    if lines.len() > 0 {
        lemma_fold_keeps_order(lines.drop_last(), g);
        lemma_step(lines.last(), folded(lines.drop_last(), g)->Ok_0);
    }
}

/// The line has no instant, or one that is earlier than the latest instant
/// of the state.
pub open spec fn is_stale(line: Seq<char>, g: GameStateView) -> bool {
    match line_instant(line) {
        Some(ts) => ts.precedes(g.last_timestamp),
        None => true,
    }
}

/// A log of stale lines changes nothing: what was folded once can be read
/// again, up to the latest instant, without counting anything twice.
pub proof fn lemma_stale_log_changes_nothing(lines: Seq<Seq<char>>, g: GameStateView)
    requires
        forall|i: int| 0 <= i < lines.len() ==> is_stale(#[trigger] lines[i], g),
    ensures
        folded(lines, g) == Ok::<GameStateView, FoldError>(g),
    decreases lines.len(),
{
    if lines.len() > 0 {
        lemma_stale_log_changes_nothing(lines.drop_last(), g);
    }
}

} // verus!
