//! Lifetime totals: what each player did over all sessions.

use vstd::prelude::*;
use crate::error::FoldError;
use crate::game::{GameState, GameView};
use crate::player::{Player, PlayerView, Tally};
use crate::strmap::{Snapshot, StrMap};
use crate::strset::StrSet;

verus! {

/// The lifetime record of a player. The player's name is the key under which
/// the totals hold this record.
#[derive(Debug)]
pub struct PlayerOutput {
    pub kills: Tally,
    pub killed_by: Tally,
    pub revives: Tally,
    pub revived_by: Tally,
    pub classes: StrSet,
}

/// A lifetime record as a mathematical value.
#[verifier::ext_equal]
pub struct PlayerOutputView {
    pub kills: Map<Seq<char>, u32>,
    pub killed_by: Map<Seq<char>, u32>,
    pub revives: Map<Seq<char>, u32>,
    pub revived_by: Map<Seq<char>, u32>,
    pub classes: Set<Seq<char>>,
}

impl View for PlayerOutput {
    type V = PlayerOutputView;

    open spec fn view(&self) -> PlayerOutputView {
        PlayerOutputView {
            kills: self.kills@,
            killed_by: self.killed_by@,
            revives: self.revives@,
            revived_by: self.revived_by@,
            classes: self.classes@,
        }
    }
}

impl Snapshot for PlayerOutput {
    fn snapshot(&self) -> (r: Self) {
        PlayerOutput {
            kills: self.kills.snapshot(),
            killed_by: self.killed_by.snapshot(),
            revives: self.revives.snapshot(),
            revived_by: self.revived_by.snapshot(),
            classes: self.classes.snapshot(),
        }
    }
}

/// Some count of `a` and the count of `b` under the same key are together
/// more than a counter can hold.
pub open spec fn sum_overflows(a: Map<Seq<char>, u32>, b: Map<Seq<char>, u32>) -> bool {
    exists|k: Seq<char>| a.contains_key(k) && b.contains_key(k) && a[k] + b[k] > u32::MAX
}

/// The sum of two tallies, key by key: a key of either is a key of the sum.
/// `None` where a sum is more than a counter can hold.
pub open spec fn sum_tallies(a: Map<Seq<char>, u32>, b: Map<Seq<char>, u32>) -> Option<Map<Seq<char>, u32>> {
    if sum_overflows(a, b) {
        None
    } else {
        Some(
            Map::new(
                |k: Seq<char>| a.contains_key(k) || b.contains_key(k),
                |k: Seq<char>|
                    if a.contains_key(k) && b.contains_key(k) {
                        (a[k] + b[k]) as u32
                    } else if a.contains_key(k) {
                        a[k]
                    } else {
                        b[k]
                    },
            ),
        )
    }
}

/// One of the first `j` keys of `b` is `k`.
spec fn among_first<V: View>(b: &StrMap<V>, j: int, k: Seq<char>) -> bool {
    exists|t: int| 0 <= t < j && #[trigger] b.spec_key(t) == k
}

/// The sum of two tallies.
pub fn add_tallies(a: &Tally, b: &Tally) -> (r: Option<Tally>)
    ensures
        match r {
            Some(t) => sum_tallies(a@, b@) == Some(t@),
            None => sum_tallies(a@, b@) is None,
        },
{
    let mut out = a.snapshot();
    let n = b.len();
    let mut j: usize = 0;
    while j < n
        invariant
            j <= n,
            n == b.spec_len(),
            b.enumerated(),
            forall|k: Seq<char>| #[trigger] out@.contains_key(k) <==> a@.contains_key(k) || among_first(b, j as int, k),
            forall|k: Seq<char>|
                a@.contains_key(k) && !among_first(b, j as int, k) ==> #[trigger] out@[k] == a@[k],
            forall|t: int|
                0 <= t < j ==> (a@.contains_key(#[trigger] b.spec_key(t)) ==> a@[b.spec_key(t)] + b.spec_value(t)
                    <= u32::MAX) && out@[b.spec_key(t)] == (if a@.contains_key(b.spec_key(t)) {
                    a@[b.spec_key(t)] + b.spec_value(t)
                } else {
                    b.spec_value(t) as int
                }),
        decreases n - j,
    {
        let key = b.key_at(j);
        let add: u32 = *b.value_at(j);
        let have: u32 = match out.get(key.as_str()) {
            Some(c) => *c,
            None => 0,
        };
        if add > u32::MAX - have {
            return None;
        }
        out = out.with(key.clone(), have + add);
        j = j + 1;
    }
    assert(out@ =~= sum_tallies(a@, b@)->0);
    Some(out)
}

/// The members of either set.
pub fn union(a: &StrSet, b: &StrSet) -> (r: StrSet)
    ensures
        r@ == a@.union(b@),
{
    let mut out = a.snapshot();
    let n = b.len();
    let mut j: usize = 0;
    while j < n
        invariant
            j <= n,
            n == b.spec_len(),
            b.enumerated(),
            forall|k: Seq<char>|
                #[trigger] out@.contains(k) <==> a@.contains(k) || exists|t: int|
                    0 <= t < j && #[trigger] b.spec_item(t) == k,
        decreases n - j,
    {
        let item = b.item_at(j);
        out = out.with(item.clone());
        j = j + 1;
    }
    out
}

/// The record of a player who is in one session only.
pub open spec fn record_of(p: PlayerView) -> PlayerOutputView {
    PlayerOutputView {
        kills: p.players_killed,
        killed_by: p.players_killed_by,
        revives: p.players_revived,
        revived_by: p.players_revived_by,
        classes: p.classes_played,
    }
}

/// A record with what a player did in one more session: the counters are
/// added, the classes joined. `None` where a sum is more than a counter can
/// hold.
pub open spec fn merged(rec: PlayerOutputView, p: PlayerView) -> Option<PlayerOutputView> {
    if sum_overflows(rec.kills, p.players_killed) || sum_overflows(rec.killed_by, p.players_killed_by)
        || sum_overflows(rec.revives, p.players_revived) || sum_overflows(
        rec.revived_by,
        p.players_revived_by,
    ) {
        None
    } else {
        Some(
            PlayerOutputView {
                kills: sum_tallies(rec.kills, p.players_killed)->0,
                killed_by: sum_tallies(rec.killed_by, p.players_killed_by)->0,
                revives: sum_tallies(rec.revives, p.players_revived)->0,
                revived_by: sum_tallies(rec.revived_by, p.players_revived_by)->0,
                classes: rec.classes.union(p.classes_played),
            },
        )
    }
}

/// A record with what a player did in one more session.
pub fn merge_player(rec: &PlayerOutput, p: &Player) -> (r: Option<PlayerOutput>)
    ensures
        match r {
            Some(m) => merged(rec@, p@) == Some(m@),
            None => merged(rec@, p@) is None,
        },
{
    let kills = match add_tallies(&rec.kills, &p.players_killed) {
        Some(t) => t,
        None => {
            return None;
        },
    };
    let killed_by = match add_tallies(&rec.killed_by, &p.players_killed_by) {
        Some(t) => t,
        None => {
            return None;
        },
    };
    let revives = match add_tallies(&rec.revives, &p.players_revived) {
        Some(t) => t,
        None => {
            return None;
        },
    };
    let revived_by = match add_tallies(&rec.revived_by, &p.players_revived_by) {
        Some(t) => t,
        None => {
            return None;
        },
    };
    Some(PlayerOutput { kills, killed_by, revives, revived_by, classes: union(&rec.classes, &p.classes_played) })
}

/// Some player of the session has a record in `acc`, and the two cannot be
/// merged.
pub open spec fn roster_overflows(
    acc: Map<Seq<char>, PlayerOutputView>,
    roster: Map<Seq<char>, PlayerView>,
) -> bool {
    exists|n: Seq<char>| #[trigger] has_record(acc, n) && roster.contains_key(n) && merged(acc[n], roster[n]) is None
}

/// The totals hold a record for `name`.
pub open spec fn has_record(acc: Map<Seq<char>, PlayerOutputView>, name: Seq<char>) -> bool {
    acc.contains_key(name)
}

/// The totals with the players of one more session: a player who has a
/// record gets the session merged into it, any other player gets a record.
pub open spec fn with_session(
    acc: Map<Seq<char>, PlayerOutputView>,
    roster: Map<Seq<char>, PlayerView>,
) -> Option<Map<Seq<char>, PlayerOutputView>> {
    if roster_overflows(acc, roster) {
        None
    } else {
        Some(
            Map::new(
                |n: Seq<char>| acc.contains_key(n) || roster.contains_key(n),
                |n: Seq<char>|
                    if acc.contains_key(n) && roster.contains_key(n) {
                        merged(acc[n], roster[n])->0
                    } else if acc.contains_key(n) {
                        acc[n]
                    } else {
                        record_of(roster[n])
                    },
            ),
        )
    }
}

/// The totals over a list of sessions: one record for each name that is a
/// player of some session. `None` where a sum is more than a counter can
/// hold.
pub open spec fn lifetime_of(games: Seq<GameView>) -> Option<Map<Seq<char>, PlayerOutputView>>
    decreases games.len(),
{
    if games.len() == 0 {
        Some(Map::empty())
    } else {
        match lifetime_of(games.drop_last()) {
            None => None,
            Some(acc) => with_session(acc, games.last().players),
        }
    }
}

/// The record that a player's session gives, taken by itself.
fn first_record(p: &Player) -> (r: PlayerOutput)
    ensures
        r@ == record_of(p@),
{
    PlayerOutput {
        kills: p.players_killed.snapshot(),
        killed_by: p.players_killed_by.snapshot(),
        revives: p.players_revived.snapshot(),
        revived_by: p.players_revived_by.snapshot(),
        classes: p.classes_played.snapshot(),
    }
}

/// The totals with the players of one more session.
pub fn merge_session(acc: StrMap<PlayerOutput>, roster: &StrMap<Player>) -> (r: Option<StrMap<PlayerOutput>>)
    ensures
        match r {
            Some(m) => with_session(acc@, roster@) == Some(m@),
            None => with_session(acc@, roster@) is None,
        },
{
    let ghost start = acc@;
    let mut out = acc;
    let n = roster.len();
    let mut j: usize = 0;
    while j < n
        invariant
            j <= n,
            n == roster.spec_len(),
            roster.enumerated(),
            start == acc@,
            forall|k: Seq<char>|
                #[trigger] out@.contains_key(k) <==> start.contains_key(k) || among_first(roster, j as int, k),
            forall|k: Seq<char>|
                start.contains_key(k) && !among_first(roster, j as int, k) ==> #[trigger] out@[k] == start[k],
            forall|t: int|
                0 <= t < j ==> (start.contains_key(#[trigger] roster.spec_key(t)) ==> merged(
                    start[roster.spec_key(t)],
                    roster.spec_value(t),
                ) is Some) && out@[roster.spec_key(t)] == (if start.contains_key(roster.spec_key(t)) {
                    merged(start[roster.spec_key(t)], roster.spec_value(t))->0
                } else {
                    record_of(roster.spec_value(t))
                }),
        decreases n - j,
    {
        let name = roster.key_at(j);
        let p = roster.value_at(j);
        let rec = match out.get(name.as_str()) {
            Some(have) => match merge_player(have, p) {
                Some(m) => m,
                None => {
                    assert(has_record(start, name@));
                    return None;
                },
            },
            None => first_record(p),
        };
        out = out.with(name.clone(), rec);
        j = j + 1;
    }
    assert(out@ =~= with_session(start, roster@)->0);
    Some(out)
}

/// Where the totals over the first sessions of a list cannot be had, the
/// totals over the whole list cannot be had.
proof fn lemma_overflow_stays(games: Seq<GameView>, i: int)
    requires
        0 <= i <= games.len(),
        lifetime_of(games.take(i)) is None,
    ensures
        lifetime_of(games) is None,
    decreases games.len() - i,
{
    if i < games.len() {
        assert(games.take(i + 1).drop_last() =~= games.take(i));
        lemma_overflow_stays(games, i + 1);
    } else {
        assert(games.take(i) =~= games);
    }
}

/// The lifetime totals of every player over all sessions of the state.
pub fn lifetime_stats(g: &GameState) -> (r: Result<StrMap<PlayerOutput>, FoldError>)
    ensures
        match r {
            Ok(m) => lifetime_of(g@.games) == Some(m@),
            Err(e) => e == FoldError::CounterOverflow && lifetime_of(g@.games) is None,
        },
{
    let mut acc: StrMap<PlayerOutput> = StrMap::new();
    let mut i: usize = 0;
    while i < g.games.len()
        invariant
            i <= g.games@.len(),
            lifetime_of(g@.games.take(i as int)) == Some(acc@),
        decreases g.games@.len() - i,
    {
        proof {
            assert(g@.games.take(i + 1).drop_last() =~= g@.games.take(i as int));
        }
        acc = match merge_session(acc, &g.games[i].players) {
            Some(m) => m,
            None => {
                proof {
                    lemma_overflow_stays(g@.games, i + 1);
                }
                return Err(FoldError::CounterOverflow);
            },
        };
        i = i + 1;
    }
    assert(g@.games.take(i as int) =~= g@.games);
    Ok(acc)
}

} // verus!
