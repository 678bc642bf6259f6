use squad_stats::error::FoldError;
use squad_stats::game::{Game, GameState};
use squad_stats::instant::Instant;
use squad_stats::player::{Player, PlayerState, Tally, FULL_HEALTH};
use squad_stats::stats::{lifetime_stats, merge_player, merge_session, PlayerOutput};
use squad_stats::strmap::StrMap;
use squad_stats::strset::StrSet;

fn counts(pairs: &[(&str, u32)]) -> Tally {
    let mut t: Tally = StrMap::new();
    for (k, v) in pairs {
        t = t.with(k.to_string(), *v);
    }
    t
}

fn classes(items: &[&str]) -> StrSet {
    let mut s = StrSet::new();
    for i in items {
        s = s.with(i.to_string());
    }
    s
}

fn veteran(kills: &[(&str, u32)], killed_by: &[(&str, u32)], revives: &[(&str, u32)], played: &[&str]) -> Player {
    Player {
        state: PlayerState::Playing,
        hitpoints: FULL_HEALTH,
        last_damaged: None,
        last_spawn_time: None,
        last_down_time: None,
        players_killed_by: counts(killed_by),
        players_killed: counts(kills),
        classes_played: classes(played),
        players_revived_by: counts(&[]),
        players_revived: counts(revives),
    }
}

fn session(start: i64, players: Vec<(&str, Player)>) -> Game {
    let mut roster = StrMap::new();
    for (n, p) in players {
        roster = roster.with(n.to_string(), p);
    }
    Game { map: "Narva".to_string(), players: roster, start_time: Instant { secs: start, nanos: 0 } }
}

fn history(games: Vec<Game>) -> GameState {
    let last = games.last().map(|g| g.start_time).unwrap_or(Instant { secs: 0, nanos: 0 });
    GameState { games, current_game_start_time: last, last_timestamp: last, player_names: Vec::new() }
}

#[test]
fn no_sessions_give_no_records() {
    assert_eq!(lifetime_stats(&history(vec![])).unwrap().len(), 0);
    assert_eq!(lifetime_stats(&history(vec![session(1, vec![])])).unwrap().len(), 0);
}

#[test]
fn one_session_gives_each_player_a_record_of_that_session() {
    let g = history(vec![session(
        1,
        vec![
            ("Alice", veteran(&[("Bob", 2)], &[("Bob", 1)], &[], &["Rifleman"])),
            ("Bob", veteran(&[("Alice", 1)], &[("Alice", 2)], &[("Alice", 3)], &["Medic", "Sniper"])),
        ],
    )]);
    let totals = lifetime_stats(&g).unwrap();
    assert_eq!(totals.len(), 2);
    let alice = totals.get("Alice").unwrap();
    assert_eq!(alice.kills.get("Bob"), Some(&2));
    assert_eq!(alice.killed_by.get("Bob"), Some(&1));
    assert_eq!(alice.revives.len(), 0);
    assert_eq!(alice.revived_by.len(), 0);
    assert_eq!(alice.classes.len(), 1);
    let bob = totals.get("Bob").unwrap();
    assert_eq!(bob.revives.get("Alice"), Some(&3));
    assert_eq!(bob.classes.len(), 2);
}

#[test]
fn sessions_add_up_and_classes_join() {
    let g = history(vec![
        session(
            1,
            vec![
                ("Alice", veteran(&[("Bob", 2)], &[("Bob", 1)], &[], &["Rifleman"])),
                ("Bob", veteran(&[("Alice", 1)], &[("Alice", 2)], &[], &["Medic"])),
            ],
        ),
        session(2, vec![("Carol", veteran(&[], &[], &[], &["Sniper"]))]),
        session(
            3,
            vec![
                ("Alice", veteran(&[("Bob", 3), ("Carol", 1)], &[], &[("Bob", 1)], &["Medic", "Rifleman"])),
                ("Carol", veteran(&[], &[("Alice", 1)], &[], &["Sniper"])),
            ],
        ),
    ]);
    let totals = lifetime_stats(&g).unwrap();
    assert_eq!(totals.len(), 3);
    let alice = totals.get("Alice").unwrap();
    assert_eq!(alice.kills.get("Bob"), Some(&5));
    assert_eq!(alice.kills.get("Carol"), Some(&1));
    assert_eq!(alice.kills.len(), 2);
    assert_eq!(alice.killed_by.get("Bob"), Some(&1));
    assert_eq!(alice.revives.get("Bob"), Some(&1));
    assert_eq!(alice.classes.len(), 2);
    assert!(alice.classes.contains("Rifleman") && alice.classes.contains("Medic"));
    let bob = totals.get("Bob").unwrap();
    assert_eq!(bob.kills.get("Alice"), Some(&1));
    assert_eq!(bob.killed_by.get("Alice"), Some(&2));
    assert_eq!(bob.classes.len(), 1);
    let carol = totals.get("Carol").unwrap();
    assert_eq!(carol.killed_by.get("Alice"), Some(&1));
    assert_eq!(carol.classes.len(), 1);
    assert_eq!(g.games.len(), 3);
}

#[test]
fn totals_that_pass_the_largest_count_are_an_error() {
    let g = history(vec![
        session(1, vec![("Alice", veteran(&[("Bob", u32::MAX)], &[], &[], &["Rifleman"]))]),
        session(2, vec![("Alice", veteran(&[("Bob", 1)], &[], &[], &["Rifleman"]))]),
        session(3, vec![]),
    ]);
    assert_eq!(lifetime_stats(&g).err(), Some(FoldError::CounterOverflow));
    let g = history(vec![
        session(1, vec![("Alice", veteran(&[("Bob", u32::MAX - 1)], &[], &[], &["Rifleman"]))]),
        session(2, vec![("Alice", veteran(&[("Bob", 1)], &[], &[], &["Rifleman"]))]),
    ]);
    assert_eq!(lifetime_stats(&g).unwrap().get("Alice").unwrap().kills.get("Bob"), Some(&u32::MAX));
}

#[test]
fn a_record_takes_in_one_more_session() {
    let rec = PlayerOutput {
        kills: counts(&[("Bob", 1)]),
        killed_by: counts(&[]),
        revives: counts(&[("Bob", 4)]),
        revived_by: counts(&[("Alice", 1)]),
        classes: classes(&["Medic"]),
    };
    let mut p = veteran(&[("Bob", 1), ("Carol", 2)], &[("Bob", 7)], &[], &["Sniper"]);
    p.players_revived_by = counts(&[("Alice", 2)]);
    let m = merge_player(&rec, &p).unwrap();
    assert_eq!(m.kills.get("Bob"), Some(&2));
    assert_eq!(m.kills.get("Carol"), Some(&2));
    assert_eq!(m.killed_by.get("Bob"), Some(&7));
    assert_eq!(m.revives.get("Bob"), Some(&4));
    assert_eq!(m.revived_by.get("Alice"), Some(&3));
    assert_eq!(m.classes.len(), 2);
    p.players_revived_by = counts(&[("Alice", u32::MAX)]);
    assert!(merge_player(&rec, &p).is_none());
}

#[test]
fn the_totals_take_in_one_more_session() {
    let first = session(1, vec![("Alice", veteran(&[("Bob", 2)], &[], &[], &["Rifleman"]))]);
    let second = session(
        2,
        vec![
            ("Bob", veteran(&[], &[("Alice", 1)], &[], &["Medic"])),
            ("Alice", veteran(&[("Bob", 1)], &[], &[], &["Medic"])),
        ],
    );
    let totals = merge_session(StrMap::new(), &first.players).unwrap();
    assert_eq!(totals.len(), 1);
    let totals = merge_session(totals, &second.players).unwrap();
    assert_eq!(totals.len(), 2);
    assert_eq!(totals.get("Alice").unwrap().kills.get("Bob"), Some(&3));
    assert_eq!(totals.get("Alice").unwrap().classes.len(), 2);
    assert_eq!(totals.get("Bob").unwrap().killed_by.get("Alice"), Some(&1));
}
