use squad_stats::error::FoldError;
use squad_stats::game::GameState;
use squad_stats::instant::get_dt;
use squad_stats::parse::parse_line;
use squad_stats::player::PlayerState;

fn fresh() -> GameState {
    GameState::new(get_dt("1985.09.21-05.00.00:000").unwrap())
}

fn fold(lines: &[&str]) -> GameState {
    let mut g = fresh();
    for line in lines {
        if let Some(next) = parse_line(line, &g).unwrap() {
            g = next;
        }
    }
    g
}

const LOAD: &str =
    "[2021.01.01-00.00.00:000][0]LogWorld: StartLoadingDestination to: /Game/Maps/Narva";
const SEE_ALICE: &str = "[2021.01.01-00.00.01:000][1]LogSquadTrace: [DedicatedServer]ASQPlayerController::ChangeState(): PC=Alice OldState=Inactive NewState=Playing";
const SEE_BOB: &str = "[2021.01.01-00.00.01:500][1]LogSquadTrace: [DedicatedServer]ASQPlayerController::ChangeState(): PC=Bob OldState=Inactive NewState=Playing";
const SPAWN_ALICE: &str = "[2021.01.01-00.00.02:000][2]LogSquadTrace: [DedicatedServer]ASQPlayerController::SetCurrentRole(): On Server PC=Alice NewRole=Rifleman";
const SPAWN_BOB: &str = "[2021.01.01-00.00.02:500][2]LogSquadTrace: [DedicatedServer]ASQPlayerController::SetCurrentRole(): On Server PC=Bob NewRole=Medic";
const HIT_ALICE: &str =
    "[2021.01.01-00.00.03:000][3]LogSquad: Player:Alice ActualDamage=25.0 from Bob caused by Rifle";
const DOWN_ALICE: &str = "[2021.01.01-00.00.04:000][4]LogSquadTrace: [DedicatedServer]ASQSoldier::Wound(): Player:Alice KillingDamage=0.000000 from nullptr caused by BP_Rifle";
const REVIVE_ALICE: &str = "[2021.01.01-00.00.05:000][5]LogSquad: Bob has revived Alice.";

#[test]
fn map_load_creates_one_empty_session() {
    let g = fold(&[LOAD]);
    assert_eq!(g.games.len(), 1);
    assert_eq!(g.games[0].map, "Narva");
    assert_eq!(g.games[0].players.len(), 0);
    assert_eq!(g.games[0].start_time, get_dt("2021.01.01-00.00.00:000").unwrap());
    assert_eq!(g.current_game_start_time, g.games[0].start_time);
}

#[test]
fn first_spawn_is_inactive_second_is_playing() {
    let g = fold(&[LOAD, SPAWN_ALICE]);
    let alice = g.games[0].players.get("Alice").unwrap();
    assert_eq!(alice.hitpoints as f64 / 1_000_000.0, 100.0);
    assert_eq!(alice.state, PlayerState::Inactive);
    assert_eq!(alice.classes_played.len(), 1);
    assert!(alice.classes_played.contains("Rifleman"));

    let g = fold(&[LOAD, SPAWN_ALICE, SPAWN_ALICE]);
    let alice = g.games[0].players.get("Alice").unwrap();
    assert_eq!(alice.state, PlayerState::Playing);
    assert_eq!(alice.hitpoints as f64 / 1_000_000.0, 100.0);
    assert_eq!(g.games[0].players.len(), 1);
}

#[test]
fn damage_lowers_hit_points_and_records_the_damager() {
    let g = fold(&[LOAD, SEE_ALICE, SPAWN_ALICE, HIT_ALICE]);
    let alice = g.games[0].players.get("Alice").unwrap();
    assert_eq!(alice.hitpoints as f64 / 1_000_000.0, 75.0);
    assert_eq!(alice.last_damaged.as_deref(), Some("Bob"));
}

#[test]
fn down_counts_the_kill_on_both_sides() {
    let g = fold(&[LOAD, SEE_ALICE, SEE_BOB, SPAWN_ALICE, SPAWN_BOB, HIT_ALICE, DOWN_ALICE]);
    let alice = g.games[0].players.get("Alice").unwrap();
    let bob = g.games[0].players.get("Bob").unwrap();
    assert_eq!(bob.players_killed.get("Alice"), Some(&1));
    assert_eq!(alice.players_killed_by.get("Bob"), Some(&1));
    assert_eq!(alice.last_damaged, None);
    assert_eq!(alice.last_down_time, get_dt("2021.01.01-00.00.04:000"));
}

#[test]
fn revive_sets_hit_points_and_counts() {
    let g = fold(&[
        LOAD, SEE_ALICE, SEE_BOB, SPAWN_ALICE, SPAWN_BOB, HIT_ALICE, DOWN_ALICE, REVIVE_ALICE,
    ]);
    let alice = g.games[0].players.get("Alice").unwrap();
    let bob = g.games[0].players.get("Bob").unwrap();
    assert_eq!(alice.hitpoints as f64 / 1_000_000.0, 5.0);
    assert_eq!(bob.players_revived.get("Alice"), Some(&1));
    assert_eq!(alice.players_revived_by.get("Alice"), Some(&1));
}

#[test]
fn damage_before_any_session_is_an_error() {
    let g = fresh();
    assert_eq!(parse_line(HIT_ALICE, &g).err(), Some(FoldError::SessionNotFound));
}
