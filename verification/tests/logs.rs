use squad_stats::error::FoldError;
use squad_stats::fold::fold_lines;
use squad_stats::game::GameState;
use squad_stats::instant::get_dt;

fn start() -> GameState {
    GameState::new(get_dt("1985.09.21-05.00.00:000").unwrap())
}

fn a_match() -> Vec<String> {
    [
        "Log file open, 01/01/21 00:00:00",
        "[2021.01.01-00.00.00:000][  0]LogWorld: StartLoadingDestination to: /Game/Maps/Narva",
        "[2021.01.01-00.00.01:000][ 10]LogSquadTrace: [DedicatedServer]ASQPlayerController::ChangeState(): PC=Alice OldState=Inactive NewState=Playing",
        "[2021.01.01-00.00.01:100][ 11]LogSquadTrace: [DedicatedServer]ASQPlayerController::ChangeState(): PC=Bob OldState=Inactive NewState=Playing",
        "[2021.01.01-00.00.02:000][ 20]LogSquadTrace: [DedicatedServer]ASQPlayerController::SetCurrentRole(): On Server PC=Alice NewRole=Rifleman",
        "[2021.01.01-00.00.02:100][ 21]LogSquadTrace: [DedicatedServer]ASQPlayerController::SetCurrentRole(): On Server PC=Bob NewRole=Medic",
        "[2021.01.01-00.00.03:000][ 30]LogSquad: Player:[CLAN]Alice ActualDamage=60.000000 from [CLAN]Bob caused by BP_Rifle_C",
        "[2021.01.01-00.00.03:500][ 35]LogSquad: Player:[CLAN]Alice ActualDamage=60.000000 from [CLAN]Bob caused by BP_Rifle_C",
        "[2021.01.01-00.00.03:600][ 36]LogSquadTrace: [DedicatedServer]ASQSoldier::Wound(): Player:[CLAN]Alice KillingDamage=0.000000 from nullptr caused by BP_Rifle_C",
        "[2021.01.01-00.00.09:000][ 90]LogSquad: Bob has revived Alice.",
        "[2021.01.01-00.30.00:000][900]LogGameState: Match State Changed from InProgress to WaitingPostMatch",
        "",
    ]
    .iter()
    .map(|l| l.to_string())
    .collect()
}

#[test]
fn a_whole_match_is_folded_line_by_line() {
    let g = fold_lines(&a_match(), &start()).unwrap();
    assert_eq!(g.games.len(), 1);
    assert_eq!(g.games[0].map, "Narva");
    assert_eq!(g.games[0].players.len(), 2);
    let alice = g.games[0].players.get("Alice").unwrap();
    let bob = g.games[0].players.get("Bob").unwrap();
    assert_eq!(alice.hitpoints as f64 / 1_000_000.0, 5.0);
    assert_eq!(alice.players_killed_by.get("Bob"), Some(&1));
    assert_eq!(alice.players_revived_by.get("Alice"), Some(&1));
    assert_eq!(alice.last_damaged, None);
    assert_eq!(alice.last_down_time, get_dt("2021.01.01-00.00.03:600"));
    assert_eq!(bob.players_killed.get("Alice"), Some(&1));
    assert_eq!(bob.players_revived.get("Alice"), Some(&1));
    assert!(g.player_names.is_empty());
    assert_eq!(g.last_timestamp, get_dt("2021.01.01-00.30.00:000").unwrap());
    assert_eq!(g.current_game_start_time, get_dt("2021.01.01-00.00.00:000").unwrap());
}

#[test]
fn no_lines_leave_the_state() {
    let g = fold_lines(&Vec::new(), &start()).unwrap();
    assert!(g.games.is_empty());
    assert!(g.player_names.is_empty());
    assert_eq!(g.last_timestamp, get_dt("1985.09.21-05.00.00:000").unwrap());
    assert_eq!(g.current_game_start_time, get_dt("1985.09.21-05.00.00:000").unwrap());
}

#[test]
fn the_first_failing_line_ends_the_folding() {
    let mut lines = a_match();
    lines.insert(
        6,
        "[2021.01.01-00.00.02:500][ 25]LogSquad: Player:Carol ActualDamage=1.000000 from Bob caused by BP_Rifle_C"
            .to_string(),
    );
    assert_eq!(fold_lines(&lines, &start()).err(), Some(FoldError::UnknownPlayer));
}

#[test]
fn a_log_read_again_counts_nothing_twice_before_its_last_instant() {
    let lines = a_match();
    let once = fold_lines(&lines, &start()).unwrap();
    let earlier: Vec<String> = lines[..10].to_vec();
    let twice = fold_lines(&earlier, &once).unwrap();
    assert_eq!(twice.games.len(), 1);
    let alice = twice.games[0].players.get("Alice").unwrap();
    let bob = twice.games[0].players.get("Bob").unwrap();
    assert_eq!(alice.hitpoints, once.games[0].players.get("Alice").unwrap().hitpoints);
    assert_eq!(alice.players_killed_by.get("Bob"), Some(&1));
    assert_eq!(bob.players_killed.get("Alice"), Some(&1));
    assert_eq!(bob.players_revived.get("Alice"), Some(&1));
    assert_eq!(twice.last_timestamp, once.last_timestamp);
    assert_eq!(twice.player_names, once.player_names);
}

#[test]
fn sessions_stay_in_the_order_of_their_starts() {
    let mut lines = a_match();
    lines.push(
        "[2021.01.01-00.31.00:000][  0]LogWorld: StartLoadingDestination to: /Game/Maps/Yehorivka".to_string(),
    );
    lines.push(
        "[2021.01.01-00.30.30:000][  0]LogWorld: StartLoadingDestination to: /Game/Maps/Fallujah".to_string(),
    );
    lines.push(
        "[2021.01.01-00.32.00:000][  0]LogWorld: StartLoadingDestination to: /Game/Maps/Gorodok".to_string(),
    );
    let g = fold_lines(&lines, &start()).unwrap();
    assert_eq!(g.games.len(), 3);
    assert_eq!(g.games[1].map, "Yehorivka");
    assert_eq!(g.games[2].map, "Gorodok");
    for i in 1..g.games.len() {
        assert!(!g.games[i].start_time.is_before(&g.games[i - 1].start_time));
        assert!(!g.last_timestamp.is_before(&g.games[i].start_time));
    }
    assert_eq!(g.games[0].players.len(), 2);
}
