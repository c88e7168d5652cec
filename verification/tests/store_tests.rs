use bigleague::pairing::{pair_matchups, league_seats, Seat};
use bigleague::payload::{
    LeaguePayload, MatchupPayload, PlayerPayload, RosterPayload, StatePayload, UserPayload,
};
use bigleague::queries::{get_bracket, players_of_user, weeks_of_user};
use bigleague::schedule::{players_source, Scheduler, TaskKind};
use bigleague::standings::compute_standings;
use bigleague::store::Store;
use bigleague::sync::{
    sync_league, sync_matchups, sync_players, sync_roster, sync_rosters, sync_state, sync_users,
};
use bigleague::types::{AtLarge, Bigleague, Config, Database, Ownership, Stats, Web};

fn s(x: &str) -> String {
    x.to_string()
}

fn league_payload(id: &str, name: Option<&str>, avatar: Option<&str>) -> LeaguePayload {
    LeaguePayload {
        league_id: s(id),
        name: name.map(s),
        avatar: avatar.map(s),
    }
}

fn roster_payload(owner: &str, league: &str, roster_id: u64, wins: i64, fpts: i64) -> RosterPayload {
    RosterPayload {
        owner_id: s(owner),
        league_id: s(league),
        wins: Some(wins),
        losses: Some(1),
        ties: Some(0),
        fpts: Some(fpts),
        fpts_decimal: Some(0),
        fpts_against: Some(0),
        fpts_against_decimal: Some(0),
        roster_id: Some(roster_id),
        players: vec![],
        starters: vec![],
    }
}

#[test]
fn test_upsert_league_idempotent() {
    let mut store = Store::new();
    sync_league(&mut store, league_payload("L1", Some("alpha"), Some("a1")));
    sync_league(&mut store, league_payload("L1", Some("alpha"), Some("a1")));
    assert_eq!(store.leagues.len(), 1);
    assert_eq!(store.leagues[0].name, "alpha");
}

#[test]
fn test_upsert_league_overwrites_non_key_columns() {
    let mut store = Store::new();
    sync_league(&mut store, league_payload("L1", Some("alpha"), Some("a1")));
    sync_league(&mut store, league_payload("L2", Some("beta"), Some("a2")));
    sync_league(&mut store, league_payload("L1", Some("gamma"), Some("a3")));
    assert_eq!(store.leagues.len(), 2);
    assert_eq!(store.leagues[0].id, "L1");
    assert_eq!(store.leagues[0].name, "gamma");
    assert_eq!(store.leagues[0].avatar, "a3");
    // The other key's row is untouched.
    assert_eq!(store.leagues[1].id, "L2");
    assert_eq!(store.leagues[1].name, "beta");
}

#[test]
fn test_league_defaults() {
    let mut store = Store::new();
    sync_league(&mut store, league_payload("L1", None, None));
    assert_eq!(store.leagues[0].name, "NA");
    assert_eq!(store.leagues[0].avatar, "NA");
}

#[test]
fn test_user_defaults_and_upsert() {
    let mut store = Store::new();
    let users = vec![
        UserPayload { user_id: s("u1"), display_name: None, avatar: None },
        UserPayload { user_id: s("u2"), display_name: Some(s("Dana")), avatar: Some(s("pic")) },
        UserPayload { user_id: s("u1"), display_name: Some(s("Renamed")), avatar: None },
    ];
    sync_users(&mut store, users);
    assert_eq!(store.users.len(), 2);
    assert_eq!(store.users[0].id, "u1");
    assert_eq!(store.users[0].name, "Renamed");
    assert_eq!(store.users[0].avatar, "NA");
    assert_eq!(store.users[1].name, "Dana");
}

#[test]
fn test_player_defaults() {
    let mut store = Store::new();
    let ps = vec![PlayerPayload {
        id: s("p9"),
        first_name: None,
        last_name: None,
        team: None,
        position: None,
        status: None,
    }];
    sync_players(&mut store, ps);
    assert_eq!(store.players.len(), 1);
    let p = &store.players[0];
    assert_eq!(p.first_name, "NA");
    assert_eq!(p.last_name, "NA");
    assert_eq!(p.team, "None");
    assert_eq!(p.position, "NA");
    assert_eq!(p.status, "");
    assert_eq!(p.starter, 0);
    assert_eq!(p.points, 0);
}

#[test]
fn test_state_defaults_and_current_period() {
    let mut store = Store::new();
    assert_eq!(store.get_time_period(), None);
    sync_state(
        &mut store,
        StatePayload {
            season: None,
            week: None,
            league_season: None,
            display_week: None,
            season_type: None,
        },
    );
    assert_eq!(store.states[0].season, 0);
    assert_eq!(store.states[0].week, 0);
    assert_eq!(store.states[0].season_type, "NA");
    sync_state(
        &mut store,
        StatePayload {
            season: Some(2022),
            week: Some(3),
            league_season: Some(2022),
            display_week: Some(3),
            season_type: Some(s("regular")),
        },
    );
    sync_state(
        &mut store,
        StatePayload {
            season: Some(2021),
            week: Some(12),
            league_season: Some(2021),
            display_week: Some(12),
            season_type: Some(s("regular")),
        },
    );
    // The logically current row is the greatest (season, week).
    assert_eq!(store.get_time_period(), Some((2022, 3)));
    assert_eq!(store.states.len(), 3);
}

#[test]
fn test_roster_two_pass_starters() {
    // A roster listing players [P1, P2, P3] and starters [P1, P3]: after
    // the two passes, P1 and P3 are starters and P2 is not.
    let mut store = Store::new();
    let mut p = roster_payload("u1", "L1", 1, 5, 500);
    p.players = vec![s("P1"), s("P2"), s("P3")];
    p.starters = vec![s("P1"), s("P3")];
    sync_roster(&mut store, p);
    assert_eq!(store.rosters.len(), 1);
    assert_eq!(store.ownership.len(), 3);
    let flag = |pid: &str| -> i32 {
        store
            .ownership
            .iter()
            .find(|o| o.player_id == pid)
            .map(|o| o.starter)
            .unwrap()
    };
    assert_eq!(flag("P1"), 1);
    assert_eq!(flag("P2"), 0);
    assert_eq!(flag("P3"), 1);
}

#[test]
fn test_roster_defaults_to_zero() {
    let mut store = Store::new();
    let p = RosterPayload {
        owner_id: s("u1"),
        league_id: s("L1"),
        wins: None,
        losses: None,
        ties: None,
        fpts: None,
        fpts_decimal: None,
        fpts_against: None,
        fpts_against_decimal: None,
        roster_id: None,
        players: vec![],
        starters: vec![],
    };
    sync_rosters(&mut store, vec![p]);
    let r = &store.rosters[0];
    assert_eq!(r.wins, 0);
    assert_eq!(r.losses, 0);
    assert_eq!(r.fpts, 0);
    assert_eq!(r.roster_id, 0);
}

#[test]
fn test_mark_starter_missing_row_is_noop() {
    let mut store = Store::new();
    store.upsert_ownership(Ownership {
        user_id: s("u1"),
        league_id: s("L1"),
        player_id: s("P1"),
        starter: 0,
    });
    store.mark_starter(&s("u1"), &s("L1"), &s("P2"));
    assert_eq!(store.ownership.len(), 1);
    assert_eq!(store.ownership[0].starter, 0);
    store.mark_starter(&s("u1"), &s("L1"), &s("P1"));
    assert_eq!(store.ownership[0].starter, 1);
}

#[test]
fn test_pairing_two_records() {
    // Two records sharing a matchup id produce two rows, each naming the
    // other user as opponent, each with its own points.
    let records = vec![
        MatchupPayload { matchup_id: 7, roster_id: 1, points: 10025, players_points: vec![] },
        MatchupPayload { matchup_id: 7, roster_id: 2, points: 9900, players_points: vec![] },
    ];
    let seats = vec![
        Seat { roster_id: 1, user_id: s("userA") },
        Seat { roster_id: 2, user_id: s("userB") },
    ];
    let rows = pair_matchups(&records, &seats, 2022, 12, &s("L1"));
    assert_eq!(rows.len(), 2);
    assert_eq!(rows[0].user_id, "userA");
    assert_eq!(rows[0].opponent_id, "userB");
    assert_eq!(rows[0].points, 10025);
    assert_eq!(rows[1].user_id, "userB");
    assert_eq!(rows[1].opponent_id, "userA");
    assert_eq!(rows[1].points, 9900);
    assert_eq!(rows[0].season, 2022);
    assert_eq!(rows[0].week, 12);
    assert_eq!(rows[0].league_id, "L1");
}

#[test]
fn test_pairing_skips_bye_and_unknown_seat() {
    let records = vec![
        // A matchup id held by a single roster (a bye): unresolvable.
        MatchupPayload { matchup_id: 1, roster_id: 1, points: 100, players_points: vec![] },
        // A pair whose second seat no roster claims: unresolvable.
        MatchupPayload { matchup_id: 2, roster_id: 2, points: 200, players_points: vec![] },
        MatchupPayload { matchup_id: 2, roster_id: 9, points: 300, players_points: vec![] },
    ];
    let seats = vec![
        Seat { roster_id: 1, user_id: s("userA") },
        Seat { roster_id: 2, user_id: s("userB") },
    ];
    let rows = pair_matchups(&records, &seats, 2022, 1, &s("L1"));
    assert!(rows.is_empty());
}

#[test]
fn test_sync_matchups_rows_and_scores() {
    let mut store = Store::new();
    sync_rosters(
        &mut store,
        vec![
            roster_payload("userA", "L1", 1, 3, 300),
            roster_payload("userB", "L1", 2, 2, 200),
        ],
    );
    let records = vec![
        MatchupPayload {
            matchup_id: 5,
            roster_id: 1,
            points: 11550,
            players_points: vec![(s("P1"), 2025), (s("P2"), 1000)],
        },
        MatchupPayload {
            matchup_id: 5,
            roster_id: 2,
            points: 9000,
            players_points: vec![(s("P3"), 500)],
        },
    ];
    sync_matchups(&mut store, records, 2022, 12, &s("L1"));
    assert_eq!(store.matchups.len(), 2);
    assert_eq!(store.matchups[0].user_id, "userA");
    assert_eq!(store.matchups[0].opponent_id, "userB");
    assert_eq!(store.matchups[0].points, 11550);
    assert_eq!(store.matchups[1].user_id, "userB");
    assert_eq!(store.matchups[1].opponent_id, "userA");
    assert_eq!(store.matchups[1].points, 9000);
    assert_eq!(store.scores.len(), 3);
    assert_eq!(store.scores[0].player_id, "P1");
    assert_eq!(store.scores[0].points, 2025);
    assert_eq!(store.scores[0].season, 2022);
    assert_eq!(store.scores[0].week, 12);
    assert_eq!(store.scores[2].player_id, "P3");
    // Reconciling the same fetch twice changes nothing.
    let records2 = vec![
        MatchupPayload {
            matchup_id: 5,
            roster_id: 1,
            points: 11550,
            players_points: vec![(s("P1"), 2025), (s("P2"), 1000)],
        },
        MatchupPayload {
            matchup_id: 5,
            roster_id: 2,
            points: 9000,
            players_points: vec![(s("P3"), 500)],
        },
    ];
    sync_matchups(&mut store, records2, 2022, 12, &s("L1"));
    assert_eq!(store.matchups.len(), 2);
    assert_eq!(store.scores.len(), 3);
}

#[test]
fn test_league_seats_reads_rosters() {
    let mut store = Store::new();
    sync_rosters(
        &mut store,
        vec![
            roster_payload("userA", "L1", 1, 3, 300),
            roster_payload("userC", "L2", 7, 1, 100),
            roster_payload("userB", "L1", 2, 2, 200),
        ],
    );
    let seats = league_seats(&store, &s("L1"));
    assert_eq!(seats.len(), 2);
    assert_eq!(seats[0].roster_id, 1);
    assert_eq!(seats[0].user_id, "userA");
    assert_eq!(seats[1].roster_id, 2);
    assert_eq!(seats[1].user_id, "userB");
}

#[test]
fn test_standings_order() {
    // (wins, fpts) = (10, 500), (10, 480), (9, 600): dense ranks 1, 2, 3.
    let mut store = Store::new();
    sync_league(&mut store, league_payload("L1", Some("league"), None));
    sync_users(
        &mut store,
        vec![
            UserPayload { user_id: s("u1"), display_name: Some(s("one")), avatar: None },
            UserPayload { user_id: s("u2"), display_name: Some(s("two")), avatar: None },
            UserPayload { user_id: s("u3"), display_name: Some(s("three")), avatar: None },
        ],
    );
    sync_rosters(
        &mut store,
        vec![
            roster_payload("u3", "L1", 3, 9, 600),
            roster_payload("u1", "L1", 1, 10, 500),
            roster_payload("u2", "L1", 2, 10, 480),
        ],
    );
    let standings = compute_standings(&store.rosters, &store.users, &store.leagues);
    assert_eq!(standings.len(), 3);
    assert_eq!(standings[0].rank, 1);
    assert_eq!(standings[0].user.id, "u1");
    assert_eq!(standings[0].roster.wins, 10);
    assert_eq!(standings[0].roster.fpts, 500);
    assert_eq!(standings[1].rank, 2);
    assert_eq!(standings[1].user.id, "u2");
    assert_eq!(standings[2].rank, 3);
    assert_eq!(standings[2].user.id, "u3");
    assert_eq!(standings[0].league.name, "league");
}

fn test_config(bids: i64) -> Config {
    Config {
        web: Web { ip: s("127.0.0.1"), port: 8080 },
        stats: Stats {
            rosters_interval: 60,
            players_interval: 86400,
            users_interval: 60,
            leagues_interval: 60,
            state_interval: 60,
            matchups_interval: 60,
            dev_mode: None,
            players_path: None,
        },
        database: Database {
            host: s("localhost"),
            port: None,
            user: s("u"),
            password: s("pw"),
            dbname: s("db"),
            max_open: 8,
            max_idle: 4,
            timeout: 10,
        },
        bigleague: Bigleague {
            leagues: vec![s("L1")],
            playoffs_start_week: 12,
            playoffs_championship_week: 14,
            playoffs_at_large: Some(AtLarge { bids }),
            playoffs_per_league: None,
        },
    }
}

#[test]
fn test_get_bracket_end_to_end() {
    let mut store = Store::new();
    sync_state(
        &mut store,
        StatePayload {
            season: Some(2022),
            week: Some(13),
            league_season: Some(2022),
            display_week: Some(13),
            season_type: Some(s("regular")),
        },
    );
    sync_users(
        &mut store,
        vec![
            UserPayload { user_id: s("u1"), display_name: Some(s("Todd")), avatar: None },
            UserPayload { user_id: s("u2"), display_name: Some(s("Eve")), avatar: None },
        ],
    );
    sync_rosters(
        &mut store,
        vec![
            roster_payload("u1", "L1", 1, 10, 900),
            roster_payload("u2", "L1", 2, 8, 700),
        ],
    );
    // Week 12 is the playoff start; both teams have matchup rows there.
    sync_matchups(
        &mut store,
        vec![
            MatchupPayload { matchup_id: 1, roster_id: 1, points: 10000, players_points: vec![] },
            MatchupPayload { matchup_id: 1, roster_id: 2, points: 9900, players_points: vec![] },
        ],
        2022,
        12,
        &s("L1"),
    );
    let b = get_bracket(&store, &test_config(2)).unwrap();
    assert_eq!(b.num_teams, 2);
    assert_eq!(b.start_week, 12);
    assert_eq!(b.champ_week, 14);
    // The seeding and one resolved round: Todd advances on 100.00 to 99.00.
    assert_eq!(b.stages.len(), 2);
    assert_eq!(b.stages[1].len(), 1);
    assert_eq!(b.stages[1][0].user.name, "Todd");
    assert_eq!(b.stages[1][0].week, 13);
    assert_eq!(b.stages[1][0].points, 0);
}

#[test]
fn test_get_bracket_needs_config_and_state() {
    let mut store = Store::new();
    // No season state yet: no bracket.
    assert!(get_bracket(&store, &test_config(2)).is_none());
    sync_state(
        &mut store,
        StatePayload {
            season: Some(2022),
            week: Some(1),
            league_season: Some(2022),
            display_week: Some(1),
            season_type: None,
        },
    );
    // No at-large bid count: no bracket.
    let mut cfg = test_config(2);
    cfg.bigleague.playoffs_at_large = None;
    assert!(get_bracket(&store, &cfg).is_none());
    // A negative bid count is refused.
    assert!(get_bracket(&store, &test_config(-2)).is_none());
    // With both present the bracket is assembled (empty, but present).
    let b = get_bracket(&store, &test_config(2)).unwrap();
    assert_eq!(b.num_teams, 0);
}

#[test]
fn test_num_leagues() {
    let mut store = Store::new();
    assert_eq!(store.get_num_leagues(), 0);
    sync_league(&mut store, league_payload("L1", None, None));
    sync_league(&mut store, league_payload("L2", None, None));
    sync_league(&mut store, league_payload("L1", Some("renamed"), None));
    assert_eq!(store.get_num_leagues(), 2);
}

#[test]
fn test_scheduler_picks_earliest_and_reschedules() {
    let stats = Stats {
        rosters_interval: 60,
        players_interval: 86400,
        users_interval: 30,
        leagues_interval: 120,
        state_interval: 45,
        matchups_interval: 90,
        dev_mode: None,
        players_path: None,
    };
    let mut sched = Scheduler::new(&stats, 1000);
    // All timers start due at once; the first listed kind wins the tie.
    assert_eq!(sched.next_due(), TaskKind::Rosters);
    sched.fire(TaskKind::Rosters, 1000);
    assert_eq!(sched.rosters.deadline, 1060);
    sched.fire(TaskKind::Users, 1000);
    sched.fire(TaskKind::Leagues, 1000);
    sched.fire(TaskKind::Players, 1000);
    sched.fire(TaskKind::SeasonState, 1000);
    sched.fire(TaskKind::Matchups, 1000);
    // Users has the shortest period, so it is due first now.
    assert_eq!(sched.next_due(), TaskKind::Users);
    // A late firing reschedules relative to now, not to the missed tick.
    sched.fire(TaskKind::Users, 1100);
    assert_eq!(sched.users.deadline, 1130);
    assert_eq!(sched.next_due(), TaskKind::SeasonState);
}

#[test]
fn test_players_source_defaults() {
    let mut stats = Stats {
        rosters_interval: 1,
        players_interval: 1,
        users_interval: 1,
        leagues_interval: 1,
        state_interval: 1,
        matchups_interval: 1,
        dev_mode: None,
        players_path: None,
    };
    let (dev, path) = players_source(&stats);
    assert!(!dev);
    assert_eq!(path, "");
    stats.dev_mode = Some(true);
    let (dev, path) = players_source(&stats);
    assert!(dev);
    assert_eq!(path, "data/players.json");
    stats.players_path = Some(s("custom.json"));
    let (_, path) = players_source(&stats);
    assert_eq!(path, "custom.json");
}

#[test]
fn test_read_config_types_round_trip() {
    // The configuration types carry over cloning unchanged.
    let cfg = test_config(4);
    let cfg2 = cfg.clone();
    assert_eq!(cfg, cfg2);
    assert_eq!(cfg2.bigleague.playoffs_at_large.unwrap().bids, 4);
}

#[test]
fn test_players_of_user_display_order() {
    let mut store = Store::new();
    sync_players(
        &mut store,
        vec![
            PlayerPayload {
                id: s("p1"),
                first_name: Some(s("Run")),
                last_name: Some(s("Back")),
                team: Some(s("AAA")),
                position: Some(s("RB")),
                status: Some(s("Active")),
            },
            PlayerPayload {
                id: s("p2"),
                first_name: Some(s("Quarter")),
                last_name: Some(s("Back")),
                team: Some(s("AAA")),
                position: Some(s("QB")),
                status: Some(s("Active")),
            },
            PlayerPayload {
                id: s("p3"),
                first_name: Some(s("Kick")),
                last_name: Some(s("Er")),
                team: Some(s("AAA")),
                position: Some(s("K")),
                status: Some(s("Active")),
            },
        ],
    );
    let mut p = roster_payload("u1", "L1", 1, 5, 500);
    p.players = vec![s("p1"), s("p2"), s("p3")];
    p.starters = vec![s("p3")];
    sync_roster(&mut store, p);
    sync_matchups(
        &mut store,
        vec![MatchupPayload {
            matchup_id: 1,
            roster_id: 1,
            points: 0,
            players_points: vec![(s("p1"), 100), (s("p2"), 200), (s("p3"), 300)],
        }],
        2022,
        4,
        &s("L1"),
    );
    let rows = players_of_user(&store, &s("u1"), 2022, 4, &s("L1"));
    assert_eq!(rows.len(), 3);
    // The starter leads; the bench follows in position order (QB, RB).
    assert_eq!(rows[0].id, "p3");
    assert_eq!(rows[0].starter, 1);
    assert_eq!(rows[0].points, 300);
    assert_eq!(rows[1].id, "p2");
    assert_eq!(rows[2].id, "p1");
    assert_eq!(rows[2].points, 100);
}

#[test]
fn test_weeks_of_user_schedule() {
    let mut store = Store::new();
    sync_users(
        &mut store,
        vec![
            UserPayload { user_id: s("userA"), display_name: Some(s("Ann")), avatar: Some(s("x")) },
            UserPayload { user_id: s("userB"), display_name: Some(s("Bob")), avatar: Some(s("y")) },
        ],
    );
    sync_rosters(
        &mut store,
        vec![
            roster_payload("userA", "L1", 1, 3, 300),
            roster_payload("userB", "L1", 2, 2, 200),
        ],
    );
    sync_matchups(
        &mut store,
        vec![
            MatchupPayload { matchup_id: 1, roster_id: 1, points: 5000, players_points: vec![] },
            MatchupPayload { matchup_id: 1, roster_id: 2, points: 4000, players_points: vec![] },
        ],
        2022,
        1,
        &s("L1"),
    );
    let weeks = weeks_of_user(&store, &s("userA"), 2022);
    assert_eq!(weeks.len(), 1);
    assert_eq!(weeks[0].week, 1);
    assert_eq!(weeks[0].user_name, "Ann");
    assert_eq!(weeks[0].user_points, 5000);
    assert_eq!(weeks[0].opponent_id, "userB");
    assert_eq!(weeks[0].opponent_name, "Bob");
    assert_eq!(weeks[0].opponent_points, 4000);
    // Nothing for another season.
    assert!(weeks_of_user(&store, &s("userA"), 2021).is_empty());
}
