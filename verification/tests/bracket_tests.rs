use bigleague::bracket::{build_bracket, resolve_bracket, WeekSample};
use bigleague::types::{PlayoffTeam, User};

fn team(week: i32, rank: i64, name: &str, avatar: &str, points: i64) -> PlayoffTeam {
    PlayoffTeam {
        week,
        rank,
        user: User {
            id: "1".to_string(),
            name: name.to_string(),
            avatar: avatar.to_string(),
        },
        points,
    }
}

#[test]
fn db_test_resolve_small_bracket() {
    let team1 = team(0, 1, "Todd", "cafed00d", 10000);
    let team2 = team(0, 2, "Eve", "deadbeef", 9900);

    let matchups = vec![
        WeekSample { week: 0, rank: 1, points: 10000 },
        WeekSample { week: 0, rank: 2, points: 9900 },
    ];

    let base = vec![team1.clone(), team2.clone()];
    let resolved_bracket = resolve_bracket(base, 0, 1, matchups).unwrap();

    assert_eq!(
        resolved_bracket.into_iter().last().unwrap(),
        vec![PlayoffTeam {
            points: 0,
            week: 1,
            ..team1
        }]
    );
}

#[test]
fn util_test_resolve_small_bracket() {
    let team1 = team(0, 1, "Todd", "cafed00d", 10000);
    let team2 = team(0, 2, "Eve", "deadbeef", 9900);

    let matchups = vec![
        WeekSample { week: 0, rank: 1, points: 10000 },
        WeekSample { week: 0, rank: 2, points: 9900 },
    ];

    let base = vec![team1.clone(), team2.clone()];
    let resolved_bracket = resolve_bracket(base, 0, 1, matchups).unwrap();

    assert_eq!(
        resolved_bracket.into_iter().last().unwrap(),
        vec![PlayoffTeam {
            points: 0,
            week: 1,
            ..team1
        }]
    );
}

#[test]
fn test_full_bracket_four_teams() {
    // Four teams, complete samples for both playoff weeks: two rounds,
    // three stages, a single champion.
    let t1 = team(10, 1, "a", "av", 5000);
    let t2 = team(10, 2, "b", "av", 6000);
    let t3 = team(10, 3, "c", "av", 7000);
    let t4 = team(10, 4, "d", "av", 8000);
    // Seeded pairing: (1 vs 4), (2 vs 3).
    let seeded = vec![t1.clone(), t4.clone(), t2.clone(), t3.clone()];
    let samples = vec![
        WeekSample { week: 10, rank: 1, points: 5000 },
        WeekSample { week: 10, rank: 2, points: 6000 },
        WeekSample { week: 10, rank: 3, points: 7000 },
        WeekSample { week: 10, rank: 4, points: 8000 },
        WeekSample { week: 11, rank: 1, points: 1000 },
        WeekSample { week: 11, rank: 2, points: 2000 },
        WeekSample { week: 11, rank: 3, points: 9000 },
        WeekSample { week: 11, rank: 4, points: 3000 },
    ];
    let stages = resolve_bracket(seeded, 10, 12, samples).unwrap();
    assert_eq!(stages.len(), 3);
    // Week 10: rank 4 beats rank 1 (8000 > 5000), rank 3 beats rank 2.
    assert_eq!(stages[1].len(), 2);
    assert_eq!(stages[1][0].rank, 4);
    assert_eq!(stages[1][0].week, 11);
    assert_eq!(stages[1][0].points, 3000);
    assert_eq!(stages[1][1].rank, 3);
    assert_eq!(stages[1][1].points, 9000);
    // Week 11: rank 3 beats rank 4 (9000 > 3000); week 12 has no sample.
    assert_eq!(stages[2].len(), 1);
    assert_eq!(stages[2][0].rank, 3);
    assert_eq!(stages[2][0].week, 12);
    assert_eq!(stages[2][0].points, 0);
}

#[test]
fn test_missing_sample_fails_resolution() {
    // No week-5 sample for rank 2: the resolution yields no stages at all.
    let t1 = team(5, 1, "a", "av", 100);
    let t2 = team(5, 2, "b", "av", 200);
    let samples = vec![WeekSample { week: 5, rank: 1, points: 100 }];
    assert!(resolve_bracket(vec![t1, t2], 5, 6, samples).is_none());
}

#[test]
fn test_missing_sample_empty_bracket() {
    // Four teams seeded at week 5; the round-6 survivors are ranks 4 and
    // 3, but only rank 4 has a week-6 entry. The missing sample fails the
    // whole resolution: the bracket's stages are empty, never partial.
    let uw = vec![
        team(5, 1, "a", "av", 100),
        team(5, 2, "b", "av", 200),
        team(5, 3, "c", "av", 300),
        team(5, 4, "d", "av", 400),
        team(6, 4, "d", "av", 10),
    ];
    let b = build_bracket(&uw, 5, 8, 4, 7);
    assert_eq!(b.num_teams, 4);
    assert_eq!(b.start_week, 5);
    assert_eq!(b.champ_week, 8);
    assert!(b.stages.is_empty());
}

#[test]
fn test_tie_advances_first_listed() {
    let t1 = team(3, 1, "a", "av", 4200);
    let t2 = team(3, 2, "b", "av", 4200);
    let samples = vec![
        WeekSample { week: 3, rank: 1, points: 4200 },
        WeekSample { week: 3, rank: 2, points: 4200 },
    ];
    let stages = resolve_bracket(vec![t1, t2], 3, 4, samples).unwrap();
    assert_eq!(stages[1].len(), 1);
    assert_eq!(stages[1][0].rank, 1);
}

#[test]
fn test_seeding_order_top_vs_bottom() {
    // Six qualifying entries of the starting week with bids = 6: the
    // seeded stage reads 1 vs 6, 2 vs 5, 3 vs 4.
    let uw: Vec<PlayoffTeam> = (1..=6)
        .map(|r| team(1, r as i64, "u", "av", 100 * r as i64))
        .collect();
    let b = build_bracket(&uw, 1, 3, 6, 1);
    assert_eq!(b.num_teams, 6);
    let stage0 = &b.stages[0];
    let ranks: Vec<i64> = stage0.iter().map(|t| t.rank).collect();
    assert_eq!(ranks, vec![1, 6, 2, 5, 3, 4]);
}

#[test]
fn test_resolution_stops_at_championship_week() {
    // Samples run for three weeks, but the championship week caps the
    // resolution: only one round is played.
    let mut uw: Vec<PlayoffTeam> = Vec::new();
    for w in 1..=3 {
        uw.push(team(w, 1, "a", "av", 100));
        uw.push(team(w, 2, "b", "av", 200));
    }
    let b = build_bracket(&uw, 1, 2, 2, 5);
    // Stages: the seeding plus exactly one resolved round (weeks beyond
    // the championship week are not played out).
    assert_eq!(b.stages.len(), 2);
    assert_eq!(b.stages[1][0].rank, 2);
}
