//! Read queries over the store: the playoff candidate rows and the bracket
//! assembled from them.

use vstd::prelude::*;

use crate::bracket::{
    base_teams, build_bracket, resolution_end, resolve_spec, seeded, stages_view, team_samples,
};
use crate::standings::{ranked_rosters, sorted_by_rank, user_lookup, with_users};
use crate::store::{Store, period_scan};
use crate::types::{
    Bracket, Config, Matchup, Ownership, Player, PlayoffTeam, Roster, Score, User, Week,
};

verus! {

broadcast use vstd::seq_lib::group_to_multiset_ensures;

/// The points of `user`'s first matchup row for (season, w), or `None`.
pub open spec fn matchup_points(ms: Seq<Matchup>, season: i32, w: i32, user: Seq<char>) -> Option<
    i64,
>
    decreases ms.len(),
{
    if ms.len() == 0 {
        None
    } else if ms[0].season == season && ms[0].week == w && ms[0].user_id@ == user {
        Some(ms[0].points)
    } else {
        matchup_points(ms.skip(1), season, w, user)
    }
}

/// The candidate entries of week `w` among the `n` best-ranked rosters:
/// one entry per rank 1..=bids whose user exists and has a matchup row for
/// (season, w), in rank order.
pub open spec fn week_candidates(
    sorted: Seq<Roster>,
    users: Seq<User>,
    ms: Seq<Matchup>,
    season: i32,
    w: i32,
    bids: i64,
    n: int,
) -> Seq<PlayoffTeam>
    decreases n,
{
    if n <= 0 {
        Seq::empty()
    } else {
        let rest = week_candidates(sorted, users, ms, season, w, bids, n - 1);
        let r = sorted[n - 1];
        if n <= bids {
            match (user_lookup(users, r.user_id@), matchup_points(ms, season, w, r.user_id@)) {
                (Some(u), Some(pts)) => rest.push(
                    PlayoffTeam { week: w, rank: n as i64, user: u, points: pts },
                ),
                _ => rest,
            }
        } else {
            rest
        }
    }
}

/// All candidate entries of the weeks `lo..w_end`, week by week, each week
/// in rank order.
pub open spec fn candidates_spec(
    sorted: Seq<Roster>,
    users: Seq<User>,
    ms: Seq<Matchup>,
    season: i32,
    lo: i32,
    bids: i64,
    w_end: int,
) -> Seq<PlayoffTeam>
    decreases w_end - lo,
{
    if w_end <= lo {
        Seq::empty()
    } else {
        candidates_spec(sorted, users, ms, season, lo, bids, w_end - 1) + week_candidates(
            sorted,
            users,
            ms,
            season,
            (w_end - 1) as i32,
            bids,
            sorted.len() as int,
        )
    }
}

/// The greatest matchup week of the season at or past `lo`, or `lo - 1`
/// when the season has none there.
pub open spec fn max_matchup_week(ms: Seq<Matchup>, season: i32, lo: i32) -> int
    decreases ms.len(),
{
    if ms.len() == 0 {
        lo - 1
    } else {
        let rest = max_matchup_week(ms.drop_last(), season, lo);
        if ms.last().season == season && ms.last().week >= lo && ms.last().week > rest {
            ms.last().week as int
        } else {
            rest
        }
    }
}

/// Look `user`'s points for (season, w) up, by the first matching row.
fn lookup_matchup_points(ms: &Vec<Matchup>, season: i32, w: i32, user: &String) -> (r: Option<i64>)
    ensures
        r == matchup_points(ms@, season, w, user@),
{
    let n = ms.len();
    proof {
        assert(ms@.skip(0) =~= ms@);
    }
    let mut i: usize = 0;
    #[verifier::loop_isolation(false)]
    while i < n
        invariant
            i <= n,
            matchup_points(ms@, season, w, user@) == matchup_points(
                ms@.skip(i as int),
                season,
                w,
                user@,
            ),
        decreases n - i,
    {
        proof {
            assert(ms@.skip(i as int)[0] == ms@[i as int]);
            assert(ms@.skip(i as int).skip(1) =~= ms@.skip(i + 1 as int));
        }
        if ms[i].season == season && ms[i].week == w && ms[i].user_id == *user {
            return Some(ms[i].points);
        }
        i += 1;
    }
    proof {
        assert(ms@.skip(n as int).len() == 0);
    }
    None
}

/// The greatest matchup week of the season at or past `lo`, if any.
fn find_max_week(ms: &Vec<Matchup>, season: i32, lo: i32) -> (r: Option<i32>)
    ensures
        match r {
            Some(w) => w == max_matchup_week(ms@, season, lo) && w >= lo,
            None => max_matchup_week(ms@, season, lo) == lo - 1,
        },
{
    let n = ms.len();
    let mut r: Option<i32> = None;
    let mut i: usize = 0;
    #[verifier::loop_isolation(false)]
    while i < n
        invariant
            i <= n,
            match r {
                Some(w) => w == max_matchup_week(ms@.subrange(0, i as int), season, lo) && w >= lo,
                None => max_matchup_week(ms@.subrange(0, i as int), season, lo) == lo - 1,
            },
        decreases n - i,
    {
        proof {
            assert(ms@.subrange(0, i + 1 as int).drop_last() =~= ms@.subrange(0, i as int));
            assert(ms@.subrange(0, i + 1 as int).last() == ms@[i as int]);
        }
        if ms[i].season == season && ms[i].week >= lo {
            match r {
                Some(w) => {
                    if ms[i].week > w {
                        r = Some(ms[i].week);
                    }
                },
                None => {
                    r = Some(ms[i].week);
                },
            }
        }
        i += 1;
    }
    proof {
        assert(ms@.subrange(0, n as int) =~= ms@);
    }
    r
}

/// The bracket of `b` was assembled from the candidate rows read off the
/// ranked rosters `sorted`: those rows seeded and resolved exactly as
/// `build_bracket` states.
pub open spec fn bracket_from(
    b: Bracket,
    sorted: Seq<Roster>,
    users: Seq<User>,
    ms: Seq<Matchup>,
    start: i32,
    champ: i32,
    bids: i64,
    curr_season: i32,
    curr_week: i32,
) -> bool {
    let lo = if curr_week <= start {
        curr_week
    } else {
        start
    };
    let uw = candidates_spec(
        sorted,
        users,
        ms,
        curr_season,
        lo,
        bids,
        max_matchup_week(ms, curr_season, lo) + 1,
    );
    let m = seeded(base_teams(uw, start), bids as int / 2);
    let end = resolution_end(start, champ, curr_week);
    &&& b.start_week == start
    &&& b.champ_week == champ
    &&& b.num_teams == base_teams(uw, start).len()
    &&& match resolve_spec(m, start, end, team_samples(uw)) {
        Some(st) => stages_view(b.stages@) == st,
        None => b.stages@ =~= Seq::<Vec<PlayoffTeam>>::empty(),
    }
}

/// Assemble the current playoff bracket from the store: take the current
/// (season, week), rank the rosters, gather each top-ranked user's weekly
/// matchup points from the earlier of the current and starting weeks on,
/// and seed and resolve the bracket. Returns `None` exactly when no
/// at-large bid count is configured, the season-state table is empty, or
/// the bid count is senseless (negative, or beyond the address space).
pub fn get_bracket(store: &Store, config: &Config) -> (r: Option<Bracket>)
    requires
        store.rosters@.len() <= i64::MAX,
    ensures
        r is None <==> (config.bigleague.playoffs_at_large is None || store.states@.len() == 0 || (
        config.bigleague.playoffs_at_large matches Some(a) && (a.bids < 0 || a.bids / 2
            > usize::MAX))),
        r matches Some(b) ==> (config.bigleague.playoffs_at_large matches Some(a) && exists|
            sorted: Seq<Roster>,
        |
            #![auto]
            sorted_by_rank(sorted) && sorted.to_multiset() == with_users(
                store.rosters@,
                store.users@,
            ).to_multiset() && bracket_from(
                b,
                sorted,
                store.users@,
                store.matchups@,
                config.bigleague.playoffs_start_week,
                config.bigleague.playoffs_championship_week,
                a.bids,
                period_scan(store.states@).0,
                period_scan(store.states@).1,
            )),
{
    let start_week = config.bigleague.playoffs_start_week;
    let champ_week = config.bigleague.playoffs_championship_week;
    let bids = match &config.bigleague.playoffs_at_large {
        Some(a) => a.bids,
        None => {
            return None;
        },
    };
    let (curr_season, curr_week) = match store.get_time_period() {
        Some(t) => t,
        None => {
            return None;
        },
    };
    if bids < 0 {
        return None;
    }
    if (bids / 2) as u64 > (usize::MAX as u64) {
        return None;
    }
    let sorted = ranked_rosters(&store.rosters, &store.users);
    proof {
        crate::standings::lemma_with_users_len(store.rosters@, store.users@);
    }
    let lo = if curr_week <= start_week {
        curr_week
    } else {
        start_week
    };
    let mut uw: Vec<PlayoffTeam> = Vec::new();
    match find_max_week(&store.matchups, curr_season, lo) {
        None => {},
        Some(mw) => {
            let mut w: i64 = lo as i64;
            #[verifier::loop_isolation(false)]
            while w <= mw as i64
                invariant
                    lo as i64 <= w <= mw as i64 + 1,
                    uw@ == candidates_spec(
                        sorted@,
                        store.users@,
                        store.matchups@,
                        curr_season,
                        lo,
                        bids,
                        w as int,
                    ),
                decreases mw as i64 + 1 - w,
            {
                let wk = w as i32;
                let m = sorted.len();
                let mut i: usize = 0;
                #[verifier::loop_isolation(false)]
                while i < m
                    invariant
                        i <= m,
                        wk == w as i32,
                        uw@ == candidates_spec(
                            sorted@,
                            store.users@,
                            store.matchups@,
                            curr_season,
                            lo,
                            bids,
                            w as int,
                        ) + week_candidates(
                            sorted@,
                            store.users@,
                            store.matchups@,
                            curr_season,
                            wk,
                            bids,
                            i as int,
                        ),
                    decreases m - i,
                {
                    let rank_ok = (i as u64) < (i64::MAX as u64) && ((i + 1) as i64) <= bids;
                    if rank_ok {
                        match crate::standings::lookup_user(&store.users, &sorted[i].user_id) {
                            Some(u) => {
                                match lookup_matchup_points(
                                    &store.matchups,
                                    curr_season,
                                    wk,
                                    &sorted[i].user_id,
                                ) {
                                    Some(pts) => {
                                        let team = PlayoffTeam {
                                            week: wk,
                                            rank: (i + 1) as i64,
                                            user: u,
                                            points: pts,
                                        };
                                        uw.push(team);
                                    },
                                    None => {},
                                }
                            },
                            None => {},
                        }
                    }
                    i += 1;
                }
                proof {
                    assert(uw@ == candidates_spec(
                        sorted@,
                        store.users@,
                        store.matchups@,
                        curr_season,
                        lo,
                        bids,
                        w + 1 as int,
                    ));
                }
                w = w + 1;
            }
        },
    }
    let b = build_bracket(&uw, start_week, champ_week, bids, curr_week);
    Some(b)
}


/// The first roster owned by `user`.
pub open spec fn roster_lookup(rosters: Seq<Roster>, user: Seq<char>) -> Option<Roster>
    decreases rosters.len(),
{
    if rosters.len() == 0 {
        None
    } else if rosters[0].user_id@ == user {
        Some(rosters[0])
    } else {
        roster_lookup(rosters.skip(1), user)
    }
}

/// Find a user's roster.
pub fn lookup_roster(rosters: &Vec<Roster>, user: &String) -> (r: Option<Roster>)
    ensures
        r == roster_lookup(rosters@, user@),
{
    let n = rosters.len();
    proof {
        assert(rosters@.skip(0) =~= rosters@);
    }
    let mut i: usize = 0;
    #[verifier::loop_isolation(false)]
    while i < n
        invariant
            i <= n,
            roster_lookup(rosters@, user@) == roster_lookup(rosters@.skip(i as int), user@),
        decreases n - i,
    {
        proof {
            assert(rosters@.skip(i as int)[0] == rosters@[i as int]);
            assert(rosters@.skip(i as int).skip(1) =~= rosters@.skip(i + 1 as int));
        }
        if rosters[i].user_id == *user {
            return Some(rosters[i].clone());
        }
        i += 1;
    }
    proof {
        assert(rosters@.skip(n as int).len() == 0);
    }
    None
}

/// The first catalog entry with the given player id.
pub open spec fn player_lookup(players: Seq<Player>, id: Seq<char>) -> Option<Player>
    decreases players.len(),
{
    if players.len() == 0 {
        None
    } else if players[0].id@ == id {
        Some(players[0])
    } else {
        player_lookup(players.skip(1), id)
    }
}

/// Find a catalog entry by player id.
fn lookup_player(players: &Vec<Player>, id: &String) -> (r: Option<Player>)
    ensures
        r == player_lookup(players@, id@),
{
    let n = players.len();
    proof {
        assert(players@.skip(0) =~= players@);
    }
    let mut i: usize = 0;
    #[verifier::loop_isolation(false)]
    while i < n
        invariant
            i <= n,
            player_lookup(players@, id@) == player_lookup(players@.skip(i as int), id@),
        decreases n - i,
    {
        proof {
            assert(players@.skip(i as int)[0] == players@[i as int]);
            assert(players@.skip(i as int).skip(1) =~= players@.skip(i + 1 as int));
        }
        if players[i].id == *id {
            return Some(players[i].clone());
        }
        i += 1;
    }
    proof {
        assert(players@.skip(n as int).len() == 0);
    }
    None
}

/// The points of the first score row keyed (player, league, season, week).
pub open spec fn score_lookup(
    scores: Seq<Score>,
    player: Seq<char>,
    league: Seq<char>,
    season: i32,
    week: i32,
) -> Option<i64>
    decreases scores.len(),
{
    if scores.len() == 0 {
        None
    } else if scores[0].player_id@ == player && scores[0].league_id@ == league && scores[0].season
        == season && scores[0].week == week {
        Some(scores[0].points)
    } else {
        score_lookup(scores.skip(1), player, league, season, week)
    }
}

/// Find a player's weekly points.
fn lookup_score(
    scores: &Vec<Score>,
    player: &String,
    league: &String,
    season: i32,
    week: i32,
) -> (r: Option<i64>)
    ensures
        r == score_lookup(scores@, player@, league@, season, week),
{
    let n = scores.len();
    proof {
        assert(scores@.skip(0) =~= scores@);
    }
    let mut i: usize = 0;
    #[verifier::loop_isolation(false)]
    while i < n
        invariant
            i <= n,
            score_lookup(scores@, player@, league@, season, week) == score_lookup(
                scores@.skip(i as int),
                player@,
                league@,
                season,
                week,
            ),
        decreases n - i,
    {
        proof {
            assert(scores@.skip(i as int)[0] == scores@[i as int]);
            assert(scores@.skip(i as int).skip(1) =~= scores@.skip(i + 1 as int));
        }
        if scores[i].player_id == *player && scores[i].league_id == *league && scores[i].season
            == season && scores[i].week == week {
            return Some(scores[i].points);
        }
        i += 1;
    }
    proof {
        assert(scores@.skip(n as int).len() == 0);
    }
    None
}

/// The display slot of a position on the roster page: quarterback first,
/// then running back, wide receiver, tight end, kicker, defense; anything
/// else last.
pub open spec fn position_class(p: Seq<char>) -> int {
    if p == "QB"@ {
        1
    } else if p == "RB"@ {
        2
    } else if p == "WR"@ {
        3
    } else if p == "TE"@ {
        4
    } else if p == "K"@ {
        5
    } else if p == "DEF"@ {
        6
    } else {
        7
    }
}

/// Compute a position's display slot.
fn position_class_of(p: &String) -> (r: u8)
    ensures
        r == position_class(p@),
{
    if *p == "QB".to_owned() {
        1
    } else if *p == "RB".to_owned() {
        2
    } else if *p == "WR".to_owned() {
        3
    } else if *p == "TE".to_owned() {
        4
    } else if *p == "K".to_owned() {
        5
    } else if *p == "DEF".to_owned() {
        6
    } else {
        7
    }
}

/// `a` displays no later than `b`: starters first, then by position slot.
pub open spec fn display_ge(a: Player, b: Player) -> bool {
    if a.starter != b.starter {
        a.starter > b.starter
    } else {
        position_class(a.position@) <= position_class(b.position@)
    }
}

/// Sorted for display under `display_ge`.
pub open spec fn sorted_for_display(s: Seq<Player>) -> bool {
    forall|i: int, j: int| 0 <= i < j < s.len() ==> display_ge(#[trigger] s[i], #[trigger] s[j])
}

/// The user page's player rows, one per ownership row of the user whose
/// catalog entry and weekly score both exist: the catalog entry with the
/// ownership's starter flag and the week's points filled in, in ownership
/// table order.
pub open spec fn user_player_rows(
    ownership: Seq<Ownership>,
    players: Seq<Player>,
    scores: Seq<Score>,
    user: Seq<char>,
    season: i32,
    week: i32,
    league: Seq<char>,
) -> Seq<Player>
    decreases ownership.len(),
{
    if ownership.len() == 0 {
        Seq::empty()
    } else {
        let rest = user_player_rows(ownership.drop_last(), players, scores, user, season, week, league);
        let o = ownership.last();
        if o.user_id@ == user {
            match (
                player_lookup(players, o.player_id@),
                score_lookup(scores, o.player_id@, league, season, week),
            ) {
                (Some(p), Some(pts)) => rest.push(
                    Player { starter: o.starter, points: pts, ..p },
                ),
                _ => rest,
            }
        } else {
            rest
        }
    }
}

/// Sort player rows for display (selection sort): starters before bench,
/// then by position slot; rows that tie keep no particular order.
fn sort_for_display(v: Vec<Player>) -> (out: Vec<Player>)
    ensures
        sorted_for_display(out@),
        out@.to_multiset() == v@.to_multiset(),
{
    let ghost all = v@;
    let mut v = v;
    let mut out: Vec<Player> = Vec::new();
    proof {
        assert(out@.to_multiset().add(v@.to_multiset()) =~= all.to_multiset());
    }
    #[verifier::loop_isolation(false)]
    while v.len() > 0
        invariant
            sorted_for_display(out@),
            out@.to_multiset().add(v@.to_multiset()) == all.to_multiset(),
            forall|a: int, b: int|
                0 <= a < out@.len() && 0 <= b < v@.len() ==> display_ge(
                    #[trigger] out@[a],
                    #[trigger] v@[b],
                ),
        decreases v@.len(),
    {
        let n = v.len();
        let mut best: usize = 0;
        let mut j: usize = 1;
        #[verifier::loop_isolation(false)]
        while j < n
            invariant
                best < j <= n,
                forall|j2: int| 0 <= j2 < j ==> display_ge(v@[best as int], #[trigger] v@[j2]),
            decreases n - j,
        {
            let better = if v[j].starter != v[best].starter {
                v[j].starter > v[best].starter
            } else {
                position_class_of(&v[j].position) <= position_class_of(&v[best].position)
            };
            if better {
                proof {
                    assert(display_ge(v@[j as int], v@[best as int]));
                    assert forall|j2: int| 0 <= j2 < j + 1 implies display_ge(
                        v@[j as int],
                        #[trigger] v@[j2],
                    ) by {
                        if j2 < j {
                            assert(display_ge(v@[best as int], v@[j2]));
                        }
                    }
                }
                best = j;
            }
            j += 1;
        }
        let m = v.remove(best);
        out.push(m);
    }
    proof {
        assert(v@.to_multiset() =~= vstd::multiset::Multiset::<Player>::empty());
        assert(out@.to_multiset().add(vstd::multiset::Multiset::<Player>::empty())
            =~= out@.to_multiset());
    }
    out
}

/// The user page's player table: the user's owned players joined with the
/// catalog and the week's scores, starters first, then by position slot.
pub fn players_of_user(
    store: &Store,
    user_id: &String,
    season: i32,
    week: i32,
    league_id: &String,
) -> (out: Vec<Player>)
    ensures
        sorted_for_display(out@),
        out@.to_multiset() == user_player_rows(
            store.ownership@,
            store.players@,
            store.scores@,
            user_id@,
            season,
            week,
            league_id@,
        ).to_multiset(),
{
    let n = store.ownership.len();
    let mut rows: Vec<Player> = Vec::new();
    let mut i: usize = 0;
    #[verifier::loop_isolation(false)]
    while i < n
        invariant
            i <= n,
            rows@ =~= user_player_rows(
                store.ownership@.subrange(0, i as int),
                store.players@,
                store.scores@,
                user_id@,
                season,
                week,
                league_id@,
            ),
        decreases n - i,
    {
        proof {
            assert(store.ownership@.subrange(0, i + 1 as int).drop_last()
                =~= store.ownership@.subrange(0, i as int));
            assert(store.ownership@.subrange(0, i + 1 as int).last()
                == store.ownership@[i as int]);
        }
        if store.ownership[i].user_id == *user_id {
            match lookup_player(&store.players, &store.ownership[i].player_id) {
                Some(p) => {
                    match lookup_score(
                        &store.scores,
                        &store.ownership[i].player_id,
                        league_id,
                        season,
                        week,
                    ) {
                        Some(pts) => {
                            let row = Player {
                                starter: store.ownership[i].starter,
                                points: pts,
                                ..p
                            };
                            rows.push(row);
                        },
                        None => {},
                    }
                },
                None => {},
            }
        }
        i += 1;
    }
    proof {
        assert(store.ownership@.subrange(0, n as int) =~= store.ownership@);
    }
    sort_for_display(rows)
}

/// The user page's schedule rows from the first `n` matchup rows: one per
/// matchup of the user in the season whose own user, opponent and
/// opponent's points all exist, in matchup table order.
pub open spec fn weeks_upto(
    ms: Seq<Matchup>,
    users: Seq<User>,
    user: Seq<char>,
    season: i32,
    n: int,
) -> Seq<Week>
    decreases n,
{
    if n <= 0 {
        Seq::empty()
    } else {
        let rest = weeks_upto(ms, users, user, season, n - 1);
        let m = ms[n - 1];
        if m.user_id@ == user && m.season == season {
            match (
                user_lookup(users, user),
                user_lookup(users, m.opponent_id@),
                matchup_points(ms, season, m.week, m.opponent_id@),
            ) {
                (Some(u), Some(ou), Some(opts)) => rest.push(
                    Week {
                        league_id: m.league_id,
                        season,
                        week: m.week,
                        user_id: m.user_id,
                        user_name: u.name,
                        user_avatar: u.avatar,
                        user_points: m.points,
                        opponent_id: m.opponent_id,
                        opponent_name: ou.name,
                        opponent_avatar: ou.avatar,
                        opponent_points: opts,
                    },
                ),
                _ => rest,
            }
        } else {
            rest
        }
    }
}

/// The user page's schedule: the user's matchups of the season, each joined
/// with both users' names and with the opponent's points read from the
/// opponent's own matchup row for that week.
pub fn weeks_of_user(store: &Store, user_id: &String, season: i32) -> (out: Vec<Week>)
    ensures
        out@ == weeks_upto(
            store.matchups@,
            store.users@,
            user_id@,
            season,
            store.matchups@.len() as int,
        ),
{
    let n = store.matchups.len();
    let mut out: Vec<Week> = Vec::new();
    let mut i: usize = 0;
    #[verifier::loop_isolation(false)]
    while i < n
        invariant
            i <= n,
            out@ =~= weeks_upto(store.matchups@, store.users@, user_id@, season, i as int),
        decreases n - i,
    {
        if store.matchups[i].user_id == *user_id && store.matchups[i].season == season {
            match crate::standings::lookup_user(&store.users, user_id) {
                Some(u) => {
                    match crate::standings::lookup_user(&store.users, &store.matchups[i].opponent_id) {
                        Some(ou) => {
                            match lookup_matchup_points(
                                &store.matchups,
                                season,
                                store.matchups[i].week,
                                &store.matchups[i].opponent_id,
                            ) {
                                Some(opts) => {
                                    let row = Week {
                                        league_id: store.matchups[i].league_id.clone(),
                                        season,
                                        week: store.matchups[i].week,
                                        user_id: store.matchups[i].user_id.clone(),
                                        user_name: u.name,
                                        user_avatar: u.avatar,
                                        user_points: store.matchups[i].points,
                                        opponent_id: store.matchups[i].opponent_id.clone(),
                                        opponent_name: ou.name,
                                        opponent_avatar: ou.avatar,
                                        opponent_points: opts,
                                    };
                                    out.push(row);
                                },
                                None => {},
                            }
                        },
                        None => {},
                    }
                },
                None => {},
            }
        }
        i += 1;
    }
    out
}

} // verus!
