//! Opponent pairing for weekly matchups.
//!
//! An upstream matchup record names only its own roster's seat number, its
//! `matchup_id` — shared by exactly the two rosters that play each other —
//! and its own point total; the opponent is reconstructed. A record is
//! resolvable when its `matchup_id` occurs in exactly two records and both
//! seat numbers map to users of the league. Each resolvable record yields
//! one matchup row naming the other record's user as the opponent, so the
//! two records of a pair yield each other's mirror rows. Records that
//! cannot be resolved (an odd grouping such as a bye, or an unknown seat)
//! are skipped rather than failing the whole batch.

use vstd::prelude::*;

use crate::payload::MatchupPayload;
use crate::store::Store;
use crate::types::{Matchup, Roster};

verus! {

/// A league seat: the provider's per-league roster number and the user who
/// owns it.
pub struct Seat {
    pub roster_id: i32,
    pub user_id: String,
}

impl Clone for Seat {
    fn clone(&self) -> (r: Self)
        ensures
            r == *self,
    {
        Seat { roster_id: self.roster_id, user_id: self.user_id.clone() }
    }
}

/// The seats of one league, in roster-table order.
pub open spec fn seats_of(rosters: Seq<Roster>, league: Seq<char>) -> Seq<Seat>
    decreases rosters.len(),
{
    if rosters.len() == 0 {
        Seq::empty()
    } else {
        let rest = seats_of(rosters.drop_last(), league);
        if rosters.last().league_id@ == league {
            rest.push(
                Seat { roster_id: rosters.last().roster_id, user_id: rosters.last().user_id },
            )
        } else {
            rest
        }
    }
}

/// The user owning seat `rid`, by the last matching seat, or `None` when no
/// seat matches.
pub open spec fn seat_user(seats: Seq<Seat>, rid: u64) -> Option<Seq<char>>
    decreases seats.len(),
{
    if seats.len() == 0 {
        None
    } else if seats.last().roster_id >= 0 && seats.last().roster_id as u64 == rid {
        Some(seats.last().user_id@)
    } else {
        seat_user(seats.drop_last(), rid)
    }
}

/// How many of the first `n` records carry matchup id `m`.
pub open spec fn count_mid(rs: Seq<MatchupPayload>, m: u64, n: int) -> nat
    decreases n,
{
    if n <= 0 {
        0
    } else {
        count_mid(rs, m, n - 1) + if rs[n - 1].matchup_id == m {
            1nat
        } else {
            0nat
        }
    }
}

/// Some other record shares record `i`'s matchup id.
pub open spec fn has_partner(rs: Seq<MatchupPayload>, i: int) -> bool {
    exists|j: int|
        0 <= j < rs.len() && j != i && #[trigger] rs[j].matchup_id == rs[i].matchup_id
}

/// The other record of record `i`'s pair (meaningful when a partner exists;
/// unique when the matchup id occurs exactly twice).
pub open spec fn partner_idx(rs: Seq<MatchupPayload>, i: int) -> int {
    choose|j: int|
        0 <= j < rs.len() && j != i && #[trigger] rs[j].matchup_id == rs[i].matchup_id
}

/// Record `i` is resolvable: its matchup id occurs exactly twice over the
/// whole batch and both seats of the pair map to users.
pub open spec fn resolves(rs: Seq<MatchupPayload>, seats: Seq<Seat>, i: int) -> bool {
    &&& count_mid(rs, rs[i].matchup_id, rs.len() as int) == 2
    &&& has_partner(rs, i)
    &&& seat_user(seats, rs[i].roster_id) is Some
    &&& seat_user(seats, rs[partner_idx(rs, i)].roster_id) is Some
}

/// The matchup row emitted for resolvable record `i`: the record's own user
/// and points, with the partner's user as the opponent.
pub open spec fn matchup_row_matches(
    m: Matchup,
    rs: Seq<MatchupPayload>,
    seats: Seq<Seat>,
    i: int,
    season: i32,
    week: i32,
    league: Seq<char>,
) -> bool {
    &&& m.season == season
    &&& m.week == week
    &&& m.league_id@ == league
    &&& m.user_id@ == seat_user(seats, rs[i].roster_id).unwrap()
    &&& m.opponent_id@ == seat_user(seats, rs[partner_idx(rs, i)].roster_id).unwrap()
    &&& m.points == rs[i].points
}

/// The emitted rows come one from each resolvable record, in record order
/// (`idxs` lists the originating record of each row), and no resolvable
/// record is skipped.
pub open spec fn pairing_witness(
    rs: Seq<MatchupPayload>,
    seats: Seq<Seat>,
    rows: Seq<Matchup>,
    idxs: Seq<int>,
    season: i32,
    week: i32,
    league: Seq<char>,
) -> bool {
    &&& idxs.len() == rows.len()
    &&& forall|k1: int, k2: int| 0 <= k1 < k2 < idxs.len() ==> #[trigger] idxs[k1] < #[trigger] idxs[k2]
    &&& forall|k: int|
        0 <= k < idxs.len() ==> 0 <= #[trigger] idxs[k] < rs.len() && resolves(rs, seats, idxs[k])
            && matchup_row_matches(rows[k], rs, seats, idxs[k], season, week, league)
    &&& forall|i: int| 0 <= i < rs.len() && #[trigger] resolves(rs, seats, i) ==> idxs.contains(i)
}

/// Counting over a longer prefix counts no fewer records.
proof fn lemma_count_mid_mono(rs: Seq<MatchupPayload>, m: u64, n1: int, n2: int)
    requires
        n1 <= n2,
    ensures
        count_mid(rs, m, n1) <= count_mid(rs, m, n2),
    decreases n2 - n1,
{
    if n1 < n2 {
        lemma_count_mid_mono(rs, m, n1, n2 - 1);
    }
}

/// Three distinct records with one matchup id put its count at 3 or more.
proof fn lemma_count_mid_three(rs: Seq<MatchupPayload>, m: u64, i1: int, i2: int, i3: int)
    requires
        0 <= i1 < i2 < i3 < rs.len(),
        rs[i1].matchup_id == m,
        rs[i2].matchup_id == m,
        rs[i3].matchup_id == m,
    ensures
        count_mid(rs, m, rs.len() as int) >= 3,
{
    assert(count_mid(rs, m, i1 + 1) >= 1);
    lemma_count_mid_mono(rs, m, i1 + 1, i2);
    assert(count_mid(rs, m, i2 + 1) >= 2);
    lemma_count_mid_mono(rs, m, i2 + 1, i3);
    assert(count_mid(rs, m, i3 + 1) >= 3);
    lemma_count_mid_mono(rs, m, i3 + 1, rs.len() as int);
}

/// When a matchup id occurs exactly twice, the two records carrying it are
/// the only ones.
pub proof fn lemma_unique_partner(rs: Seq<MatchupPayload>, m: u64, i: int, j: int)
    requires
        count_mid(rs, m, rs.len() as int) == 2,
        0 <= i < rs.len(),
        0 <= j < rs.len(),
        i != j,
        rs[i].matchup_id == m,
        rs[j].matchup_id == m,
    ensures
        forall|j2: int|
            0 <= j2 < rs.len() && #[trigger] rs[j2].matchup_id == m ==> j2 == i || j2 == j,
{
    assert forall|j2: int|
        0 <= j2 < rs.len() && #[trigger] rs[j2].matchup_id == m implies j2 == i || j2 == j by {
        if j2 != i && j2 != j {
            let a = if i < j {
                i
            } else {
                j
            };
            let c = if i < j {
                j
            } else {
                i
            };
            if j2 < a {
                lemma_count_mid_three(rs, m, j2, a, c);
            } else if j2 < c {
                lemma_count_mid_three(rs, m, a, j2, c);
            } else {
                lemma_count_mid_three(rs, m, a, c, j2);
            }
        }
    }
}

/// Row `b` mirrors row `a`: same season, week and league, with the two
/// users swapped (each row carries its own user's points).
pub open spec fn is_mirror(a: Matchup, b: Matchup) -> bool {
    &&& b.season == a.season
    &&& b.week == a.week
    &&& b.league_id@ == a.league_id@
    &&& b.user_id@ == a.opponent_id@
    &&& b.opponent_id@ == a.user_id@
}

/// Row `k` of the batch has a mirror row in the same batch.
pub open spec fn mirrored_in(rows: Seq<Matchup>, k: int) -> bool {
    exists|k2: int| 0 <= k2 < rows.len() && is_mirror(rows[k], #[trigger] rows[k2])
}

/// Opponent pairing is symmetric: for every emitted row (season, week,
/// league, A, B, points of A), a row (season, week, league, B, A, points of
/// B) is emitted in the same batch.
pub proof fn lemma_pairing_symmetric(
    rs: Seq<MatchupPayload>,
    seats: Seq<Seat>,
    rows: Seq<Matchup>,
    idxs: Seq<int>,
    season: i32,
    week: i32,
    league: Seq<char>,
)
    requires
        pairing_witness(rs, seats, rows, idxs, season, week, league),
    ensures
        forall|k: int| 0 <= k < rows.len() ==> #[trigger] mirrored_in(rows, k),
{
    assert forall|k: int| 0 <= k < rows.len() implies #[trigger] mirrored_in(rows, k) by {
        let i = idxs[k];
        let m = rs[i].matchup_id;
        let j = partner_idx(rs, i);
        assert(0 <= j < rs.len() && j != i && rs[j].matchup_id == m);
        // the partner record resolves too, with `i` as its own partner
        assert(has_partner(rs, j));
        let j2 = partner_idx(rs, j);
        assert(0 <= j2 < rs.len() && j2 != j && rs[j2].matchup_id == m);
        lemma_unique_partner(rs, m, i, j);
        assert(j2 == i);
        assert(resolves(rs, seats, j));
        assert(idxs.contains(j));
        let kj = choose|kj: int| 0 <= kj < idxs.len() && idxs[kj] == j;
        assert(matchup_row_matches(rows[kj], rs, seats, j, season, week, league));
        assert(is_mirror(rows[k], rows[kj]));
    }
}

/// The seats of one league, read from the reconciled roster table.
pub fn league_seats(store: &Store, league_id: &String) -> (seats: Vec<Seat>)
    ensures
        seats@ == seats_of(store.rosters@, league_id@),
{
    let n = store.rosters.len();
    let mut seats: Vec<Seat> = Vec::new();
    let mut i: usize = 0;
    #[verifier::loop_isolation(false)]
    while i < n
        invariant
            i <= n,
            seats@ =~= seats_of(store.rosters@.subrange(0, i as int), league_id@),
        decreases n - i,
    {
        proof {
            assert(store.rosters@.subrange(0, i + 1 as int).drop_last() =~= store.rosters@.subrange(
                0,
                i as int,
            ));
            assert(store.rosters@.subrange(0, i + 1 as int).last() == store.rosters@[i as int]);
        }
        if store.rosters[i].league_id == *league_id {
            seats.push(
                Seat {
                    roster_id: store.rosters[i].roster_id,
                    user_id: store.rosters[i].user_id.clone(),
                },
            );
        }
        i += 1;
    }
    proof {
        assert(store.rosters@.subrange(0, n as int) =~= store.rosters@);
    }
    seats
}

/// Look the owner of seat `rid` up, taking the last matching seat.
fn lookup_seat(seats: &Vec<Seat>, rid: u64) -> (r: Option<String>)
    ensures
        match r {
            Some(u) => seat_user(seats@, rid) == Some(u@),
            None => seat_user(seats@, rid) is None,
        },
{
    let mut r: Option<String> = None;
    let n = seats.len();
    let mut i: usize = 0;
    #[verifier::loop_isolation(false)]
    while i < n
        invariant
            i <= n,
            match r {
                Some(u) => seat_user(seats@.subrange(0, i as int), rid) == Some(u@),
                None => seat_user(seats@.subrange(0, i as int), rid) is None,
            },
        decreases n - i,
    {
        proof {
            assert(seats@.subrange(0, i + 1 as int).drop_last() =~= seats@.subrange(0, i as int));
            assert(seats@.subrange(0, i + 1 as int).last() == seats@[i as int]);
        }
        if seats[i].roster_id >= 0 && seats[i].roster_id as u64 == rid {
            r = Some(seats[i].user_id.clone());
        }
        i += 1;
    }
    proof {
        assert(seats@.subrange(0, n as int) =~= seats@);
    }
    r
}

/// Emit one matchup row per resolvable record of the batch, in record
/// order: the record's own user and points, the partner record's user as
/// opponent. Unresolvable records — an odd `matchup_id` grouping such as a
/// bye, or a seat no roster claims — are skipped.
pub fn pair_matchups(
    records: &Vec<MatchupPayload>,
    seats: &Vec<Seat>,
    season: i32,
    week: i32,
    league_id: &String,
) -> (rows: Vec<Matchup>)
    ensures
        exists|idxs: Seq<int>|
            #[trigger] pairing_witness(records@, seats@, rows@, idxs, season, week, league_id@),
{
    let n = records.len();
    let mut rows: Vec<Matchup> = Vec::new();
    let ghost mut idxs: Seq<int> = Seq::empty();
    let mut i: usize = 0;
    #[verifier::loop_isolation(false)]
    while i < n
        invariant
            i <= n,
            idxs.len() == rows@.len(),
            forall|k1: int, k2: int|
                0 <= k1 < k2 < idxs.len() ==> #[trigger] idxs[k1] < #[trigger] idxs[k2],
            forall|k: int|
                0 <= k < idxs.len() ==> 0 <= #[trigger] idxs[k] < i && resolves(
                    records@,
                    seats@,
                    idxs[k],
                ) && matchup_row_matches(
                    rows@[k],
                    records@,
                    seats@,
                    idxs[k],
                    season,
                    week,
                    league_id@,
                ),
            forall|i2: int|
                0 <= i2 < i && #[trigger] resolves(records@, seats@, i2) ==> idxs.contains(i2),
        decreases n - i,
    {
        let mid = records[i].matchup_id;
        let mut cnt: usize = 0;
        let mut partner: usize = 0;
        let mut found: bool = false;
        let mut j: usize = 0;
        #[verifier::loop_isolation(false)]
        while j < n
            invariant
                j <= n,
                cnt == count_mid(records@, mid, j as int),
                cnt <= j,
                found ==> partner < n && partner != i && records@[
                    partner as int
                ].matchup_id == mid,
                !found ==> forall|j2: int|
                    0 <= j2 < j && j2 != i ==> #[trigger] records@[j2].matchup_id != mid,
            decreases n - j,
        {
            if records[j].matchup_id == mid {
                cnt = cnt + 1;
                if j != i {
                    partner = j;
                    found = true;
                }
            }
            j += 1;
        }
        if cnt == 2 && found {
            proof {
                assert(has_partner(records@, i as int));
                let pj = partner_idx(records@, i as int);
                assert(0 <= pj < records@.len() && pj != i && records@[pj].matchup_id == mid);
                lemma_unique_partner(records@, mid, i as int, partner as int);
                assert(pj == partner as int);
            }
            let u_opt = lookup_seat(seats, records[i].roster_id);
            let o_opt = lookup_seat(seats, records[partner].roster_id);
            match (u_opt, o_opt) {
                (Some(u), Some(o)) => {
                    let row = Matchup {
                        season,
                        week,
                        league_id: league_id.clone(),
                        user_id: u,
                        opponent_id: o,
                        points: records[i].points,
                    };
                    rows.push(row);
                    proof {
                        assert(resolves(records@, seats@, i as int));
                        let old_idxs = idxs;
                        idxs = idxs.push(i as int);
                        assert(idxs[idxs.len() - 1] == i as int);
                        assert forall|i2: int|
                            0 <= i2 < i + 1 && #[trigger] resolves(
                                records@,
                                seats@,
                                i2,
                            ) implies idxs.contains(i2) by {
                            if i2 < i {
                                let k = choose|k: int|
                                    0 <= k < old_idxs.len() && old_idxs[k] == i2;
                                assert(idxs[k] == i2);
                            } else {
                                assert(idxs[idxs.len() - 1] == i2);
                            }
                        }
                    }
                },
                _ => {
                    proof {
                        assert(!resolves(records@, seats@, i as int));
                    }
                },
            }
        } else {
            proof {
                if cnt == 2 {
                    assert(!has_partner(records@, i as int));
                }
                assert(!resolves(records@, seats@, i as int));
            }
        }
        i += 1;
    }
    proof {
        assert(pairing_witness(records@, seats@, rows@, idxs, season, week, league_id@));
    }
    rows
}

} // verus!
