//! Playoff bracket resolution: reconstructing single-elimination progression
//! round by round from per-(week, rank) score samples.
//!
//! Each round pairs the surviving teams consecutively. A pair is decided by
//! the two teams' samples for that week: the strictly higher score advances,
//! and a tie advances the first-listed team of the pair. The advancing entry
//! keeps the team's identity and rank, moves to the next week, and carries
//! that next week's sample as its points (0 when the next week has no sample
//! yet). When any needed sample of the current round is missing, the whole
//! resolution fails rather than guessing.

use vstd::prelude::*;

use crate::types::{Bracket, PlayoffTeam};

verus! {

/// A score sample: this rank scored these points in this week.
#[derive(Clone, Copy, Debug, PartialEq, Eq, Structural)]
pub struct WeekSample {
    pub week: i32,
    pub rank: i64,
    pub points: i64,
}

/// The points of rank `rank` in week `w`: the last sample for that pair, or
/// `None` when there is none.
pub open spec fn sample_points(samples: Seq<WeekSample>, w: i32, rank: i64) -> Option<i64>
    decreases samples.len(),
{
    if samples.len() == 0 {
        None
    } else if samples.last().week == w && samples.last().rank == rank {
        Some(samples.last().points)
    } else {
        sample_points(samples.drop_last(), w, rank)
    }
}

/// The points a freshly advanced team carries into week `w`: that week's
/// sample if already present, else 0.
pub open spec fn carried_points(samples: Seq<WeekSample>, w: i32, rank: i64) -> i64 {
    match sample_points(samples, w, rank) {
        Some(p) => p,
        None => 0,
    }
}

/// The survivor of one pair in round `r`, or `None` when either side's
/// sample for round `r` is missing. On a tie the first-listed team advances.
pub open spec fn advance_pair(
    a: PlayoffTeam,
    b: PlayoffTeam,
    r: i32,
    samples: Seq<WeekSample>,
) -> Option<PlayoffTeam> {
    match (sample_points(samples, r, a.rank), sample_points(samples, r, b.rank)) {
        (Some(pa), Some(pb)) => {
            let w = if pa >= pb {
                a
            } else {
                b
            };
            Some(
                PlayoffTeam {
                    week: (r + 1) as i32,
                    rank: w.rank,
                    user: w.user,
                    points: carried_points(samples, (r + 1) as i32, w.rank),
                },
            )
        },
        _ => None,
    }
}

/// The survivors of round `r`: the winners of the consecutive pairs, in
/// order, or `None` when any processed pair cannot be decided. A trailing
/// unpaired team is dropped.
pub open spec fn next_round(round: Seq<PlayoffTeam>, r: i32, samples: Seq<WeekSample>) -> Option<
    Seq<PlayoffTeam>,
>
    decreases round.len(),
{
    if round.len() < 2 {
        Some(Seq::empty())
    } else {
        match advance_pair(round[0], round[1], r, samples) {
            None => None,
            Some(t) => match next_round(round.skip(2), r, samples) {
                None => None,
                Some(rest) => Some(seq![t] + rest),
            },
        }
    }
}

/// Round-by-round resolution from week `r` (exclusive upper bound `end`):
/// the list of stages, stage 0 the given round, each next stage the
/// survivors of the round before it; `None` as soon as one round cannot be
/// decided.
pub open spec fn resolve_spec(
    round: Seq<PlayoffTeam>,
    r: i32,
    end: i32,
    samples: Seq<WeekSample>,
) -> Option<Seq<Seq<PlayoffTeam>>>
    decreases end - r,
{
    if r >= end {
        Some(seq![round])
    } else {
        match next_round(round, r, samples) {
            None => None,
            Some(nr) => match resolve_spec(nr, (r + 1) as i32, end, samples) {
                None => None,
                Some(rest) => Some(seq![round] + rest),
            },
        }
    }
}

/// The stages of a bracket as a sequence of sequences.
pub open spec fn stages_view(b: Seq<Vec<PlayoffTeam>>) -> Seq<Seq<PlayoffTeam>> {
    b.map_values(|v: Vec<PlayoffTeam>| v@)
}

/// Look a (week, rank) sample up, returning the last matching entry.
fn lookup_points(samples: &Vec<WeekSample>, w: i32, rank: i64) -> (r: Option<i64>)
    ensures
        r == sample_points(samples@, w, rank),
{
    let mut r: Option<i64> = None;
    let n = samples.len();
    let mut i: usize = 0;
    #[verifier::loop_isolation(false)]
    while i < n
        invariant
            i <= n,
            r == sample_points(samples@.subrange(0, i as int), w, rank),
        decreases n - i,
    {
        proof {
            assert(samples@.subrange(0, i + 1 as int).drop_last() =~= samples@.subrange(
                0,
                i as int,
            ));
            assert(samples@.subrange(0, i + 1 as int).last() == samples@[i as int]);
        }
        if samples[i].week == w && samples[i].rank == rank {
            r = Some(samples[i].points);
        }
        i += 1;
    }
    proof {
        assert(samples@.subrange(0, n as int) =~= samples@);
    }
    r
}

/// Clone a round of teams.
fn clone_teams(v: &Vec<PlayoffTeam>) -> (r: Vec<PlayoffTeam>)
    ensures
        r@ == v@,
{
    let r = v.clone();
    proof {
        assert(r@ =~= v@);
    }
    r
}

/// Resolve the playoff progression: stage 0 is `initial_round`, and each
/// round `r` of `start_week..end_week` appends the survivors of the stage
/// before it. Returns `None` — no stages at all — as soon as a needed
/// (week, rank) sample is missing.
pub fn resolve_bracket(
    initial_round: Vec<PlayoffTeam>,
    start_week: i32,
    end_week: i32,
    weeks: Vec<WeekSample>,
) -> (res: Option<Vec<Vec<PlayoffTeam>>>)
    ensures
        match res {
            Some(b) => resolve_spec(initial_round@, start_week, end_week, weeks@) == Some(
                stages_view(b@),
            ),
            None => resolve_spec(initial_round@, start_week, end_week, weeks@) is None,
        },
{
    let mut bracket: Vec<Vec<PlayoffTeam>> = Vec::new();
    bracket.push(clone_teams(&initial_round));
    let mut curr: Vec<PlayoffTeam> = initial_round;
    let mut r: i32 = start_week;
    #[verifier::loop_isolation(false)]
    while r < end_week
        invariant
            start_week <= r,
            r <= end_week || r == start_week,
            bracket@.len() >= 1,
            bracket@.last()@ == curr@,
            match resolve_spec(curr@, r, end_week, weeks@) {
                Some(rest) => resolve_spec(initial_round@, start_week, end_week, weeks@) == Some(
                    stages_view(bracket@).drop_last() + rest,
                ),
                None => resolve_spec(initial_round@, start_week, end_week, weeks@) is None,
            },
        decreases end_week - r,
    {
        let mut next: Vec<PlayoffTeam> = Vec::new();
        proof {
            assert(curr@.skip(0) =~= curr@);
            match next_round(curr@, r, weeks@) {
                Some(rest) => {
                    assert(next@ + rest =~= rest);
                },
                None => {},
            }
        }
        let half = curr.len() / 2;
        let mut i: usize = 0;
        #[verifier::loop_isolation(false)]
        while i < half
            invariant
                i <= half,
                half == curr@.len() / 2,
                next@.len() == i,
                r < end_week,
                match next_round(curr@.skip(2 * i), r, weeks@) {
                    Some(rest) => next_round(curr@, r, weeks@) == Some(next@ + rest),
                    None => next_round(curr@, r, weeks@) is None,
                },
            decreases half - i,
        {
            proof {
                assert(curr@.skip(2 * i as int)[0] == curr@[2 * i as int]);
                assert(curr@.skip(2 * i as int)[1] == curr@[2 * i + 1 as int]);
                assert(curr@.skip(2 * i as int).skip(2) =~= curr@.skip(2 * (i + 1) as int));
            }
            let pa = lookup_points(&weeks, r, curr[2 * i].rank);
            let pb = lookup_points(&weeks, r, curr[2 * i + 1].rank);
            match (pa, pb) {
                (Some(pa), Some(pb)) => {
                    let w: &PlayoffTeam = if pa >= pb {
                        &curr[2 * i]
                    } else {
                        &curr[2 * i + 1]
                    };
                    let carried = match lookup_points(&weeks, r + 1, w.rank) {
                        Some(p) => p,
                        None => 0,
                    };
                    let adv = PlayoffTeam {
                        week: r + 1,
                        rank: w.rank,
                        user: w.user.clone(),
                        points: carried,
                    };
                    proof {
                        let s = curr@.skip(2 * i as int);
                        assert(advance_pair(s[0], s[1], r, weeks@) == Some(adv));
                    }
                    next.push(adv);
                    proof {
                        let s = curr@.skip(2 * i as int);
                        let rest2 = next_round(curr@.skip(2 * (i + 1) as int), r, weeks@);
                        if rest2 is Some {
                            assert(next_round(s, r, weeks@) == Some(
                                seq![adv] + rest2.unwrap(),
                            ));
                            assert(next@ + rest2.unwrap() =~= next@.drop_last() + (
                            seq![adv] + rest2.unwrap()));
                        }
                    }
                },
                _ => {
                    proof {
                        let s = curr@.skip(2 * i as int);
                        assert(advance_pair(s[0], s[1], r, weeks@) is None);
                        assert(next_round(curr@, r, weeks@) is None);
                        assert(resolve_spec(curr@, r, end_week, weeks@) is None);
                    }
                    return None;
                },
            }
            i += 1;
        }
        proof {
            assert(curr@.skip(2 * half as int).len() < 2);
            assert(next_round(curr@.skip(2 * half as int), r, weeks@) == Some(
                Seq::<PlayoffTeam>::empty(),
            ));
            assert(next@ + Seq::<PlayoffTeam>::empty() =~= next@);
            assert(next_round(curr@, r, weeks@) == Some(next@));
        }
        bracket.push(clone_teams(&next));
        proof {
            let prev_stages = stages_view(bracket@.drop_last());
            assert(bracket@.drop_last().map_values(|v: Vec<PlayoffTeam>| v@).drop_last()
                =~= bracket@.map_values(|v: Vec<PlayoffTeam>| v@).drop_last().drop_last());
        }
        let old_curr = curr;
        curr = next;
        r = r + 1;
        proof {
            match resolve_spec(curr@, r, end_week, weeks@) {
                Some(rest) => {
                    assert(resolve_spec(old_curr@, (r - 1) as i32, end_week, weeks@) == Some(
                        seq![old_curr@] + rest,
                    ));
                    assert(stages_view(bracket@).drop_last() + rest =~= (stages_view(
                        bracket@,
                    ).drop_last().drop_last() + seq![old_curr@]) + rest);
                    assert(stages_view(bracket@).drop_last().drop_last() + seq![old_curr@]
                        =~= stages_view(bracket@.drop_last()).drop_last() + seq![old_curr@]);
                    assert(stages_view(bracket@.drop_last()).drop_last() + seq![old_curr@]
                        =~= stages_view(bracket@.drop_last()).drop_last() + seq![
                        stages_view(bracket@.drop_last()).last(),
                    ]);
                    assert(stages_view(bracket@.drop_last()).drop_last() + seq![
                        stages_view(bracket@.drop_last()).last(),
                    ] =~= stages_view(bracket@.drop_last()));
                },
                None => {
                    assert(resolve_spec(old_curr@, (r - 1) as i32, end_week, weeks@) is None);
                },
            }
        }
    }
    proof {
        assert(resolve_spec(curr@, r, end_week, weeks@) == Some(seq![curr@]));
        assert(stages_view(bracket@).drop_last() + seq![curr@] =~= stages_view(bracket@));
    }
    Some(bracket)
}

/// 2 to the `k`.
pub open spec fn pow2(k: nat) -> nat
    decreases k,
{
    if k == 0 {
        1nat
    } else {
        2 * pow2((k - 1) as nat)
    }
}

/// When every team of the round has a sample for week `r`, the round is
/// decided: the survivors are exactly one per consecutive pair, and each
/// survivor keeps the rank of one of its pair's two teams.
pub proof fn lemma_next_round_some(round: Seq<PlayoffTeam>, r: i32, samples: Seq<WeekSample>)
    requires
        forall|i: int|
            0 <= i < round.len() ==> sample_points(samples, r, #[trigger] round[i].rank) is Some,
    ensures
        next_round(round, r, samples) is Some,
        next_round(round, r, samples).unwrap().len() == round.len() / 2,
        forall|j: int|
            0 <= j < round.len() / 2 ==> (#[trigger] next_round(round, r, samples).unwrap()[j].rank
                == round[2 * j].rank || next_round(round, r, samples).unwrap()[j].rank == round[2 * j
                + 1].rank),
    decreases round.len(),
{
    if round.len() < 2 {
    } else {
        assert(advance_pair(round[0], round[1], r, samples) is Some);
        let rest = round.skip(2);
        assert forall|i: int|
            0 <= i < rest.len() implies sample_points(samples, r, #[trigger] rest[i].rank)
            is Some by {
            assert(rest[i] == round[i + 2]);
        }
        lemma_next_round_some(rest, r, samples);
        let nr = next_round(round, r, samples).unwrap();
        let nrest = next_round(rest, r, samples).unwrap();
        assert(nr == seq![advance_pair(round[0], round[1], r, samples).unwrap()] + nrest);
        assert(nr.len() == 1 + (round.len() - 2) / 2);
        assert forall|j: int| 0 <= j < round.len() / 2 implies (#[trigger] nr[j].rank == round[2
            * j].rank || nr[j].rank == round[2 * j + 1].rank) by {
            if j > 0 {
                assert(nr[j] == nrest[j - 1]);
                assert(rest[2 * (j - 1)] == round[2 * j]);
                assert(rest[2 * (j - 1) + 1] == round[2 * j + 1]);
            }
        }
    }
}

/// A full resolution: with `2^(end - start)` seeded teams and a score sample
/// for every seeded rank in every week of the window, resolution succeeds
/// and produces one stage per week plus the seeding, each stage half the
/// size of the one before it, down to a single surviving team; every stage
/// is exactly the survivors (winner per pair) of the stage before it.
pub proof fn lemma_resolve_complete(
    round: Seq<PlayoffTeam>,
    start: i32,
    end: i32,
    samples: Seq<WeekSample>,
)
    requires
        start <= end,
        round.len() == pow2((end - start) as nat),
        forall|w: i32, i: int|
            start <= w < end && 0 <= i < round.len() ==> #[trigger] sample_points(
                samples,
                w,
                round[i].rank,
            ) is Some,
    ensures
        resolve_spec(round, start, end, samples) is Some,
        resolve_spec(round, start, end, samples).unwrap().len() == end - start + 1,
        resolve_spec(round, start, end, samples).unwrap()[0] == round,
        resolve_spec(round, start, end, samples).unwrap().last().len() == 1,
        forall|i: int|
            0 <= i < end - start ==> next_round(
                #[trigger] resolve_spec(round, start, end, samples).unwrap()[i],
                (start + i) as i32,
                samples,
            ) == Some(resolve_spec(round, start, end, samples).unwrap()[i + 1]),
    decreases end - start,
{
    if start == end {
        assert(resolve_spec(round, start, end, samples) == Some(seq![round]));
        assert(seq![round].last() == round);
        assert(round.len() == 1);
    } else {
        lemma_next_round_some(round, start, samples);
        let nr = next_round(round, start, samples).unwrap();
        assert(round.len() == 2 * pow2((end - start - 1) as nat));
        assert(nr.len() == pow2((end - start - 1) as nat));
        assert forall|w: i32, i: int|
            start + 1 <= w < end && 0 <= i < nr.len() implies #[trigger] sample_points(
            samples,
            w,
            nr[i].rank,
        ) is Some by {
            assert(nr[i].rank == round[2 * i].rank || nr[i].rank == round[2 * i + 1].rank);
        }
        lemma_resolve_complete(nr, (start + 1) as i32, end, samples);
        let rest = resolve_spec(nr, (start + 1) as i32, end, samples).unwrap();
        let st = resolve_spec(round, start, end, samples).unwrap();
        assert(st == seq![round] + rest);
        assert(st.last() == rest.last());
        assert forall|i: int|
            0 <= i < end - start implies next_round(
            #[trigger] st[i],
            (start + i) as i32,
            samples,
        ) == Some(st[i + 1]) by {
            if i == 0 {
                assert(st[0] == round && st[1] == rest[0] && rest[0] == nr);
            } else {
                assert(st[i] == rest[i - 1] && st[i + 1] == rest[i]);
                assert(next_round(rest[i - 1], ((start + 1) + (i - 1)) as i32, samples) == Some(
                    rest[i],
                ));
            }
        }
    }
}

/// A missing sample fails the whole resolution: when some team of a
/// processed pair of the first round has no sample for that week, no stages
/// are produced at all.
pub proof fn lemma_resolve_missing(
    round: Seq<PlayoffTeam>,
    start: i32,
    end: i32,
    samples: Seq<WeekSample>,
    i: int,
)
    requires
        start < end,
        0 <= i < 2 * (round.len() / 2),
        sample_points(samples, start, round[i].rank) is None,
    ensures
        resolve_spec(round, start, end, samples) is None,
{
    lemma_next_round_missing(round, start, samples, i);
}

/// A missing sample of a processed pair fails the round.
proof fn lemma_next_round_missing(
    round: Seq<PlayoffTeam>,
    r: i32,
    samples: Seq<WeekSample>,
    i: int,
)
    requires
        0 <= i < 2 * (round.len() / 2),
        sample_points(samples, r, round[i].rank) is None,
    ensures
        next_round(round, r, samples) is None,
    decreases round.len(),
{
    if i < 2 {
        assert(advance_pair(round[0], round[1], r, samples) is None);
    } else {
        if advance_pair(round[0], round[1], r, samples) is Some {
            let rest = round.skip(2);
            assert(rest[i - 2] == round[i]);
            lemma_next_round_missing(rest, r, samples, i - 2);
        }
    }
}

/// The seeded pairing of a base of ranked teams, with `h` seats per half:
/// the first `h` teams in order, interleaved with the next `h` teams in
/// reverse order, so that the pairs read (1st, 2h-th), (2nd, (2h-1)-th), and
/// so on; whichever half runs out first truncates the pairing.
pub open spec fn seeded(base: Seq<PlayoffTeam>, h: int) -> Seq<PlayoffTeam>
    recommends
        h >= 0,
{
    let t = if h <= base.len() {
        h
    } else {
        base.len() as int
    };
    let l = if base.len() <= h {
        0
    } else if h <= base.len() - h {
        h
    } else {
        base.len() - h
    };
    let z = if t <= l {
        t
    } else {
        l
    };
    Seq::new(
        (2 * z) as nat,
        |i: int|
            if i % 2 == 0 {
                base[i / 2]
            } else {
                base[h + l - 1 - (i - 1) / 2]
            },
    )
}

/// Interleave the top half of the base with the reversed bottom half.
fn seed_initial(base: &Vec<PlayoffTeam>, h: usize) -> (m: Vec<PlayoffTeam>)
    ensures
        m@ == seeded(base@, h as int),
{
    let bl = base.len();
    let t = if h <= bl {
        h
    } else {
        bl
    };
    let l = if bl <= h {
        0
    } else if h <= bl - h {
        h
    } else {
        bl - h
    };
    let z = if t <= l {
        t
    } else {
        l
    };
    let mut m: Vec<PlayoffTeam> = Vec::new();
    let mut i: usize = 0;
    #[verifier::loop_isolation(false)]
    while i < z
        invariant
            i <= z,
            m@.len() == 2 * i,
            forall|j: int| 0 <= j < i ==> #[trigger] m@[2 * j] == base@[j],
            forall|j: int| 0 <= j < i ==> #[trigger] m@[2 * j + 1] == base@[h + l - 1 - j],
        decreases z - i,
    {
        let ghost m0 = m@;
        m.push(base[i].clone());
        m.push(base[h + (l - 1 - i)].clone());
        proof {
            assert(m@ =~= m0.push(base@[i as int]).push(base@[h + l - 1 - i as int]));
            assert(m@[2 * i as int] == base@[i as int]);
            assert(m@[2 * i + 1 as int] == base@[h + l - 1 - i as int]);
            assert forall|j: int| 0 <= j < i + 1 implies #[trigger] m@[2 * j] == base@[j] by {
                if j < i {
                    assert(m@[2 * j] == m0[2 * j]);
                }
            }
            assert forall|j: int| 0 <= j < i + 1 implies #[trigger] m@[2 * j + 1] == base@[h + l - 1
                - j] by {
                if j < i {
                    assert(m@[2 * j + 1] == m0[2 * j + 1]);
                }
            }
        }
        i += 1;
    }
    proof {
        let se = seeded(base@, h as int);
        assert(m@.len() == se.len());
        assert forall|idx: int| 0 <= idx < m@.len() implies m@[idx] == se[idx] by {
            let j = idx / 2;
            if idx % 2 == 0 {
                assert(idx == 2 * j);
                assert(m@[2 * j] == base@[j]);
            } else {
                assert(idx == 2 * j + 1);
                assert(m@[2 * j] == base@[j]);
                assert(m@[2 * j + 1] == base@[h + l - 1 - j]);
            }
        }
        assert(m@ =~= se);
    }
    m
}

/// The teams of the starting week, in their given order.
pub open spec fn base_teams(uw: Seq<PlayoffTeam>, start: i32) -> Seq<PlayoffTeam>
    decreases uw.len(),
{
    if uw.len() == 0 {
        Seq::empty()
    } else {
        let rest = base_teams(uw.drop_last(), start);
        if uw.last().week == start {
            rest.push(uw.last())
        } else {
            rest
        }
    }
}

/// The score samples carried by a list of per-week team entries.
pub open spec fn team_samples(uw: Seq<PlayoffTeam>) -> Seq<WeekSample> {
    uw.map_values(|t: PlayoffTeam| WeekSample { week: t.week, rank: t.rank, points: t.points })
}

/// The exclusive upper week of resolution: the earlier of the current week
/// and the championship week, but never before the starting week.
pub open spec fn resolution_end(start: i32, champ: i32, curr: i32) -> i32 {
    let e = if curr <= champ {
        curr
    } else {
        champ
    };
    if e >= start {
        e
    } else {
        start
    }
}

/// Assemble the bracket from the per-week entries of the qualifying teams:
/// seed the starting week's teams pairwise (best against worst), then
/// resolve round by round up to the earlier of the current and championship
/// weeks. A failed resolution yields an empty list of stages, never a
/// partial one.
pub fn build_bracket(
    user_weeks: &Vec<PlayoffTeam>,
    start_week: i32,
    champ_week: i32,
    bids: i64,
    curr_week: i32,
) -> (b: Bracket)
    requires
        0 <= bids,
        bids / 2 <= usize::MAX,
    ensures
        b.start_week == start_week,
        b.champ_week == champ_week,
        b.num_teams == base_teams(user_weeks@, start_week).len(),
        ({
            let m = seeded(base_teams(user_weeks@, start_week), bids as int / 2);
            let end = resolution_end(start_week, champ_week, curr_week);
            match resolve_spec(m, start_week, end, team_samples(user_weeks@)) {
                Some(st) => stages_view(b.stages@) == st,
                None => b.stages@ =~= Seq::<Vec<PlayoffTeam>>::empty(),
            }
        }),
{
    let n = user_weeks.len();
    let mut samples: Vec<WeekSample> = Vec::new();
    let mut i: usize = 0;
    #[verifier::loop_isolation(false)]
    while i < n
        invariant
            i <= n,
            samples@ =~= team_samples(user_weeks@.subrange(0, i as int)),
        decreases n - i,
    {
        samples.push(
            WeekSample {
                week: user_weeks[i].week,
                rank: user_weeks[i].rank,
                points: user_weeks[i].points,
            },
        );
        proof {
            assert(user_weeks@.subrange(0, i + 1 as int) =~= user_weeks@.subrange(
                0,
                i as int,
            ).push(user_weeks@[i as int]));
            assert(samples@ =~= team_samples(user_weeks@.subrange(0, i + 1 as int)));
        }
        i += 1;
    }
    proof {
        assert(user_weeks@.subrange(0, n as int) =~= user_weeks@);
    }
    let mut base: Vec<PlayoffTeam> = Vec::new();
    let mut i: usize = 0;
    #[verifier::loop_isolation(false)]
    while i < n
        invariant
            i <= n,
            base@ =~= base_teams(user_weeks@.subrange(0, i as int), start_week),
        decreases n - i,
    {
        proof {
            assert(user_weeks@.subrange(0, i + 1 as int).drop_last() =~= user_weeks@.subrange(
                0,
                i as int,
            ));
            assert(user_weeks@.subrange(0, i + 1 as int).last() == user_weeks@[i as int]);
        }
        if user_weeks[i].week == start_week {
            base.push(user_weeks[i].clone());
            proof {
                assert(base_teams(user_weeks@.subrange(0, i + 1 as int), start_week)
                    =~= base_teams(user_weeks@.subrange(0, i as int), start_week).push(
                    user_weeks@[i as int],
                ));
            }
        } else {
            proof {
                assert(base_teams(user_weeks@.subrange(0, i + 1 as int), start_week)
                    =~= base_teams(user_weeks@.subrange(0, i as int), start_week));
            }
        }
        i += 1;
    }
    proof {
        assert(user_weeks@.subrange(0, n as int) =~= user_weeks@);
    }
    let h = (bids / 2) as usize;
    let matched = seed_initial(&base, h);
    let e = if curr_week <= champ_week {
        curr_week
    } else {
        champ_week
    };
    let end = if e >= start_week {
        e
    } else {
        start_week
    };
    let num_teams = base.len();
    let stages = match resolve_bracket(matched, start_week, end, samples) {
        Some(st) => st,
        None => Vec::new(),
    };
    proof {
        if resolve_spec(
            seeded(base_teams(user_weeks@, start_week), bids as int / 2),
            start_week,
            resolution_end(start_week, champ_week, curr_week),
            team_samples(user_weeks@),
        ) is None {
            assert(stages@ =~= Seq::<Vec<PlayoffTeam>>::empty());
        }
    }
    Bracket { num_teams, start_week, champ_week, stages }
}

} // verus!
