//! Standings: the dense ranking of rosters by record.
//!
//! Rosters are ordered by wins, then total points, then the decimal part of
//! total points, then points against, then its decimal part — each
//! descending. Only rosters whose user exists count for rank numbering (the
//! ranks view joins users); a roster whose league is unknown is then
//! dropped from the rendered standings but keeps its rank number absorbed.

use vstd::prelude::*;
use vstd::multiset::Multiset;

use crate::types::{League, Roster, Standing, User};

verus! {

broadcast use vstd::seq_lib::group_to_multiset_ensures;

/// `a` stands no lower than `b`: the five-field record of `a` is
/// lexicographically no worse, each field read descending.
pub open spec fn rank_ge(a: Roster, b: Roster) -> bool {
    if a.wins != b.wins {
        a.wins > b.wins
    } else if a.fpts != b.fpts {
        a.fpts > b.fpts
    } else if a.fpts_decimal != b.fpts_decimal {
        a.fpts_decimal > b.fpts_decimal
    } else if a.fpts_against != b.fpts_against {
        a.fpts_against > b.fpts_against
    } else {
        a.fpts_against_decimal >= b.fpts_against_decimal
    }
}

/// Sorted best-first under `rank_ge`.
pub open spec fn sorted_by_rank(s: Seq<Roster>) -> bool {
    forall|i: int, j: int| 0 <= i < j < s.len() ==> rank_ge(#[trigger] s[i], #[trigger] s[j])
}

/// Decide `rank_ge` on two rosters.
fn ranks_before(a: &Roster, b: &Roster) -> (r: bool)
    ensures
        r == rank_ge(*a, *b),
{
    if a.wins != b.wins {
        a.wins > b.wins
    } else if a.fpts != b.fpts {
        a.fpts > b.fpts
    } else if a.fpts_decimal != b.fpts_decimal {
        a.fpts_decimal > b.fpts_decimal
    } else if a.fpts_against != b.fpts_against {
        a.fpts_against > b.fpts_against
    } else {
        a.fpts_against_decimal >= b.fpts_against_decimal
    }
}

/// Sort rosters best-first by `rank_ge` (selection sort). Equal records
/// keep no particular order, but the output is a permutation of the input
/// and fully sorted.
pub fn sort_by_rank(v: Vec<Roster>) -> (out: Vec<Roster>)
    ensures
        sorted_by_rank(out@),
        out@.to_multiset() == v@.to_multiset(),
        out@.len() == v@.len(),
{
    let ghost all = v@;
    let mut v = v;
    let mut out: Vec<Roster> = Vec::new();
    proof {
        assert(out@.to_multiset().add(v@.to_multiset()) =~= all.to_multiset());
    }
    #[verifier::loop_isolation(false)]
    while v.len() > 0
        invariant
            sorted_by_rank(out@),
            out@.to_multiset().add(v@.to_multiset()) == all.to_multiset(),
            out@.len() + v@.len() == all.len(),
            forall|a: int, b: int|
                0 <= a < out@.len() && 0 <= b < v@.len() ==> rank_ge(
                    #[trigger] out@[a],
                    #[trigger] v@[b],
                ),
        decreases v@.len(),
    {
        let n = v.len();
        let mut best: usize = 0;
        let mut j: usize = 1;
        #[verifier::loop_isolation(false)]
        while j < n
            invariant
                best < j <= n,
                forall|j2: int| 0 <= j2 < j ==> rank_ge(v@[best as int], #[trigger] v@[j2]),
            decreases n - j,
        {
            if !ranks_before(&v[best], &v[j]) {
                proof {
                    assert(rank_ge(v@[j as int], v@[best as int]));
                    assert forall|j2: int| 0 <= j2 < j + 1 implies rank_ge(
                        v@[j as int],
                        #[trigger] v@[j2],
                    ) by {
                        if j2 < j {
                            assert(rank_ge(v@[best as int], v@[j2]));
                        }
                    }
                }
                best = j;
            }
            j += 1;
        }
        let m = v.remove(best);
        out.push(m);
    }
    proof {
        assert(v@.to_multiset() =~= Multiset::<Roster>::empty());
        assert(out@.to_multiset().add(Multiset::<Roster>::empty()) =~= out@.to_multiset());
    }
    out
}

/// The first user with the given id.
pub open spec fn user_lookup(users: Seq<User>, id: Seq<char>) -> Option<User>
    decreases users.len(),
{
    if users.len() == 0 {
        None
    } else if users[0].id@ == id {
        Some(users[0])
    } else {
        user_lookup(users.skip(1), id)
    }
}

/// The first league with the given id.
pub open spec fn league_lookup(leagues: Seq<League>, id: Seq<char>) -> Option<League>
    decreases leagues.len(),
{
    if leagues.len() == 0 {
        None
    } else if leagues[0].id@ == id {
        Some(leagues[0])
    } else {
        league_lookup(leagues.skip(1), id)
    }
}

/// Find a user by id.
pub fn lookup_user(users: &Vec<User>, id: &String) -> (r: Option<User>)
    ensures
        r == user_lookup(users@, id@),
{
    let n = users.len();
    proof {
        assert(users@.skip(0) =~= users@);
    }
    let mut i: usize = 0;
    #[verifier::loop_isolation(false)]
    while i < n
        invariant
            i <= n,
            user_lookup(users@, id@) == user_lookup(users@.skip(i as int), id@),
        decreases n - i,
    {
        proof {
            assert(users@.skip(i as int)[0] == users@[i as int]);
            assert(users@.skip(i as int).skip(1) =~= users@.skip(i + 1 as int));
        }
        if users[i].id == *id {
            return Some(users[i].clone());
        }
        i += 1;
    }
    proof {
        assert(users@.skip(n as int).len() == 0);
    }
    None
}

/// Find a league by id.
pub fn lookup_league(leagues: &Vec<League>, id: &String) -> (r: Option<League>)
    ensures
        r == league_lookup(leagues@, id@),
{
    let n = leagues.len();
    proof {
        assert(leagues@.skip(0) =~= leagues@);
    }
    let mut i: usize = 0;
    #[verifier::loop_isolation(false)]
    while i < n
        invariant
            i <= n,
            league_lookup(leagues@, id@) == league_lookup(leagues@.skip(i as int), id@),
        decreases n - i,
    {
        proof {
            assert(leagues@.skip(i as int)[0] == leagues@[i as int]);
            assert(leagues@.skip(i as int).skip(1) =~= leagues@.skip(i + 1 as int));
        }
        if leagues[i].id == *id {
            return Some(leagues[i].clone());
        }
        i += 1;
    }
    proof {
        assert(leagues@.skip(n as int).len() == 0);
    }
    None
}

/// The rosters whose user exists, in table order: only these carry a rank.
pub open spec fn with_users(rosters: Seq<Roster>, users: Seq<User>) -> Seq<Roster>
    decreases rosters.len(),
{
    if rosters.len() == 0 {
        Seq::empty()
    } else {
        let rest = with_users(rosters.drop_last(), users);
        if user_lookup(users, rosters.last().user_id@) is Some {
            rest.push(rosters.last())
        } else {
            rest
        }
    }
}

/// The standings rows of the first `n` ranked rosters: rank `i + 1` for the
/// roster at sorted position `i`, joined with its user and league; a roster
/// whose league is unknown contributes no row but keeps its rank absorbed.
pub open spec fn standings_upto(
    sorted: Seq<Roster>,
    users: Seq<User>,
    leagues: Seq<League>,
    n: int,
) -> Seq<Standing>
    decreases n,
{
    if n <= 0 {
        Seq::empty()
    } else {
        let rest = standings_upto(sorted, users, leagues, n - 1);
        let r = sorted[n - 1];
        match (user_lookup(users, r.user_id@), league_lookup(leagues, r.league_id@)) {
            (Some(u), Some(l)) => rest.push(
                Standing { user: u, roster: r, league: l, rank: n as i64 },
            ),
            _ => rest,
        }
    }
}

/// A sorted permutation of the user-joined rosters, from which the
/// standings rows are read off in rank order.
pub open spec fn standings_witness(
    sorted: Seq<Roster>,
    rosters: Seq<Roster>,
    users: Seq<User>,
    leagues: Seq<League>,
    out: Seq<Standing>,
) -> bool {
    &&& sorted_by_rank(sorted)
    &&& sorted.to_multiset() == with_users(rosters, users).to_multiset()
    &&& out == standings_upto(sorted, users, leagues, sorted.len() as int)
}

/// No more rosters carry a rank than there are rosters.
pub proof fn lemma_with_users_len(rosters: Seq<Roster>, users: Seq<User>)
    ensures
        with_users(rosters, users).len() <= rosters.len(),
    decreases rosters.len(),
{
    if rosters.len() > 0 {
        lemma_with_users_len(rosters.drop_last(), users);
    }
}

/// Rank the rosters that have a user: best first under `rank_ge`, a
/// permutation of the user-joined rosters.
pub fn ranked_rosters(rosters: &Vec<Roster>, users: &Vec<User>) -> (sorted: Vec<Roster>)
    ensures
        sorted_by_rank(sorted@),
        sorted@.to_multiset() == with_users(rosters@, users@).to_multiset(),
        sorted@.len() == with_users(rosters@, users@).len(),
{
    let n = rosters.len();
    let mut eligible: Vec<Roster> = Vec::new();
    let mut i: usize = 0;
    #[verifier::loop_isolation(false)]
    while i < n
        invariant
            i <= n,
            eligible@ =~= with_users(rosters@.subrange(0, i as int), users@),
            eligible@.len() <= i,
        decreases n - i,
    {
        proof {
            assert(rosters@.subrange(0, i + 1 as int).drop_last() =~= rosters@.subrange(
                0,
                i as int,
            ));
            assert(rosters@.subrange(0, i + 1 as int).last() == rosters@[i as int]);
        }
        if lookup_user(users, &rosters[i].user_id).is_some() {
            eligible.push(rosters[i].clone());
        }
        i += 1;
    }
    proof {
        assert(rosters@.subrange(0, n as int) =~= rosters@);
    }
    sort_by_rank(eligible)
}

/// Compute the standings: rank the rosters that have a user by the
/// five-field record, best first and densely numbered from 1, and join each
/// with its user and league.
pub fn compute_standings(
    rosters: &Vec<Roster>,
    users: &Vec<User>,
    leagues: &Vec<League>,
) -> (out: Vec<Standing>)
    requires
        rosters@.len() <= i64::MAX,
    ensures
        exists|sorted: Seq<Roster>|
            #[trigger] standings_witness(sorted, rosters@, users@, leagues@, out@),
{
    let sorted = ranked_rosters(rosters, users);
    proof {
        assert(with_users(rosters@, users@).len() <= rosters@.len()) by {
            lemma_with_users_len(rosters@, users@);
        }
    }
    let ghost sorted_view = sorted@;
    let m = sorted.len();
    let mut out: Vec<Standing> = Vec::new();
    let mut i: usize = 0;
    #[verifier::loop_isolation(false)]
    while i < m
        invariant
            i <= m,
            out@ =~= standings_upto(sorted@, users@, leagues@, i as int),
        decreases m - i,
    {
        match lookup_user(users, &sorted[i].user_id) {
            Some(u) => {
                match lookup_league(leagues, &sorted[i].league_id) {
                    Some(l) => {
                        let row = Standing {
                            user: u,
                            roster: sorted[i].clone(),
                            league: l,
                            rank: (i + 1) as i64,
                        };
                        out.push(row);
                    },
                    None => {},
                }
            },
            None => {},
        }
        i += 1;
    }
    proof {
        assert(standings_witness(sorted_view, rosters@, users@, leagues@, out@));
    }
    out
}

} // verus!
