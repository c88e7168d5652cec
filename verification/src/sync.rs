//! The synchronization task cores: decode one fetched batch and reconcile
//! it into the store. Each function is the computing part of one periodic
//! task; fetching the batch is the caller's business.

use vstd::prelude::*;

use crate::pairing::{league_seats, pair_matchups, pairing_witness, seats_of};
use crate::payload::{
    LeaguePayload, MatchupPayload, PlayerPayload, RosterPayload, StatePayload, UserPayload,
};
use crate::payload::{i32_or_zero, i64_or_zero, str_or, u64_or_zero};
use crate::reconcile::{
    fold_upserts, fold_upserts_all, lemma_fold_upserts_all_snoc, lemma_fold_upserts_snoc, upsert,
};
use crate::store::{
    Store, league_key, matchup_key, ownership_key, player_key, roster_key, score_key, set_starter,
    state_key, user_key,
};
use crate::types::{League, Matchup, Ownership, Player, Roster, Score, State, User};

verus! {

/// `l` is the decoded form of league payload `p`.
pub open spec fn league_decoded(l: League, p: LeaguePayload) -> bool {
    &&& l.id@ == p.league_id@
    &&& l.name@ == str_or(p.name, "NA"@)
    &&& l.avatar@ == str_or(p.avatar, "NA"@)
}

/// `u` is the decoded form of user payload `p`.
pub open spec fn user_decoded(u: User, p: UserPayload) -> bool {
    &&& u.id@ == p.user_id@
    &&& u.name@ == str_or(p.display_name, "NA"@)
    &&& u.avatar@ == str_or(p.avatar, "NA"@)
}

/// `r` is the decoded form of player payload `p`.
pub open spec fn player_decoded(r: Player, p: PlayerPayload) -> bool {
    &&& r.id@ == p.id@
    &&& r.first_name@ == str_or(p.first_name, "NA"@)
    &&& r.last_name@ == str_or(p.last_name, "NA"@)
    &&& r.team@ == str_or(p.team, "None"@)
    &&& r.position@ == str_or(p.position, "NA"@)
    &&& r.status@ == str_or(p.status, ""@)
    &&& r.starter == 0
    &&& r.points == 0
}

/// `s` is the decoded form of season-state payload `p`.
pub open spec fn state_decoded(s: State, p: StatePayload) -> bool {
    &&& s.season == i32_or_zero(p.season)
    &&& s.week == u64_or_zero(p.week)
    &&& s.league_season == i32_or_zero(p.league_season)
    &&& s.display_week == u64_or_zero(p.display_week)
    &&& s.season_type@ == str_or(p.season_type, "NA"@)
}

/// `us` decodes the user payloads one for one, in order.
pub open spec fn users_decoded(us: Seq<User>, ps: Seq<UserPayload>) -> bool {
    &&& us.len() == ps.len()
    &&& forall|k: int| 0 <= k < ps.len() ==> user_decoded(#[trigger] us[k], ps[k])
}

/// `rs` decodes the player payloads one for one, in order.
pub open spec fn players_decoded(rs: Seq<Player>, ps: Seq<PlayerPayload>) -> bool {
    &&& rs.len() == ps.len()
    &&& forall|k: int| 0 <= k < ps.len() ==> player_decoded(#[trigger] rs[k], ps[k])
}

/// The leagues task's reconciliation: decode the fetched league descriptor
/// and upsert it by league id.
pub fn sync_league(store: &mut Store, p: LeaguePayload)
    requires
        old(store).wf(),
    ensures
        final(store).wf(),
        exists|l: League|
            #[trigger] league_decoded(l, p) && final(store).leagues@ == upsert(
                old(store).leagues@,
                league_key(),
                l,
            ),
        final(store).users@ == old(store).users@,
        final(store).rosters@ == old(store).rosters@,
        final(store).players@ == old(store).players@,
        final(store).ownership@ == old(store).ownership@,
        final(store).states@ == old(store).states@,
        final(store).matchups@ == old(store).matchups@,
        final(store).scores@ == old(store).scores@,
{
    let l = crate::payload::decode_league(p);
    proof {
        assert(league_decoded(l, p));
    }
    store.upsert_league(l);
}

/// The state task's reconciliation: decode the fetched season state and
/// upsert it by (season, week).
pub fn sync_state(store: &mut Store, p: StatePayload)
    requires
        old(store).wf(),
        u64_or_zero(p.week) <= i32::MAX,
        u64_or_zero(p.display_week) <= i32::MAX,
    ensures
        final(store).wf(),
        exists|s: State|
            #[trigger] state_decoded(s, p) && final(store).states@ == upsert(
                old(store).states@,
                state_key(),
                s,
            ),
        final(store).leagues@ == old(store).leagues@,
        final(store).users@ == old(store).users@,
        final(store).rosters@ == old(store).rosters@,
        final(store).players@ == old(store).players@,
        final(store).ownership@ == old(store).ownership@,
        final(store).matchups@ == old(store).matchups@,
        final(store).scores@ == old(store).scores@,
{
    let s = crate::payload::decode_state(p);
    proof {
        assert(state_decoded(s, p));
    }
    store.upsert_state(s);
}

/// The users task's reconciliation: decode each fetched user and upsert it
/// by user id, in fetched order.
pub fn sync_users(store: &mut Store, mut ps: Vec<UserPayload>)
    requires
        old(store).wf(),
    ensures
        final(store).wf(),
        exists|us: Seq<User>|
            #[trigger] users_decoded(us, ps@) && final(store).users@ == fold_upserts(
                old(store).users@,
                user_key(),
                us,
            ),
        final(store).leagues@ == old(store).leagues@,
        final(store).rosters@ == old(store).rosters@,
        final(store).players@ == old(store).players@,
        final(store).ownership@ == old(store).ownership@,
        final(store).states@ == old(store).states@,
        final(store).matchups@ == old(store).matchups@,
        final(store).scores@ == old(store).scores@,
{
    let ghost all = ps@;
    proof {
        assert(ps.len() == all.len());
    }
    let ghost mut us: Seq<User> = Seq::empty();
    let mut k: usize = 0;
    #[verifier::loop_isolation(false)]
    while ps.len() > 0
        invariant
            k <= all.len(),
            all.len() <= usize::MAX,
            ps@ =~= all.skip(k as int),
            us.len() == k,
            forall|k2: int| 0 <= k2 < k ==> user_decoded(#[trigger] us[k2], all[k2]),
            store.wf(),
            store.users@ == fold_upserts(old(store).users@, user_key(), us),
            store.leagues@ == old(store).leagues@,
            store.rosters@ == old(store).rosters@,
            store.players@ == old(store).players@,
            store.ownership@ == old(store).ownership@,
            store.states@ == old(store).states@,
            store.matchups@ == old(store).matchups@,
            store.scores@ == old(store).scores@,
        decreases ps@.len(),
    {
        let p = ps.remove(0);
        proof {
            assert(p == all[k as int]);
            assert(ps@ =~= all.skip(k + 1 as int));
        }
        let u = crate::payload::decode_user(p);
        proof {
            lemma_fold_upserts_snoc(old(store).users@, user_key(), us, u);
            us = us.push(u);
        }
        store.upsert_user(u);
        k += 1;
    }
    proof {
        assert(all.skip(k as int).len() == 0);
        assert(k == all.len());
        assert(users_decoded(us, all));
    }
}

/// The players task's reconciliation: decode each catalog entry and upsert
/// it by player id, in fetched order.
pub fn sync_players(store: &mut Store, mut ps: Vec<PlayerPayload>)
    requires
        old(store).wf(),
    ensures
        final(store).wf(),
        exists|rs: Seq<Player>|
            #[trigger] players_decoded(rs, ps@) && final(store).players@ == fold_upserts(
                old(store).players@,
                player_key(),
                rs,
            ),
        final(store).leagues@ == old(store).leagues@,
        final(store).users@ == old(store).users@,
        final(store).rosters@ == old(store).rosters@,
        final(store).ownership@ == old(store).ownership@,
        final(store).states@ == old(store).states@,
        final(store).matchups@ == old(store).matchups@,
        final(store).scores@ == old(store).scores@,
{
    let ghost all = ps@;
    proof {
        assert(ps.len() == all.len());
    }
    let ghost mut rs: Seq<Player> = Seq::empty();
    let mut k: usize = 0;
    #[verifier::loop_isolation(false)]
    while ps.len() > 0
        invariant
            k <= all.len(),
            all.len() <= usize::MAX,
            ps@ =~= all.skip(k as int),
            rs.len() == k,
            forall|k2: int| 0 <= k2 < k ==> player_decoded(#[trigger] rs[k2], all[k2]),
            store.wf(),
            store.players@ == fold_upserts(old(store).players@, player_key(), rs),
            store.leagues@ == old(store).leagues@,
            store.users@ == old(store).users@,
            store.rosters@ == old(store).rosters@,
            store.ownership@ == old(store).ownership@,
            store.states@ == old(store).states@,
            store.matchups@ == old(store).matchups@,
            store.scores@ == old(store).scores@,
        decreases ps@.len(),
    {
        let p = ps.remove(0);
        proof {
            assert(p == all[k as int]);
            assert(ps@ =~= all.skip(k + 1 as int));
        }
        let r = crate::payload::decode_player(p);
        proof {
            lemma_fold_upserts_snoc(old(store).players@, player_key(), rs, r);
            rs = rs.push(r);
        }
        store.upsert_player(r);
        k += 1;
    }
    proof {
        assert(all.skip(k as int).len() == 0);
        assert(k == all.len());
        assert(players_decoded(rs, all));
    }
}


/// `r` is the decoded form of roster payload `p`.
pub open spec fn roster_decoded(r: Roster, p: RosterPayload) -> bool {
    &&& r.user_id@ == p.owner_id@
    &&& r.league_id@ == p.league_id@
    &&& r.wins == i64_or_zero(p.wins)
    &&& r.losses == i64_or_zero(p.losses)
    &&& r.ties == i64_or_zero(p.ties)
    &&& r.fpts == i64_or_zero(p.fpts)
    &&& r.fpts_decimal == i64_or_zero(p.fpts_decimal)
    &&& r.fpts_against == u64_or_zero(p.fpts_against)
    &&& r.fpts_against_decimal == u64_or_zero(p.fpts_against_decimal)
    &&& r.roster_id == u64_or_zero(p.roster_id)
}

/// The numeric fields of a roster payload fit the store's 32-bit columns.
pub open spec fn roster_payload_in_range(p: RosterPayload) -> bool {
    &&& i32::MIN <= i64_or_zero(p.wins) <= i32::MAX
    &&& i32::MIN <= i64_or_zero(p.losses) <= i32::MAX
    &&& i32::MIN <= i64_or_zero(p.ties) <= i32::MAX
    &&& i32::MIN <= i64_or_zero(p.fpts) <= i32::MAX
    &&& i32::MIN <= i64_or_zero(p.fpts_decimal) <= i32::MAX
    &&& u64_or_zero(p.fpts_against) <= i32::MAX
    &&& u64_or_zero(p.fpts_against_decimal) <= i32::MAX
    &&& u64_or_zero(p.roster_id) <= i32::MAX
}

/// `o` is the first-pass ownership row of the `k`-th listed player: owned
/// by the payload's user and league, not yet a starter.
pub open spec fn ownership_init(o: Ownership, p: RosterPayload, k: int) -> bool {
    &&& o.user_id@ == p.owner_id@
    &&& o.league_id@ == p.league_id@
    &&& o.player_id@ == p.players@[k]@
    &&& o.starter == 0
}

/// `os` lists the first-pass ownership rows of all listed players, in
/// order.
pub open spec fn ownership_inits(os: Seq<Ownership>, p: RosterPayload) -> bool {
    &&& os.len() == p.players@.len()
    &&& forall|k: int| 0 <= k < os.len() ==> ownership_init(#[trigger] os[k], p, k)
}

/// The views of a list of player ids.
pub open spec fn starter_views(ss: Seq<String>) -> Seq<Seq<char>> {
    ss.map_values(|s: String| s@)
}

/// The ownership table after the second pass: each listed starter's row
/// marked in turn.
pub open spec fn fold_mark_starters(
    s: Seq<Ownership>,
    u: Seq<char>,
    lg: Seq<char>,
    ids: Seq<Seq<char>>,
) -> Seq<Ownership>
    decreases ids.len(),
{
    if ids.len() == 0 {
        s
    } else {
        fold_mark_starters(set_starter(s, u, lg, ids[0]), u, lg, ids.skip(1))
    }
}

/// Marking a list of starters and then one more is marking the extended
/// list.
proof fn lemma_fold_mark_starters_snoc(
    s: Seq<Ownership>,
    u: Seq<char>,
    lg: Seq<char>,
    ids: Seq<Seq<char>>,
    id: Seq<char>,
)
    ensures
        fold_mark_starters(s, u, lg, ids.push(id)) == set_starter(
            fold_mark_starters(s, u, lg, ids),
            u,
            lg,
            id,
        ),
    decreases ids.len(),
{
    reveal_with_fuel(fold_mark_starters, 3);
    if ids.len() == 0 {
        assert(ids.push(id)[0] == id);
        assert(ids.push(id).skip(1) =~= Seq::<Seq<char>>::empty());
    } else {
        assert(ids.push(id)[0] == ids[0]);
        assert(ids.push(id).skip(1) =~= ids.skip(1).push(id));
        lemma_fold_mark_starters_snoc(set_starter(s, u, lg, ids[0]), u, lg, ids.skip(1), id);
    }
}

/// One roster payload's whole effect: the decoded roster record `r`
/// upserted by user id, then each listed player's ownership row upserted
/// with starter 0, then each listed starter's row marked.
pub open spec fn roster_step_witness(
    r: Roster,
    os: Seq<Ownership>,
    ro_old: Seq<Roster>,
    ow_old: Seq<Ownership>,
    ro_new: Seq<Roster>,
    ow_new: Seq<Ownership>,
    p: RosterPayload,
) -> bool {
    &&& roster_decoded(r, p)
    &&& ownership_inits(os, p)
    &&& ro_new == upsert(ro_old, roster_key(), r)
    &&& ow_new == fold_mark_starters(
        fold_upserts(ow_old, ownership_key(), os),
        p.owner_id@,
        p.league_id@,
        starter_views(p.starters@),
    )
}

/// The roster and ownership tables moved by one roster payload's two-pass
/// reconciliation.
pub open spec fn roster_applied(
    ro_old: Seq<Roster>,
    ow_old: Seq<Ownership>,
    ro_new: Seq<Roster>,
    ow_new: Seq<Ownership>,
    p: RosterPayload,
) -> bool {
    exists|r: Roster, os: Seq<Ownership>|
        #[trigger] roster_step_witness(r, os, ro_old, ow_old, ro_new, ow_new, p)
}

/// Reconcile one fetched roster: upsert the roster record, then every
/// listed player's ownership row with starter 0, then mark each listed
/// starter — so a player in both lists ends a starter, a player only in
/// `players` does not.
pub fn sync_roster(store: &mut Store, p: RosterPayload)
    requires
        old(store).wf(),
        roster_payload_in_range(p),
    ensures
        final(store).wf(),
        roster_applied(
            old(store).rosters@,
            old(store).ownership@,
            final(store).rosters@,
            final(store).ownership@,
            p,
        ),
        final(store).leagues@ == old(store).leagues@,
        final(store).users@ == old(store).users@,
        final(store).players@ == old(store).players@,
        final(store).states@ == old(store).states@,
        final(store).matchups@ == old(store).matchups@,
        final(store).scores@ == old(store).scores@,
{
    let r = crate::payload::decode_roster(&p);
    let ghost rg = r;
    store.upsert_roster(r);
    let ghost mut os: Seq<Ownership> = Seq::empty();
    let n1 = p.players.len();
    let mut k: usize = 0;
    #[verifier::loop_isolation(false)]
    while k < n1
        invariant
            k <= n1,
            os.len() == k,
            forall|k2: int| 0 <= k2 < k ==> ownership_init(#[trigger] os[k2], p, k2),
            store.wf(),
            store.rosters@ == upsert(old(store).rosters@, roster_key(), rg),
            store.ownership@ == fold_upserts(old(store).ownership@, ownership_key(), os),
            store.leagues@ == old(store).leagues@,
            store.users@ == old(store).users@,
            store.players@ == old(store).players@,
            store.states@ == old(store).states@,
            store.matchups@ == old(store).matchups@,
            store.scores@ == old(store).scores@,
        decreases n1 - k,
    {
        let o = Ownership {
            user_id: p.owner_id.clone(),
            league_id: p.league_id.clone(),
            player_id: p.players[k].clone(),
            starter: 0,
        };
        proof {
            assert(ownership_init(o, p, k as int));
            lemma_fold_upserts_snoc(old(store).ownership@, ownership_key(), os, o);
            os = os.push(o);
        }
        store.upsert_ownership(o);
        k += 1;
    }
    let ghost after_pass1 = fold_upserts(old(store).ownership@, ownership_key(), os);
    let n2 = p.starters.len();
    let mut k: usize = 0;
    #[verifier::loop_isolation(false)]
    while k < n2
        invariant
            k <= n2,
            store.wf(),
            store.rosters@ == upsert(old(store).rosters@, roster_key(), rg),
            store.ownership@ == fold_mark_starters(
                after_pass1,
                p.owner_id@,
                p.league_id@,
                starter_views(p.starters@.subrange(0, k as int)),
            ),
            store.leagues@ == old(store).leagues@,
            store.users@ == old(store).users@,
            store.players@ == old(store).players@,
            store.states@ == old(store).states@,
            store.matchups@ == old(store).matchups@,
            store.scores@ == old(store).scores@,
        decreases n2 - k,
    {
        store.mark_starter(&p.owner_id, &p.league_id, &p.starters[k]);
        proof {
            lemma_fold_mark_starters_snoc(
                after_pass1,
                p.owner_id@,
                p.league_id@,
                starter_views(p.starters@.subrange(0, k as int)),
                p.starters@[k as int]@,
            );
            assert(starter_views(p.starters@.subrange(0, k + 1 as int)) =~= starter_views(
                p.starters@.subrange(0, k as int),
            ).push(p.starters@[k as int]@));
        }
        k += 1;
    }
    proof {
        assert(p.starters@.subrange(0, n2 as int) =~= p.starters@);
        assert(roster_step_witness(
            rg,
            os,
            old(store).rosters@,
            old(store).ownership@,
            store.rosters@,
            store.ownership@,
            p,
        ));
    }
}


/// `rs` decodes the roster payloads one for one, in order.
pub open spec fn rosters_decoded(rs: Seq<Roster>, ps: Seq<RosterPayload>) -> bool {
    &&& rs.len() == ps.len()
    &&& forall|k: int| 0 <= k < ps.len() ==> roster_decoded(#[trigger] rs[k], ps[k])
}

/// `oss` lists, payload by payload, the first-pass ownership rows.
pub open spec fn ownerships_init(oss: Seq<Seq<Ownership>>, ps: Seq<RosterPayload>) -> bool {
    &&& oss.len() == ps.len()
    &&& forall|k: int| 0 <= k < ps.len() ==> ownership_inits(#[trigger] oss[k], ps[k])
}

/// The ownership table after the two-pass reconciliation of every roster
/// payload in order, `oss[k]` being the first-pass rows of payload `k`.
pub open spec fn apply_ownership_all(
    ow: Seq<Ownership>,
    ps: Seq<RosterPayload>,
    oss: Seq<Seq<Ownership>>,
) -> Seq<Ownership>
    decreases ps.len(),
{
    if ps.len() == 0 {
        ow
    } else {
        apply_ownership_all(
            fold_mark_starters(
                fold_upserts(ow, ownership_key(), oss[0]),
                ps[0].owner_id@,
                ps[0].league_id@,
                starter_views(ps[0].starters@),
            ),
            ps.skip(1),
            oss.skip(1),
        )
    }
}

/// Reconciling several rosters and then one more is reconciling the
/// extended list.
proof fn lemma_apply_ownership_all_snoc(
    ow: Seq<Ownership>,
    ps: Seq<RosterPayload>,
    oss: Seq<Seq<Ownership>>,
    p: RosterPayload,
    os: Seq<Ownership>,
)
    requires
        oss.len() == ps.len(),
    ensures
        apply_ownership_all(ow, ps.push(p), oss.push(os)) == fold_mark_starters(
            fold_upserts(apply_ownership_all(ow, ps, oss), ownership_key(), os),
            p.owner_id@,
            p.league_id@,
            starter_views(p.starters@),
        ),
    decreases ps.len(),
{
    reveal_with_fuel(apply_ownership_all, 3);
    if ps.len() == 0 {
        assert(ps.push(p)[0] == p);
        assert(oss.push(os)[0] == os);
        assert(ps.push(p).skip(1) =~= Seq::<RosterPayload>::empty());
        assert(oss.push(os).skip(1) =~= Seq::<Seq<Ownership>>::empty());
    } else {
        assert(ps.push(p)[0] == ps[0]);
        assert(oss.push(os)[0] == oss[0]);
        assert(ps.push(p).skip(1) =~= ps.skip(1).push(p));
        assert(oss.push(os).skip(1) =~= oss.skip(1).push(os));
        lemma_apply_ownership_all_snoc(
            fold_mark_starters(
                fold_upserts(ow, ownership_key(), oss[0]),
                ps[0].owner_id@,
                ps[0].league_id@,
                starter_views(ps[0].starters@),
            ),
            ps.skip(1),
            oss.skip(1),
            p,
            os,
        );
    }
}

/// The rosters task's reconciliation: the two-pass reconciliation of every
/// fetched roster, in fetched order.
pub fn sync_rosters(store: &mut Store, mut ps: Vec<RosterPayload>)
    requires
        old(store).wf(),
        forall|k: int| 0 <= k < ps@.len() ==> roster_payload_in_range(#[trigger] ps@[k]),
    ensures
        final(store).wf(),
        exists|rs: Seq<Roster>, oss: Seq<Seq<Ownership>>|
            #![auto]
            rosters_decoded(rs, ps@) && ownerships_init(oss, ps@) && final(store).rosters@
                == fold_upserts(old(store).rosters@, roster_key(), rs) && final(store).ownership@
                == apply_ownership_all(old(store).ownership@, ps@, oss),
        final(store).leagues@ == old(store).leagues@,
        final(store).users@ == old(store).users@,
        final(store).players@ == old(store).players@,
        final(store).states@ == old(store).states@,
        final(store).matchups@ == old(store).matchups@,
        final(store).scores@ == old(store).scores@,
{
    let ghost all = ps@;
    proof {
        assert(ps.len() == all.len());
    }
    let ghost mut rs_acc: Seq<Roster> = Seq::empty();
    let ghost mut oss_acc: Seq<Seq<Ownership>> = Seq::empty();
    let mut k: usize = 0;
    #[verifier::loop_isolation(false)]
    while ps.len() > 0
        invariant
            k <= all.len(),
            all.len() <= usize::MAX,
            ps@ =~= all.skip(k as int),
            rs_acc.len() == k,
            oss_acc.len() == k,
            forall|k2: int| 0 <= k2 < k ==> roster_decoded(#[trigger] rs_acc[k2], all[k2]),
            forall|k2: int| 0 <= k2 < k ==> ownership_inits(#[trigger] oss_acc[k2], all[k2]),
            store.wf(),
            store.rosters@ == fold_upserts(old(store).rosters@, roster_key(), rs_acc),
            store.ownership@ == apply_ownership_all(
                old(store).ownership@,
                all.subrange(0, k as int),
                oss_acc,
            ),
            store.leagues@ == old(store).leagues@,
            store.users@ == old(store).users@,
            store.players@ == old(store).players@,
            store.states@ == old(store).states@,
            store.matchups@ == old(store).matchups@,
            store.scores@ == old(store).scores@,
        decreases ps@.len(),
    {
        let ghost prev_ro = store.rosters@;
        let ghost prev_ow = store.ownership@;
        let p = ps.remove(0);
        proof {
            assert(p == all[k as int]);
            assert(ps@ =~= all.skip(k + 1 as int));
        }
        sync_roster(store, p);
        proof {
            let (r, os) = choose|r: Roster, os: Seq<Ownership>|
                roster_step_witness(r, os, prev_ro, prev_ow, store.rosters@, store.ownership@, p);
            lemma_fold_upserts_snoc(old(store).rosters@, roster_key(), rs_acc, r);
            assert(all.subrange(0, k + 1 as int) =~= all.subrange(0, k as int).push(p));
            lemma_apply_ownership_all_snoc(
                old(store).ownership@,
                all.subrange(0, k as int),
                oss_acc,
                p,
                os,
            );
            rs_acc = rs_acc.push(r);
            oss_acc = oss_acc.push(os);
        }
        k += 1;
    }
    proof {
        assert(all.skip(k as int).len() == 0);
        assert(k == all.len());
        assert(all.subrange(0, k as int) =~= all);
        assert(rosters_decoded(rs_acc, all) && ownerships_init(oss_acc, all));
    }
}

/// `sc` is the score row of one (player id, points) entry.
pub open spec fn score_row(
    sc: Score,
    pp: (String, i64),
    season: i32,
    week: i32,
    league: Seq<char>,
) -> bool {
    &&& sc.player_id@ == pp.0@
    &&& sc.league_id@ == league
    &&& sc.season == season
    &&& sc.week == week
    &&& sc.points == pp.1
}

/// `ss` lists the score rows of one record's scoring breakdown, in order.
pub open spec fn score_rows(
    ss: Seq<Score>,
    pps: Seq<(String, i64)>,
    season: i32,
    week: i32,
    league: Seq<char>,
) -> bool {
    &&& ss.len() == pps.len()
    &&& forall|k: int| 0 <= k < ss.len() ==> score_row(#[trigger] ss[k], pps[k], season, week, league)
}

/// `scs` lists, record by record, the score rows of every scoring
/// breakdown.
pub open spec fn scores_decoded(
    scs: Seq<Seq<Score>>,
    rs: Seq<MatchupPayload>,
    season: i32,
    week: i32,
    league: Seq<char>,
) -> bool {
    &&& scs.len() == rs.len()
    &&& forall|k: int|
        0 <= k < rs.len() ==> score_rows(
            #[trigger] scs[k],
            rs[k].players_points@,
            season,
            week,
            league,
        )
}

/// The matchups task's reconciliation: resolve opponents against the
/// reconciled roster seats, upsert one matchup row per resolvable record,
/// and upsert one score row per entry of every record's scoring breakdown
/// (scores need no opponent, so unresolvable records still deliver their
/// scores).
pub fn sync_matchups(
    store: &mut Store,
    mut records: Vec<MatchupPayload>,
    season: i32,
    week: i32,
    league_id: &String,
)
    requires
        old(store).wf(),
    ensures
        final(store).wf(),
        exists|rows: Seq<Matchup>, idxs: Seq<int>|
            #![auto]
            pairing_witness(
                records@,
                seats_of(old(store).rosters@, league_id@),
                rows,
                idxs,
                season,
                week,
                league_id@,
            ) && final(store).matchups@ == fold_upserts(old(store).matchups@, matchup_key(), rows),
        exists|scs: Seq<Seq<Score>>|
            #[trigger] scores_decoded(scs, records@, season, week, league_id@)
                && final(store).scores@ == fold_upserts_all(old(store).scores@, score_key(), scs),
        final(store).leagues@ == old(store).leagues@,
        final(store).users@ == old(store).users@,
        final(store).rosters@ == old(store).rosters@,
        final(store).players@ == old(store).players@,
        final(store).ownership@ == old(store).ownership@,
        final(store).states@ == old(store).states@,
{
    let seats = league_seats(store, league_id);
    let mut rows = pair_matchups(&records, &seats, season, week, league_id);
    let ghost pair_idxs = choose|idxs: Seq<int>|
        pairing_witness(records@, seats@, rows@, idxs, season, week, league_id@);
    let ghost all_rows = rows@;
    proof {
        assert(rows.len() == all_rows.len());
    }
    let mut t: usize = 0;
    #[verifier::loop_isolation(false)]
    while rows.len() > 0
        invariant
            t <= all_rows.len(),
            all_rows.len() <= usize::MAX,
            rows@ =~= all_rows.skip(t as int),
            store.wf(),
            store.matchups@ == fold_upserts(
                old(store).matchups@,
                matchup_key(),
                all_rows.subrange(0, t as int),
            ),
            store.leagues@ == old(store).leagues@,
            store.users@ == old(store).users@,
            store.rosters@ == old(store).rosters@,
            store.players@ == old(store).players@,
            store.ownership@ == old(store).ownership@,
            store.states@ == old(store).states@,
            store.scores@ == old(store).scores@,
        decreases rows@.len(),
    {
        let m = rows.remove(0);
        proof {
            assert(m == all_rows[t as int]);
            assert(rows@ =~= all_rows.skip(t + 1 as int));
            lemma_fold_upserts_snoc(
                old(store).matchups@,
                matchup_key(),
                all_rows.subrange(0, t as int),
                m,
            );
            assert(all_rows.subrange(0, t + 1 as int) =~= all_rows.subrange(0, t as int).push(m));
        }
        store.upsert_matchup(m);
        t += 1;
    }
    proof {
        assert(all_rows.subrange(0, t as int) =~= all_rows);
    }
    let ghost all_recs = records@;
    proof {
        assert(records.len() == all_recs.len());
    }
    let ghost mut scs_acc: Seq<Seq<Score>> = Seq::empty();
    let ghost scores0 = store.scores@;
    let mut k: usize = 0;
    #[verifier::loop_isolation(false)]
    while records.len() > 0
        invariant
            k <= all_recs.len(),
            all_recs.len() <= usize::MAX,
            records@ =~= all_recs.skip(k as int),
            scs_acc.len() == k,
            forall|k2: int|
                0 <= k2 < k ==> score_rows(
                    #[trigger] scs_acc[k2],
                    all_recs[k2].players_points@,
                    season,
                    week,
                    league_id@,
                ),
            store.wf(),
            store.scores@ == fold_upserts_all(scores0, score_key(), scs_acc),
            store.matchups@ == fold_upserts(old(store).matchups@, matchup_key(), all_rows),
            store.leagues@ == old(store).leagues@,
            store.users@ == old(store).users@,
            store.rosters@ == old(store).rosters@,
            store.players@ == old(store).players@,
            store.ownership@ == old(store).ownership@,
            store.states@ == old(store).states@,
        decreases records@.len(),
    {
        let mut r = records.remove(0);
        proof {
            assert(r == all_recs[k as int]);
            assert(records@ =~= all_recs.skip(k + 1 as int));
        }
        let ghost pps_all = r.players_points@;
        proof {
            assert(r.players_points.len() == pps_all.len());
        }
        let ghost before_rec = store.scores@;
        let ghost mut sc_acc: Seq<Score> = Seq::empty();
        let mut j: usize = 0;
        #[verifier::loop_isolation(false)]
        while r.players_points.len() > 0
            invariant
                j <= pps_all.len(),
                pps_all.len() <= usize::MAX,
                r.players_points@ =~= pps_all.skip(j as int),
                sc_acc.len() == j,
                forall|j2: int|
                    0 <= j2 < j ==> score_row(
                        #[trigger] sc_acc[j2],
                        pps_all[j2],
                        season,
                        week,
                        league_id@,
                    ),
                store.wf(),
                store.scores@ == fold_upserts(before_rec, score_key(), sc_acc),
                store.matchups@ == fold_upserts(old(store).matchups@, matchup_key(), all_rows),
                store.leagues@ == old(store).leagues@,
                store.users@ == old(store).users@,
                store.rosters@ == old(store).rosters@,
                store.players@ == old(store).players@,
                store.ownership@ == old(store).ownership@,
                store.states@ == old(store).states@,
            decreases r.players_points@.len(),
        {
            let pp = r.players_points.remove(0);
            proof {
                assert(pp == pps_all[j as int]);
                assert(r.players_points@ =~= pps_all.skip(j + 1 as int));
            }
            let sc = Score {
                player_id: pp.0,
                league_id: league_id.clone(),
                season,
                week,
                points: pp.1,
            };
            proof {
                assert(score_row(sc, pps_all[j as int], season, week, league_id@));
                lemma_fold_upserts_snoc(before_rec, score_key(), sc_acc, sc);
                sc_acc = sc_acc.push(sc);
            }
            store.upsert_score(sc);
            j += 1;
        }
        proof {
            assert(pps_all.skip(j as int).len() == 0);
            assert(j == pps_all.len());
            assert(score_rows(sc_acc, pps_all, season, week, league_id@));
            lemma_fold_upserts_all_snoc(scores0, score_key(), scs_acc, sc_acc);
            scs_acc = scs_acc.push(sc_acc);
        }
        k += 1;
    }
    proof {
        assert(all_recs.skip(k as int).len() == 0);
        assert(k == all_recs.len());
        assert(scores_decoded(scs_acc, all_recs, season, week, league_id@));
        assert(seats@ == seats_of(old(store).rosters@, league_id@));
    }
}

} // verus!
