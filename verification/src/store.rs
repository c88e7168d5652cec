//! The reconciliation store: one in-memory table per record kind, each kept
//! at most one row per natural key. All writes are upserts ("insert; on
//! key conflict, overwrite every non-key column"), so reconciling the same
//! upstream snapshot twice leaves the store unchanged.

use vstd::prelude::*;
use vstd::pervasive::VecAdditionalExecFns;

use crate::types::{League, Matchup, Ownership, Player, Roster, Score, State, User};
use crate::reconcile::{has_key, key_idx, unique_keys, upsert};
use crate::reconcile::{lemma_key_idx_unique, lemma_update_same_key, lemma_upsert_properties};

verus! {

/// Natural key of a league row.
pub open spec fn league_key() -> spec_fn(League) -> Seq<char> {
    |l: League| l.id@
}

/// Natural key of a user row.
pub open spec fn user_key() -> spec_fn(User) -> Seq<char> {
    |u: User| u.id@
}

/// Natural key of a roster row: the owning user alone, so a user keeps at
/// most one roster row however many leagues they appear in.
pub open spec fn roster_key() -> spec_fn(Roster) -> Seq<char> {
    |r: Roster| r.user_id@
}

/// Natural key of a player row.
pub open spec fn player_key() -> spec_fn(Player) -> Seq<char> {
    |p: Player| p.id@
}

/// Natural key of an ownership row.
pub open spec fn ownership_key() -> spec_fn(Ownership) -> (Seq<char>, Seq<char>, Seq<char>) {
    |o: Ownership| (o.user_id@, o.league_id@, o.player_id@)
}

/// Natural key of a season-state row.
pub open spec fn state_key() -> spec_fn(State) -> (i32, i32) {
    |s: State| (s.season, s.week)
}

/// Natural key of a matchup row.
pub open spec fn matchup_key() -> spec_fn(Matchup) -> (i32, i32, Seq<char>, Seq<char>, Seq<char>) {
    |m: Matchup| (m.season, m.week, m.league_id@, m.user_id@, m.opponent_id@)
}

/// Natural key of a score row.
pub open spec fn score_key() -> spec_fn(Score) -> (Seq<char>, Seq<char>, i32, i32) {
    |s: Score| (s.player_id@, s.league_id@, s.season, s.week)
}

/// The (season, week) pair of a season-state row.
pub open spec fn period_of(s: State) -> (i32, i32) {
    (s.season, s.week)
}

/// Order on (season, week) pairs: `a` is no later than `b`.
pub open spec fn period_le(a: (i32, i32), b: (i32, i32)) -> bool {
    a.0 < b.0 || (a.0 == b.0 && a.1 <= b.1)
}

/// The (season, week) the scan settles on: the greatest period, the
/// earliest row winning ties.
pub open spec fn period_scan(states: Seq<State>) -> (i32, i32)
    recommends
        states.len() > 0,
    decreases states.len(),
{
    if states.len() <= 1 {
        (states[0].season, states[0].week)
    } else {
        let b = period_scan(states.drop_last());
        if !period_le(period_of(states.last()), b) {
            period_of(states.last())
        } else {
            b
        }
    }
}

/// The ownership table after marking the row keyed
/// (`u`, `lg`, `p`) as a starter; a table without that key is unchanged.
pub open spec fn set_starter(s: Seq<Ownership>, u: Seq<char>, lg: Seq<char>, p: Seq<char>) -> Seq<
    Ownership,
> {
    if has_key(s, ownership_key(), (u, lg, p)) {
        let i = key_idx(s, ownership_key(), (u, lg, p));
        s.update(
            i,
            Ownership {
                user_id: s[i].user_id,
                league_id: s[i].league_id,
                player_id: s[i].player_id,
                starter: 1,
            },
        )
    } else {
        s
    }
}

/// The store: eight tables, each with pairwise distinct natural keys.
pub struct Store {
    pub leagues: Vec<League>,
    pub users: Vec<User>,
    pub rosters: Vec<Roster>,
    pub players: Vec<Player>,
    pub ownership: Vec<Ownership>,
    pub states: Vec<State>,
    pub matchups: Vec<Matchup>,
    pub scores: Vec<Score>,
}

impl Store {
    /// Key uniqueness in every table: the invariant every write preserves.
    pub open spec fn wf(self) -> bool {
        &&& unique_keys(self.leagues@, league_key())
        &&& unique_keys(self.users@, user_key())
        &&& unique_keys(self.rosters@, roster_key())
        &&& unique_keys(self.players@, player_key())
        &&& unique_keys(self.ownership@, ownership_key())
        &&& unique_keys(self.states@, state_key())
        &&& unique_keys(self.matchups@, matchup_key())
        &&& unique_keys(self.scores@, score_key())
    }

    /// An empty store.
    pub fn new() -> (s: Store)
        ensures
            s.wf(),
            s.leagues@ =~= Seq::<League>::empty(),
            s.users@ =~= Seq::<User>::empty(),
            s.rosters@ =~= Seq::<Roster>::empty(),
            s.players@ =~= Seq::<Player>::empty(),
            s.ownership@ =~= Seq::<Ownership>::empty(),
            s.states@ =~= Seq::<State>::empty(),
            s.matchups@ =~= Seq::<Matchup>::empty(),
            s.scores@ =~= Seq::<Score>::empty(),
    {
        Store {
            leagues: Vec::new(),
            users: Vec::new(),
            rosters: Vec::new(),
            players: Vec::new(),
            ownership: Vec::new(),
            states: Vec::new(),
            matchups: Vec::new(),
            scores: Vec::new(),
        }
    }

    /// Reconcile a league record.
    pub fn upsert_league(&mut self, l: League)
        requires
            old(self).wf(),
        ensures
            final(self).wf(),
            final(self).leagues@ == upsert(old(self).leagues@, league_key(), l),
            final(self).users@ == old(self).users@,
            final(self).rosters@ == old(self).rosters@,
            final(self).players@ == old(self).players@,
            final(self).ownership@ == old(self).ownership@,
            final(self).states@ == old(self).states@,
            final(self).matchups@ == old(self).matchups@,
            final(self).scores@ == old(self).scores@,
    {
        proof {
            lemma_upsert_properties(self.leagues@, league_key(), l);
        }
        let n = self.leagues.len();
        let mut i: usize = 0;
        #[verifier::loop_isolation(false)]
        while i < n
            invariant
                i <= n,
                n == self.leagues.len(),
                *self == *old(self),
                forall|j: int| 0 <= j < i ==> self.leagues@[j].id@ != l.id@,
            decreases n - i,
        {
            if self.leagues[i].id == l.id {
                proof {
                    let s = self.leagues@;
                    let k = league_key();
                    assert(k(s[i as int]) == s[i as int].id@);
                    assert(k(s[i as int]) == k(l));
                    lemma_key_idx_unique(s, k, i as int);
                }
                self.leagues.set(i, l);
                return;
            }
            i += 1;
        }
        proof {
            let s = self.leagues@;
            let k = league_key();
            assert forall|j: int| 0 <= j < s.len() implies k(s[j]) != k(l) by {
                assert(k(s[j]) == s[j].id@);
            }
            assert(!has_key(s, k, k(l)));
        }
        self.leagues.push(l);
    }

    /// Reconcile a user record.
    pub fn upsert_user(&mut self, x: User)
        requires
            old(self).wf(),
        ensures
            final(self).wf(),
            final(self).users@ == upsert(old(self).users@, user_key(), x),
            final(self).leagues@ == old(self).leagues@,
            final(self).rosters@ == old(self).rosters@,
            final(self).players@ == old(self).players@,
            final(self).ownership@ == old(self).ownership@,
            final(self).states@ == old(self).states@,
            final(self).matchups@ == old(self).matchups@,
            final(self).scores@ == old(self).scores@,
    {
        proof {
            lemma_upsert_properties(self.users@, user_key(), x);
        }
        let n = self.users.len();
        let mut i: usize = 0;
        #[verifier::loop_isolation(false)]
        while i < n
            invariant
                i <= n,
                n == self.users.len(),
                *self == *old(self),
                forall|j: int| 0 <= j < i ==> !(self.users@[j].id@ == x.id@),
            decreases n - i,
        {
            if self.users[i].id == x.id {
                proof {
                    let s = self.users@;
                    let k = user_key();
                    assert(k(s[i as int]) == s[i as int].id@);
                    assert(k(x) == x.id@);
                    lemma_key_idx_unique(s, k, i as int);
                }
                self.users.set(i, x);
                return;
            }
            i += 1;
        }
        proof {
            let s = self.users@;
            let k = user_key();
            assert forall|j: int| 0 <= j < s.len() implies k(s[j]) != k(x) by {
                assert(k(s[j]) == s[j].id@);
                assert(k(x) == x.id@);
            }
            assert(!has_key(s, k, k(x)));
        }
        self.users.push(x);
    }

    /// Reconcile a roster record.
    pub fn upsert_roster(&mut self, x: Roster)
        requires
            old(self).wf(),
        ensures
            final(self).wf(),
            final(self).rosters@ == upsert(old(self).rosters@, roster_key(), x),
            final(self).leagues@ == old(self).leagues@,
            final(self).users@ == old(self).users@,
            final(self).players@ == old(self).players@,
            final(self).ownership@ == old(self).ownership@,
            final(self).states@ == old(self).states@,
            final(self).matchups@ == old(self).matchups@,
            final(self).scores@ == old(self).scores@,
    {
        proof {
            lemma_upsert_properties(self.rosters@, roster_key(), x);
        }
        let n = self.rosters.len();
        let mut i: usize = 0;
        #[verifier::loop_isolation(false)]
        while i < n
            invariant
                i <= n,
                n == self.rosters.len(),
                *self == *old(self),
                forall|j: int| 0 <= j < i ==> !(self.rosters@[j].user_id@ == x.user_id@),
            decreases n - i,
        {
            if self.rosters[i].user_id == x.user_id {
                proof {
                    let s = self.rosters@;
                    let k = roster_key();
                    assert(k(s[i as int]) == s[i as int].user_id@);
                    assert(k(x) == x.user_id@);
                    lemma_key_idx_unique(s, k, i as int);
                }
                self.rosters.set(i, x);
                return;
            }
            i += 1;
        }
        proof {
            let s = self.rosters@;
            let k = roster_key();
            assert forall|j: int| 0 <= j < s.len() implies k(s[j]) != k(x) by {
                assert(k(s[j]) == s[j].user_id@);
                assert(k(x) == x.user_id@);
            }
            assert(!has_key(s, k, k(x)));
        }
        self.rosters.push(x);
    }

    /// Reconcile a player record.
    pub fn upsert_player(&mut self, x: Player)
        requires
            old(self).wf(),
        ensures
            final(self).wf(),
            final(self).players@ == upsert(old(self).players@, player_key(), x),
            final(self).leagues@ == old(self).leagues@,
            final(self).users@ == old(self).users@,
            final(self).rosters@ == old(self).rosters@,
            final(self).ownership@ == old(self).ownership@,
            final(self).states@ == old(self).states@,
            final(self).matchups@ == old(self).matchups@,
            final(self).scores@ == old(self).scores@,
    {
        proof {
            lemma_upsert_properties(self.players@, player_key(), x);
        }
        let n = self.players.len();
        let mut i: usize = 0;
        #[verifier::loop_isolation(false)]
        while i < n
            invariant
                i <= n,
                n == self.players.len(),
                *self == *old(self),
                forall|j: int| 0 <= j < i ==> !(self.players@[j].id@ == x.id@),
            decreases n - i,
        {
            if self.players[i].id == x.id {
                proof {
                    let s = self.players@;
                    let k = player_key();
                    assert(k(s[i as int]) == s[i as int].id@);
                    assert(k(x) == x.id@);
                    lemma_key_idx_unique(s, k, i as int);
                }
                self.players.set(i, x);
                return;
            }
            i += 1;
        }
        proof {
            let s = self.players@;
            let k = player_key();
            assert forall|j: int| 0 <= j < s.len() implies k(s[j]) != k(x) by {
                assert(k(s[j]) == s[j].id@);
                assert(k(x) == x.id@);
            }
            assert(!has_key(s, k, k(x)));
        }
        self.players.push(x);
    }

    /// Reconcile a ownership record.
    pub fn upsert_ownership(&mut self, x: Ownership)
        requires
            old(self).wf(),
        ensures
            final(self).wf(),
            final(self).ownership@ == upsert(old(self).ownership@, ownership_key(), x),
            final(self).leagues@ == old(self).leagues@,
            final(self).users@ == old(self).users@,
            final(self).rosters@ == old(self).rosters@,
            final(self).players@ == old(self).players@,
            final(self).states@ == old(self).states@,
            final(self).matchups@ == old(self).matchups@,
            final(self).scores@ == old(self).scores@,
    {
        proof {
            lemma_upsert_properties(self.ownership@, ownership_key(), x);
        }
        let n = self.ownership.len();
        let mut i: usize = 0;
        #[verifier::loop_isolation(false)]
        while i < n
            invariant
                i <= n,
                n == self.ownership.len(),
                *self == *old(self),
                forall|j: int| 0 <= j < i ==> !(self.ownership@[j].user_id@ == x.user_id@ && self.ownership@[j].league_id@ == x.league_id@ && self.ownership@[j].player_id@ == x.player_id@),
            decreases n - i,
        {
            if self.ownership[i].user_id == x.user_id && self.ownership[i].league_id == x.league_id && self.ownership[i].player_id == x.player_id {
                proof {
                    let s = self.ownership@;
                    let k = ownership_key();
                    assert(k(s[i as int]) == (s[i as int].user_id@, s[i as int].league_id@, s[i as int].player_id@));
                    assert(k(x) == (x.user_id@, x.league_id@, x.player_id@));
                    lemma_key_idx_unique(s, k, i as int);
                }
                self.ownership.set(i, x);
                return;
            }
            i += 1;
        }
        proof {
            let s = self.ownership@;
            let k = ownership_key();
            assert forall|j: int| 0 <= j < s.len() implies k(s[j]) != k(x) by {
                assert(k(s[j]) == (s[j].user_id@, s[j].league_id@, s[j].player_id@));
                assert(k(x) == (x.user_id@, x.league_id@, x.player_id@));
            }
            assert(!has_key(s, k, k(x)));
        }
        self.ownership.push(x);
    }

    /// Reconcile a season-state record.
    pub fn upsert_state(&mut self, x: State)
        requires
            old(self).wf(),
        ensures
            final(self).wf(),
            final(self).states@ == upsert(old(self).states@, state_key(), x),
            final(self).leagues@ == old(self).leagues@,
            final(self).users@ == old(self).users@,
            final(self).rosters@ == old(self).rosters@,
            final(self).players@ == old(self).players@,
            final(self).ownership@ == old(self).ownership@,
            final(self).matchups@ == old(self).matchups@,
            final(self).scores@ == old(self).scores@,
    {
        proof {
            lemma_upsert_properties(self.states@, state_key(), x);
        }
        let n = self.states.len();
        let mut i: usize = 0;
        #[verifier::loop_isolation(false)]
        while i < n
            invariant
                i <= n,
                n == self.states.len(),
                *self == *old(self),
                forall|j: int| 0 <= j < i ==> !(self.states@[j].season == x.season && self.states@[j].week == x.week),
            decreases n - i,
        {
            if self.states[i].season == x.season && self.states[i].week == x.week {
                proof {
                    let s = self.states@;
                    let k = state_key();
                    assert(k(s[i as int]) == (s[i as int].season, s[i as int].week));
                    assert(k(x) == (x.season, x.week));
                    lemma_key_idx_unique(s, k, i as int);
                }
                self.states.set(i, x);
                return;
            }
            i += 1;
        }
        proof {
            let s = self.states@;
            let k = state_key();
            assert forall|j: int| 0 <= j < s.len() implies k(s[j]) != k(x) by {
                assert(k(s[j]) == (s[j].season, s[j].week));
                assert(k(x) == (x.season, x.week));
            }
            assert(!has_key(s, k, k(x)));
        }
        self.states.push(x);
    }

    /// Reconcile a matchup record.
    pub fn upsert_matchup(&mut self, x: Matchup)
        requires
            old(self).wf(),
        ensures
            final(self).wf(),
            final(self).matchups@ == upsert(old(self).matchups@, matchup_key(), x),
            final(self).leagues@ == old(self).leagues@,
            final(self).users@ == old(self).users@,
            final(self).rosters@ == old(self).rosters@,
            final(self).players@ == old(self).players@,
            final(self).ownership@ == old(self).ownership@,
            final(self).states@ == old(self).states@,
            final(self).scores@ == old(self).scores@,
    {
        proof {
            lemma_upsert_properties(self.matchups@, matchup_key(), x);
        }
        let n = self.matchups.len();
        let mut i: usize = 0;
        #[verifier::loop_isolation(false)]
        while i < n
            invariant
                i <= n,
                n == self.matchups.len(),
                *self == *old(self),
                forall|j: int| 0 <= j < i ==> !(self.matchups@[j].season == x.season && self.matchups@[j].week == x.week && self.matchups@[j].league_id@ == x.league_id@ && self.matchups@[j].user_id@ == x.user_id@ && self.matchups@[j].opponent_id@ == x.opponent_id@),
            decreases n - i,
        {
            if self.matchups[i].season == x.season && self.matchups[i].week == x.week && self.matchups[i].league_id == x.league_id && self.matchups[i].user_id == x.user_id && self.matchups[i].opponent_id == x.opponent_id {
                proof {
                    let s = self.matchups@;
                    let k = matchup_key();
                    assert(k(s[i as int]) == (s[i as int].season, s[i as int].week, s[i as int].league_id@, s[i as int].user_id@, s[i as int].opponent_id@));
                    assert(k(x) == (x.season, x.week, x.league_id@, x.user_id@, x.opponent_id@));
                    lemma_key_idx_unique(s, k, i as int);
                }
                self.matchups.set(i, x);
                return;
            }
            i += 1;
        }
        proof {
            let s = self.matchups@;
            let k = matchup_key();
            assert forall|j: int| 0 <= j < s.len() implies k(s[j]) != k(x) by {
                assert(k(s[j]) == (s[j].season, s[j].week, s[j].league_id@, s[j].user_id@, s[j].opponent_id@));
                assert(k(x) == (x.season, x.week, x.league_id@, x.user_id@, x.opponent_id@));
            }
            assert(!has_key(s, k, k(x)));
        }
        self.matchups.push(x);
    }

    /// Reconcile a score record.
    pub fn upsert_score(&mut self, x: Score)
        requires
            old(self).wf(),
        ensures
            final(self).wf(),
            final(self).scores@ == upsert(old(self).scores@, score_key(), x),
            final(self).leagues@ == old(self).leagues@,
            final(self).users@ == old(self).users@,
            final(self).rosters@ == old(self).rosters@,
            final(self).players@ == old(self).players@,
            final(self).ownership@ == old(self).ownership@,
            final(self).states@ == old(self).states@,
            final(self).matchups@ == old(self).matchups@,
    {
        proof {
            lemma_upsert_properties(self.scores@, score_key(), x);
        }
        let n = self.scores.len();
        let mut i: usize = 0;
        #[verifier::loop_isolation(false)]
        while i < n
            invariant
                i <= n,
                n == self.scores.len(),
                *self == *old(self),
                forall|j: int| 0 <= j < i ==> !(self.scores@[j].player_id@ == x.player_id@ && self.scores@[j].league_id@ == x.league_id@ && self.scores@[j].season == x.season && self.scores@[j].week == x.week),
            decreases n - i,
        {
            if self.scores[i].player_id == x.player_id && self.scores[i].league_id == x.league_id && self.scores[i].season == x.season && self.scores[i].week == x.week {
                proof {
                    let s = self.scores@;
                    let k = score_key();
                    assert(k(s[i as int]) == (s[i as int].player_id@, s[i as int].league_id@, s[i as int].season, s[i as int].week));
                    assert(k(x) == (x.player_id@, x.league_id@, x.season, x.week));
                    lemma_key_idx_unique(s, k, i as int);
                }
                self.scores.set(i, x);
                return;
            }
            i += 1;
        }
        proof {
            let s = self.scores@;
            let k = score_key();
            assert forall|j: int| 0 <= j < s.len() implies k(s[j]) != k(x) by {
                assert(k(s[j]) == (s[j].player_id@, s[j].league_id@, s[j].season, s[j].week));
                assert(k(x) == (x.player_id@, x.league_id@, x.season, x.week));
            }
            assert(!has_key(s, k, k(x)));
        }
        self.scores.push(x);
    }

    /// Mark an ownership row as a starter, when the row exists; a missing
    /// row is left missing, exactly as an update by key would.
    pub fn mark_starter(&mut self, user_id: &String, league_id: &String, player_id: &String)
        requires
            old(self).wf(),
        ensures
            final(self).wf(),
            final(self).ownership@ == set_starter(
                old(self).ownership@,
                user_id@,
                league_id@,
                player_id@,
            ),
            final(self).leagues@ == old(self).leagues@,
            final(self).users@ == old(self).users@,
            final(self).rosters@ == old(self).rosters@,
            final(self).players@ == old(self).players@,
            final(self).states@ == old(self).states@,
            final(self).matchups@ == old(self).matchups@,
            final(self).scores@ == old(self).scores@,
    {
        let n = self.ownership.len();
        let mut i: usize = 0;
        #[verifier::loop_isolation(false)]
        while i < n
            invariant
                i <= n,
                n == self.ownership.len(),
                *self == *old(self),
                forall|j: int|
                    0 <= j < i ==> !(self.ownership@[j].user_id@ == user_id@
                        && self.ownership@[j].league_id@ == league_id@
                        && self.ownership@[j].player_id@ == player_id@),
            decreases n - i,
        {
            if self.ownership[i].user_id == *user_id && self.ownership[i].league_id == *league_id
                && self.ownership[i].player_id == *player_id {
                let row = Ownership {
                    user_id: self.ownership[i].user_id.clone(),
                    league_id: self.ownership[i].league_id.clone(),
                    player_id: self.ownership[i].player_id.clone(),
                    starter: 1,
                };
                proof {
                    let s = self.ownership@;
                    let k = ownership_key();
                    assert(k(s[i as int]) == (
                        s[i as int].user_id@,
                        s[i as int].league_id@,
                        s[i as int].player_id@,
                    ));
                    assert(k(s[i as int]) == (user_id@, league_id@, player_id@));
                    lemma_key_idx_unique(s, k, i as int);
                    assert(k(row) == k(s[i as int]));
                    lemma_update_same_key(s, k, i as int, row);
                }
                self.ownership.set(i, row);
                return;
            }
            i += 1;
        }
        proof {
            let s = self.ownership@;
            let k = ownership_key();
            assert forall|j: int|
                0 <= j < s.len() implies k(s[j]) != ((user_id@, league_id@, player_id@)) by {
                assert(k(s[j]) == (s[j].user_id@, s[j].league_id@, s[j].player_id@));
            }
            assert(!has_key(s, k, (user_id@, league_id@, player_id@)));
        }
    }

    /// The number of synchronized leagues.
    pub fn get_num_leagues(&self) -> (n: usize)
        ensures
            n == self.leagues@.len(),
    {
        self.leagues.len()
    }

    /// The current (season, week): the greatest season-state row under
    /// descending (season, week) order, or `None` on an empty table.
    pub fn get_time_period(&self) -> (r: Option<(i32, i32)>)
        ensures
            match r {
                Some(t) => {
                    &&& t == period_scan(self.states@)
                    &&& exists|i: int|
                        0 <= i < self.states@.len() && #[trigger] period_of(self.states@[i]) == t
                    &&& forall|i: int|
                        0 <= i < self.states@.len() ==> period_le(
                            #[trigger] period_of(self.states@[i]),
                            t,
                        )
                },
                None => self.states@.len() == 0,
            },
    {
        if self.states.len() == 0 {
            return None;
        }
        let mut best_season = self.states[0].season;
        let mut best_week = self.states[0].week;
        proof {
            assert(period_of(self.states@[0]) == (best_season, best_week));
            assert(self.states@.subrange(0, 1) =~= seq![self.states@[0]]);
            assert(period_scan(self.states@.subrange(0, 1)) == (best_season, best_week));
        }
        let n = self.states.len();
        let mut i: usize = 1;
        #[verifier::loop_isolation(false)]
        while i < n
            invariant
                1 <= i <= n,
                (best_season, best_week) == period_scan(self.states@.subrange(0, i as int)),
                exists|j: int|
                    0 <= j < i && #[trigger] period_of(self.states@[j]) == (best_season, best_week),
                forall|j: int|
                    0 <= j < i ==> period_le(
                        #[trigger] period_of(self.states@[j]),
                        (best_season, best_week),
                    ),
            decreases n - i,
        {
            proof {
                assert(self.states@.subrange(0, i + 1 as int).drop_last() =~= self.states@.subrange(
                    0,
                    i as int,
                ));
                assert(self.states@.subrange(0, i + 1 as int).last() == self.states@[i as int]);
            }
            let s = self.states[i].season;
            let w = self.states[i].week;
            if s > best_season || (s == best_season && w > best_week) {
                best_season = s;
                best_week = w;
                proof {
                    assert(period_of(self.states@[i as int]) == (best_season, best_week));
                }
            }
            i += 1;
        }
        proof {
            assert(self.states@.subrange(0, n as int) =~= self.states@);
        }
        Some((best_season, best_week))
    }
}

} // verus!
