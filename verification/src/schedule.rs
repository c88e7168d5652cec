//! The synchronization scheduler's decisions: six periodic timers, one per
//! task kind, multiplexed onto one loop. The loop asks which timer is due
//! first, runs that task to completion, and reschedules the fired timer
//! relative to the moment it fired — skipped ticks are dropped rather than
//! burst — so a driver needs only a clock and a way to run one task.

use vstd::prelude::*;

use crate::types::Stats;

verus! {

/// The six periodic synchronization tasks.
#[derive(Clone, Copy, Debug, PartialEq, Eq, Structural)]
pub enum TaskKind {
    Rosters,
    Users,
    Leagues,
    Players,
    SeasonState,
    Matchups,
}

/// One periodic timer: its period and its next deadline, both in seconds.
#[derive(Clone, Copy, Debug, PartialEq, Eq, Structural)]
pub struct Timer {
    pub period: u64,
    pub deadline: u64,
}

/// The scheduler's whole state: one timer per task kind.
#[derive(Clone, Copy, Debug, PartialEq, Eq, Structural)]
pub struct Scheduler {
    pub rosters: Timer,
    pub users: Timer,
    pub leagues: Timer,
    pub players: Timer,
    pub state: Timer,
    pub matchups: Timer,
}

impl Scheduler {
    /// The timer of one task kind.
    pub open spec fn timer_of(self, k: TaskKind) -> Timer {
        match k {
            TaskKind::Rosters => self.rosters,
            TaskKind::Users => self.users,
            TaskKind::Leagues => self.leagues,
            TaskKind::Players => self.players,
            TaskKind::SeasonState => self.state,
            TaskKind::Matchups => self.matchups,
        }
    }

    /// A fresh scheduler: every timer takes its period from the
    /// configuration and is due immediately, as a just-created periodic
    /// timer fires its first tick at once.
    pub fn new(stats: &Stats, now: u64) -> (s: Scheduler)
        ensures
            forall|k: TaskKind| (#[trigger] s.timer_of(k)).deadline == now,
            s.rosters.period == stats.rosters_interval,
            s.users.period == stats.users_interval,
            s.leagues.period == stats.leagues_interval,
            s.players.period == stats.players_interval,
            s.state.period == stats.state_interval,
            s.matchups.period == stats.matchups_interval,
    {
        Scheduler {
            rosters: Timer { period: stats.rosters_interval, deadline: now },
            users: Timer { period: stats.users_interval, deadline: now },
            leagues: Timer { period: stats.leagues_interval, deadline: now },
            players: Timer { period: stats.players_interval, deadline: now },
            state: Timer { period: stats.state_interval, deadline: now },
            matchups: Timer { period: stats.matchups_interval, deadline: now },
        }
    }

    /// The task whose timer is due first; no other deadline is earlier.
    pub fn next_due(&self) -> (k: TaskKind)
        ensures
            forall|k2: TaskKind|
                self.timer_of(k).deadline <= (#[trigger] self.timer_of(k2)).deadline,
    {
        let mut k = TaskKind::Rosters;
        let mut d = self.rosters.deadline;
        if self.users.deadline < d {
            k = TaskKind::Users;
            d = self.users.deadline;
        }
        if self.leagues.deadline < d {
            k = TaskKind::Leagues;
            d = self.leagues.deadline;
        }
        if self.players.deadline < d {
            k = TaskKind::Players;
            d = self.players.deadline;
        }
        if self.state.deadline < d {
            k = TaskKind::SeasonState;
            d = self.state.deadline;
        }
        if self.matchups.deadline < d {
            k = TaskKind::Matchups;
            d = self.matchups.deadline;
        }
        proof {
            assert(self.timer_of(k).deadline == d);
            assert forall|k2: TaskKind| d <= (#[trigger] self.timer_of(k2)).deadline by {
                match k2 {
                    TaskKind::Rosters => {},
                    TaskKind::Users => {},
                    TaskKind::Leagues => {},
                    TaskKind::Players => {},
                    TaskKind::SeasonState => {},
                    TaskKind::Matchups => {},
                }
            }
        }
        k
    }

    /// Record that task `k` ran at `now`: its next deadline becomes
    /// `now + period` — relative to now, not to the missed deadline, so a
    /// slow tick never causes a burst of catch-up firings. Every other
    /// timer, and every period, is untouched.
    pub fn fire(&mut self, k: TaskKind, now: u64)
        requires
            now + old(self).timer_of(k).period <= u64::MAX,
        ensures
            final(self).timer_of(k).period == old(self).timer_of(k).period,
            final(self).timer_of(k).deadline == now + old(self).timer_of(k).period,
            forall|k2: TaskKind|
                k2 != k ==> #[trigger] final(self).timer_of(k2) == old(self).timer_of(k2),
    {
        match k {
            TaskKind::Rosters => {
                self.rosters.deadline = now + self.rosters.period;
            },
            TaskKind::Users => {
                self.users.deadline = now + self.users.period;
            },
            TaskKind::Leagues => {
                self.leagues.deadline = now + self.leagues.period;
            },
            TaskKind::Players => {
                self.players.deadline = now + self.players.period;
            },
            TaskKind::SeasonState => {
                self.state.deadline = now + self.state.period;
            },
            TaskKind::Matchups => {
                self.matchups.deadline = now + self.matchups.period;
            },
        }
        proof {
            assert forall|k2: TaskKind|
                k2 != k implies #[trigger] self.timer_of(k2) == old(self).timer_of(k2) by {
                match k2 {
                    TaskKind::Rosters => {},
                    TaskKind::Users => {},
                    TaskKind::Leagues => {},
                    TaskKind::Players => {},
                    TaskKind::SeasonState => {},
                    TaskKind::Matchups => {},
                }
            }
        }
    }
}

/// The players task's data source, from the configuration: development mode
/// defaults to off, and the catalog file path defaults to
/// "data/players.json" in development mode and to the empty string
/// otherwise.
pub fn players_source(stats: &Stats) -> (r: (bool, String))
    ensures
        r.0 == (stats.dev_mode == Some(true)),
        r.1@ == match stats.players_path {
            Some(p) => p@,
            None => if stats.dev_mode == Some(true) {
                "data/players.json"@
            } else {
                ""@
            },
        },
{
    let dev_mode = match stats.dev_mode {
        Some(m) => m,
        None => false,
    };
    let path = match &stats.players_path {
        Some(p) => p.clone(),
        None => {
            if dev_mode {
                "data/players.json".to_owned()
            } else {
                "".to_owned()
            }
        },
    };
    (dev_mode, path)
}

} // verus!
