//! Record types of the store and the values derived from them.
//!
//! Every fantasy point total (`points`, `user_points`, `opponent_points`) is
//! an `i64` counting hundredths of a point: 100.25 upstream points are held
//! as 10025.

use vstd::prelude::*;

verus! {

/// A league descriptor. Natural key: `id`.
#[derive(Debug, PartialEq)]
pub struct League {
    pub id: String,
    pub name: String,
    pub avatar: String,
}

/// One user's roster record. Natural key: `user_id`.
/// `roster_id` is the provider's per-league seat number, used to pair
/// opponents in weekly matchups.
#[derive(Debug, PartialEq)]
pub struct Roster {
    pub user_id: String,
    pub league_id: String,
    pub wins: i32,
    pub losses: i32,
    pub ties: i32,
    pub fpts: i32,
    pub fpts_decimal: i32,
    pub fpts_against: i32,
    pub fpts_against_decimal: i32,
    pub roster_id: i32,
}

/// A user. Natural key: `id`.
#[derive(Debug, PartialEq)]
pub struct User {
    pub id: String,
    pub name: String,
    pub avatar: String,
}

/// A player of the catalog, together with the per-week display fields
/// (`starter`, `points`) that the roster page joins in. Natural key: `id`.
#[derive(Debug, PartialEq)]
pub struct Player {
    pub id: String,
    pub first_name: String,
    pub last_name: String,
    pub team: String,
    pub position: String,
    pub status: String,
    pub starter: i32,
    pub points: i64,
}

/// Membership of a player on a user's roster.
/// Natural key: (`user_id`, `league_id`, `player_id`). `starter` is 0 or 1.
#[derive(Debug, PartialEq)]
pub struct Ownership {
    pub user_id: String,
    pub league_id: String,
    pub player_id: String,
    pub starter: i32,
}

/// The provider's notion of the current season and week.
/// Natural key: (`season`, `week`); the logically current row is the one
/// greatest under descending (`season`, `week`) order.
#[derive(Debug, PartialEq)]
pub struct State {
    pub season: i32,
    pub week: i32,
    pub league_season: i32,
    pub display_week: i32,
    pub season_type: String,
}

/// One side of a weekly matchup.
/// Natural key: (`season`, `week`, `league_id`, `user_id`, `opponent_id`).
#[derive(Debug, PartialEq)]
pub struct Matchup {
    pub season: i32,
    pub week: i32,
    pub league_id: String,
    pub user_id: String,
    pub opponent_id: String,
    pub points: i64,
}

/// A player's fantasy points for one week.
/// Natural key: (`player_id`, `league_id`, `season`, `week`).
#[derive(Debug, PartialEq)]
pub struct Score {
    pub player_id: String,
    pub league_id: String,
    pub season: i32,
    pub week: i32,
    pub points: i64,
}

/// One week of a user's schedule as shown on the user page: the user's own
/// matchup row joined with the opponent's names and points.
#[derive(Debug, PartialEq)]
pub struct Week {
    pub league_id: String,
    pub season: i32,
    pub week: i32,
    pub user_id: String,
    pub user_name: String,
    pub user_avatar: String,
    pub user_points: i64,
    pub opponent_id: String,
    pub opponent_name: String,
    pub opponent_avatar: String,
    pub opponent_points: i64,
}

/// A ranked team inside the playoff bracket: "this ranked team, in this
/// week, scored this many points".
#[derive(Debug, PartialEq)]
pub struct PlayoffTeam {
    pub week: i32,
    pub rank: i64,
    pub user: User,
    pub points: i64,
}

/// The resolved playoff bracket: stage 0 is the initial seeding, each later
/// stage the survivors of one round. `stages` is empty when resolution
/// failed for want of score samples.
#[derive(Debug, PartialEq)]
pub struct Bracket {
    pub num_teams: usize,
    pub start_week: i32,
    pub champ_week: i32,
    pub stages: Vec<Vec<PlayoffTeam>>,
}

/// One row of the standings table: a user with their roster, league and
/// dense rank.
#[derive(Debug, PartialEq)]
pub struct Standing {
    pub user: User,
    pub roster: Roster,
    pub league: League,
    pub rank: i64,
}

/// Address of the web frontend.
#[derive(Debug, PartialEq)]
pub struct Web {
    pub ip: String,
    pub port: u16,
}

/// Cadences of the six synchronization tasks, in seconds, and the
/// development-mode substitute source for the player catalog.
#[derive(Debug, PartialEq)]
pub struct Stats {
    pub rosters_interval: u64,
    pub players_interval: u64,
    pub users_interval: u64,
    pub leagues_interval: u64,
    pub state_interval: u64,
    pub matchups_interval: u64,
    pub dev_mode: Option<bool>,
    pub players_path: Option<String>,
}

/// Connection parameters of the backing database.
#[derive(Debug, PartialEq)]
pub struct Database {
    pub host: String,
    pub port: Option<u16>,
    pub user: String,
    pub password: String,
    pub dbname: String,
    pub max_open: u64,
    pub max_idle: u64,
    pub timeout: u64,
}

/// Playoff qualification by league-wide standing: the top `bids` ranks.
#[derive(Clone, Copy, Debug, PartialEq, Eq, Structural)]
pub struct AtLarge {
    pub bids: i64,
}

/// Playoff qualification by per-league quota.
#[derive(Clone, Copy, Debug, PartialEq, Eq, Structural)]
pub struct PerLeague {
    pub bids_per_league: i64,
}

/// The leagues to synchronize and the playoff window.
#[derive(Debug, PartialEq)]
pub struct Bigleague {
    pub leagues: Vec<String>,
    pub playoffs_start_week: i32,
    pub playoffs_championship_week: i32,
    pub playoffs_at_large: Option<AtLarge>,
    pub playoffs_per_league: Option<PerLeague>,
}

/// The whole configuration.
#[derive(Debug, PartialEq)]
pub struct Config {
    pub web: Web,
    pub stats: Stats,
    pub database: Database,
    pub bigleague: Bigleague,
}

impl Clone for Web {
    fn clone(&self) -> (r: Self)
        ensures
            r == *self,
    {
        Web { ip: self.ip.clone(), port: self.port }
    }
}

impl Clone for Stats {
    fn clone(&self) -> (r: Self)
        ensures
            r == *self,
    {
        Stats {
            rosters_interval: self.rosters_interval,
            players_interval: self.players_interval,
            users_interval: self.users_interval,
            leagues_interval: self.leagues_interval,
            state_interval: self.state_interval,
            matchups_interval: self.matchups_interval,
            dev_mode: self.dev_mode,
            players_path: match &self.players_path {
                Some(p) => Some(p.clone()),
                None => None,
            },
        }
    }
}

impl Clone for Database {
    fn clone(&self) -> (r: Self)
        ensures
            r == *self,
    {
        Database {
            host: self.host.clone(),
            port: self.port,
            user: self.user.clone(),
            password: self.password.clone(),
            dbname: self.dbname.clone(),
            max_open: self.max_open,
            max_idle: self.max_idle,
            timeout: self.timeout,
        }
    }
}

impl Clone for Bigleague {
    fn clone(&self) -> (r: Self)
        ensures
            r.leagues@ == self.leagues@,
            r.playoffs_start_week == self.playoffs_start_week,
            r.playoffs_championship_week == self.playoffs_championship_week,
            r.playoffs_at_large == self.playoffs_at_large,
            r.playoffs_per_league == self.playoffs_per_league,
    {
        let leagues = self.leagues.clone();
        proof {
            assert(leagues@ =~= self.leagues@);
        }
        Bigleague {
            leagues,
            playoffs_start_week: self.playoffs_start_week,
            playoffs_championship_week: self.playoffs_championship_week,
            playoffs_at_large: self.playoffs_at_large,
            playoffs_per_league: self.playoffs_per_league,
        }
    }
}

impl Clone for Config {
    fn clone(&self) -> (r: Self)
        ensures
            r.web == self.web,
            r.stats == self.stats,
            r.database == self.database,
            r.bigleague.leagues@ == self.bigleague.leagues@,
            r.bigleague.playoffs_start_week == self.bigleague.playoffs_start_week,
            r.bigleague.playoffs_championship_week == self.bigleague.playoffs_championship_week,
            r.bigleague.playoffs_at_large == self.bigleague.playoffs_at_large,
            r.bigleague.playoffs_per_league == self.bigleague.playoffs_per_league,
    {
        Config {
            web: self.web.clone(),
            stats: self.stats.clone(),
            database: self.database.clone(),
            bigleague: self.bigleague.clone(),
        }
    }
}

impl Clone for League {
    fn clone(&self) -> (r: Self)
        ensures
            r == *self,
    {
        League { id: self.id.clone(), name: self.name.clone(), avatar: self.avatar.clone() }
    }
}

impl Clone for Roster {
    fn clone(&self) -> (r: Self)
        ensures
            r == *self,
    {
        Roster {
            user_id: self.user_id.clone(),
            league_id: self.league_id.clone(),
            wins: self.wins,
            losses: self.losses,
            ties: self.ties,
            fpts: self.fpts,
            fpts_decimal: self.fpts_decimal,
            fpts_against: self.fpts_against,
            fpts_against_decimal: self.fpts_against_decimal,
            roster_id: self.roster_id,
        }
    }
}

impl Clone for User {
    fn clone(&self) -> (r: Self)
        ensures
            r == *self,
    {
        User { id: self.id.clone(), name: self.name.clone(), avatar: self.avatar.clone() }
    }
}

impl Clone for Player {
    fn clone(&self) -> (r: Self)
        ensures
            r == *self,
    {
        Player {
            id: self.id.clone(),
            first_name: self.first_name.clone(),
            last_name: self.last_name.clone(),
            team: self.team.clone(),
            position: self.position.clone(),
            status: self.status.clone(),
            starter: self.starter,
            points: self.points,
        }
    }
}

impl Clone for Ownership {
    fn clone(&self) -> (r: Self)
        ensures
            r == *self,
    {
        Ownership {
            user_id: self.user_id.clone(),
            league_id: self.league_id.clone(),
            player_id: self.player_id.clone(),
            starter: self.starter,
        }
    }
}

impl Clone for State {
    fn clone(&self) -> (r: Self)
        ensures
            r == *self,
    {
        State {
            season: self.season,
            week: self.week,
            league_season: self.league_season,
            display_week: self.display_week,
            season_type: self.season_type.clone(),
        }
    }
}

impl Clone for Matchup {
    fn clone(&self) -> (r: Self)
        ensures
            r == *self,
    {
        Matchup {
            season: self.season,
            week: self.week,
            league_id: self.league_id.clone(),
            user_id: self.user_id.clone(),
            opponent_id: self.opponent_id.clone(),
            points: self.points,
        }
    }
}

impl Clone for Score {
    fn clone(&self) -> (r: Self)
        ensures
            r == *self,
    {
        Score {
            player_id: self.player_id.clone(),
            league_id: self.league_id.clone(),
            season: self.season,
            week: self.week,
            points: self.points,
        }
    }
}

impl Clone for Week {
    fn clone(&self) -> (r: Self)
        ensures
            r == *self,
    {
        Week {
            league_id: self.league_id.clone(),
            season: self.season,
            week: self.week,
            user_id: self.user_id.clone(),
            user_name: self.user_name.clone(),
            user_avatar: self.user_avatar.clone(),
            user_points: self.user_points,
            opponent_id: self.opponent_id.clone(),
            opponent_name: self.opponent_name.clone(),
            opponent_avatar: self.opponent_avatar.clone(),
            opponent_points: self.opponent_points,
        }
    }
}

impl Clone for PlayoffTeam {
    fn clone(&self) -> (r: Self)
        ensures
            r == *self,
    {
        PlayoffTeam {
            week: self.week,
            rank: self.rank,
            user: self.user.clone(),
            points: self.points,
        }
    }
}

impl Clone for Standing {
    fn clone(&self) -> (r: Self)
        ensures
            r == *self,
    {
        Standing {
            user: self.user.clone(),
            roster: self.roster.clone(),
            league: self.league.clone(),
            rank: self.rank,
        }
    }
}

} // verus!
