//! Typed upstream payloads and their decoding into store records.
//!
//! A payload holds exactly what one upstream JSON object carries, with an
//! `Option` for every field the provider may omit (or deliver in an
//! unusable shape). Decoding never fails: each absent field is replaced by
//! its documented default — "NA" for names and positions, "None" for a
//! player's team, the empty string for a player's status, 0 for numbers.

use vstd::prelude::*;

use crate::types::{League, Player, Roster, State, User};

verus! {

/// The league object of the `/league/{id}` endpoint.
pub struct LeaguePayload {
    pub league_id: String,
    pub name: Option<String>,
    pub avatar: Option<String>,
}

/// One roster object of the `/league/{id}/rosters` endpoint.
pub struct RosterPayload {
    pub owner_id: String,
    pub league_id: String,
    pub wins: Option<i64>,
    pub losses: Option<i64>,
    pub ties: Option<i64>,
    pub fpts: Option<i64>,
    pub fpts_decimal: Option<i64>,
    pub fpts_against: Option<u64>,
    pub fpts_against_decimal: Option<u64>,
    pub roster_id: Option<u64>,
    pub players: Vec<String>,
    pub starters: Vec<String>,
}

/// One user object of the `/league/{id}/users` endpoint.
pub struct UserPayload {
    pub user_id: String,
    pub display_name: Option<String>,
    pub avatar: Option<String>,
}

/// One entry of the `/players/nfl` catalog.
pub struct PlayerPayload {
    pub id: String,
    pub first_name: Option<String>,
    pub last_name: Option<String>,
    pub team: Option<String>,
    pub position: Option<String>,
    pub status: Option<String>,
}

/// The `/state/nfl` object. The season fields arrive as decimal strings
/// upstream; a caller hands them over already parsed, with `None` standing
/// both for an absent field and for one that did not parse.
pub struct StatePayload {
    pub season: Option<i32>,
    pub week: Option<u64>,
    pub league_season: Option<i32>,
    pub display_week: Option<u64>,
    pub season_type: Option<String>,
}

/// One matchup object of the `/league/{id}/matchups/{week}` endpoint.
/// `matchup_id` groups the two rosters that play each other; `roster_id` is
/// this roster's seat number; `players_points` lists the per-player scores.
pub struct MatchupPayload {
    pub matchup_id: u64,
    pub roster_id: u64,
    pub points: i64,
    pub players_points: Vec<(String, i64)>,
}

/// A possibly absent string, with its default.
pub open spec fn str_or(o: Option<String>, d: Seq<char>) -> Seq<char> {
    match o {
        Some(s) => s@,
        None => d,
    }
}

/// A possibly absent signed number, defaulting to 0.
pub open spec fn i64_or_zero(o: Option<i64>) -> int {
    match o {
        Some(v) => v as int,
        None => 0,
    }
}

/// A possibly absent unsigned number, defaulting to 0.
pub open spec fn u64_or_zero(o: Option<u64>) -> int {
    match o {
        Some(v) => v as int,
        None => 0,
    }
}

/// A possibly absent parsed number, defaulting to 0.
pub open spec fn i32_or_zero(o: Option<i32>) -> int {
    match o {
        Some(v) => v as int,
        None => 0,
    }
}

/// Decode a league payload: absent name and avatar become "NA".
pub fn decode_league(p: LeaguePayload) -> (l: League)
    ensures
        l.id@ == p.league_id@,
        l.name@ == str_or(p.name, "NA"@),
        l.avatar@ == str_or(p.avatar, "NA"@),
{
    League {
        id: p.league_id,
        name: match p.name {
            Some(s) => s,
            None => "NA".to_owned(),
        },
        avatar: match p.avatar {
            Some(s) => s,
            None => "NA".to_owned(),
        },
    }
}

/// Decode a roster payload: every absent counter becomes 0. The numeric
/// fields must fit the store's 32-bit columns.
pub fn decode_roster(p: &RosterPayload) -> (r: Roster)
    requires
        i32::MIN <= i64_or_zero(p.wins) <= i32::MAX,
        i32::MIN <= i64_or_zero(p.losses) <= i32::MAX,
        i32::MIN <= i64_or_zero(p.ties) <= i32::MAX,
        i32::MIN <= i64_or_zero(p.fpts) <= i32::MAX,
        i32::MIN <= i64_or_zero(p.fpts_decimal) <= i32::MAX,
        u64_or_zero(p.fpts_against) <= i32::MAX,
        u64_or_zero(p.fpts_against_decimal) <= i32::MAX,
        u64_or_zero(p.roster_id) <= i32::MAX,
    ensures
        r.user_id@ == p.owner_id@,
        r.league_id@ == p.league_id@,
        r.wins == i64_or_zero(p.wins),
        r.losses == i64_or_zero(p.losses),
        r.ties == i64_or_zero(p.ties),
        r.fpts == i64_or_zero(p.fpts),
        r.fpts_decimal == i64_or_zero(p.fpts_decimal),
        r.fpts_against == u64_or_zero(p.fpts_against),
        r.fpts_against_decimal == u64_or_zero(p.fpts_against_decimal),
        r.roster_id == u64_or_zero(p.roster_id),
{
    Roster {
        user_id: p.owner_id.clone(),
        league_id: p.league_id.clone(),
        wins: match p.wins {
            Some(v) => v as i32,
            None => 0,
        },
        losses: match p.losses {
            Some(v) => v as i32,
            None => 0,
        },
        ties: match p.ties {
            Some(v) => v as i32,
            None => 0,
        },
        fpts: match p.fpts {
            Some(v) => v as i32,
            None => 0,
        },
        fpts_decimal: match p.fpts_decimal {
            Some(v) => v as i32,
            None => 0,
        },
        fpts_against: match p.fpts_against {
            Some(v) => v as i32,
            None => 0,
        },
        fpts_against_decimal: match p.fpts_against_decimal {
            Some(v) => v as i32,
            None => 0,
        },
        roster_id: match p.roster_id {
            Some(v) => v as i32,
            None => 0,
        },
    }
}

/// Decode a user payload: absent display name and avatar become "NA".
pub fn decode_user(p: UserPayload) -> (u: User)
    ensures
        u.id@ == p.user_id@,
        u.name@ == str_or(p.display_name, "NA"@),
        u.avatar@ == str_or(p.avatar, "NA"@),
{
    User {
        id: p.user_id,
        name: match p.display_name {
            Some(s) => s,
            None => "NA".to_owned(),
        },
        avatar: match p.avatar {
            Some(s) => s,
            None => "NA".to_owned(),
        },
    }
}

/// Decode a player catalog entry: absent names and position become "NA",
/// an absent team "None", an absent status the empty string. The catalog
/// carries no weekly data, so the display fields start at 0.
pub fn decode_player(p: PlayerPayload) -> (r: Player)
    ensures
        r.id@ == p.id@,
        r.first_name@ == str_or(p.first_name, "NA"@),
        r.last_name@ == str_or(p.last_name, "NA"@),
        r.team@ == str_or(p.team, "None"@),
        r.position@ == str_or(p.position, "NA"@),
        r.status@ == str_or(p.status, ""@),
        r.starter == 0,
        r.points == 0,
{
    Player {
        id: p.id,
        first_name: match p.first_name {
            Some(s) => s,
            None => "NA".to_owned(),
        },
        last_name: match p.last_name {
            Some(s) => s,
            None => "NA".to_owned(),
        },
        team: match p.team {
            Some(s) => s,
            None => "None".to_owned(),
        },
        position: match p.position {
            Some(s) => s,
            None => "NA".to_owned(),
        },
        status: match p.status {
            Some(s) => s,
            None => "".to_owned(),
        },
        starter: 0,
        points: 0,
    }
}

/// Decode a season-state payload: absent or unparsed numbers become 0, an
/// absent season type "NA". The week counters must fit the store's 32-bit
/// columns.
pub fn decode_state(p: StatePayload) -> (s: State)
    requires
        u64_or_zero(p.week) <= i32::MAX,
        u64_or_zero(p.display_week) <= i32::MAX,
    ensures
        s.season == i32_or_zero(p.season),
        s.week == u64_or_zero(p.week),
        s.league_season == i32_or_zero(p.league_season),
        s.display_week == u64_or_zero(p.display_week),
        s.season_type@ == str_or(p.season_type, "NA"@),
{
    State {
        season: match p.season {
            Some(v) => v,
            None => 0,
        },
        week: match p.week {
            Some(v) => v as i32,
            None => 0,
        },
        league_season: match p.league_season {
            Some(v) => v,
            None => 0,
        },
        display_week: match p.display_week {
            Some(v) => v as i32,
            None => 0,
        },
        season_type: match p.season_type {
            Some(s) => s,
            None => "NA".to_owned(),
        },
    }
}

} // verus!
