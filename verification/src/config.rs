//! The bot's game settings.
use vstd::prelude::*;
use crate::role::Role;

verus! {

/// Largest number of players a game can have.
pub const MAX_GAME_PLAYERS: usize = 24;

/// Recruitment time used when none is configured.
pub const DEFAULT_RECRUITMENT_SECONDS: u64 = 60;

/// Settings of the mafia game, as stored in the configuration file.
pub struct BotConfig {
    pub game_enabled: bool,
    pub participant_role: String,
    pub manager_role: String,
    pub default_mafia_count: u32,
    pub default_doctor_count: u32,
    pub default_police_count: u32,
    pub default_joker_count: u32,
    pub max_player_count: u32,
    pub recruitment_seconds: u64,
    pub night_seconds: u64,
    pub discussion_seconds: u64,
    pub vote_seconds: u64,
    pub chat_slowmode_seconds: u64,
    pub reveal_death_roles: bool,
    pub reveal_public_police_status: bool,
    pub reveal_morning_mafia_count: bool,
    pub show_confirmation_vote_counts: bool,
    pub citizen_special_count: u32,
    pub mafia_special_count: u32,
    pub neutral_special_count: u32,
    pub enable_detective: bool,
    pub enable_inspector: bool,
    pub enable_graverobber: bool,
    pub enable_spy: bool,
    pub enable_contractor: bool,
    pub enable_fraudster: bool,
    pub enable_witch: bool,
    pub enable_scientist: bool,
    pub enable_madam: bool,
    pub enable_godfather: bool,
    pub enable_joker: bool,
    pub enable_politician: bool,
    pub enable_judge: bool,
    pub enable_reporter: bool,
    pub enable_hacker: bool,
    pub enable_terrorist: bool,
    pub enable_lover: bool,
    pub enable_civil_servant: bool,
    pub enable_paparazzi: bool,
    pub enable_shaman: bool,
    pub enable_priest: bool,
    pub enable_soldier: bool,
    pub enable_nurse: bool,
    pub enable_gangster: bool,
    pub enable_prophet: bool,
    pub enable_psychologist: bool,
    pub enable_hypnotist: bool,
    pub enable_mercenary: bool,
    pub enable_thief: bool,
    pub enable_cult_team: bool,
    pub use_agent: bool,
    pub use_vigilante: bool,
    pub anonymous_mode: bool,
    pub anonymous_name_mode: String,
    pub blacklist_user_ids: Vec<u64>,
}

/// Whether a special role may be drawn under the configuration; roles without
/// a switch are always allowed.
pub open spec fn special_enabled(config: &BotConfig, role: Role) -> bool {
    match role {
        Role::Inspector => config.enable_inspector,
        Role::Detective => config.enable_detective,
        Role::Shaman => config.enable_shaman,
        Role::Graverobber => config.enable_graverobber,
        Role::Spy => config.enable_spy,
        Role::Contractor => config.enable_contractor,
        Role::Fraudster => config.enable_fraudster,
        Role::Witch => config.enable_witch,
        Role::Scientist => config.enable_scientist,
        Role::Madam => config.enable_madam,
        Role::Godfather => config.enable_godfather,
        Role::Joker => config.enable_joker,
        Role::Politician => config.enable_politician,
        Role::Judge => config.enable_judge,
        Role::Reporter => config.enable_reporter,
        Role::Hacker => config.enable_hacker,
        Role::Terrorist => config.enable_terrorist,
        Role::Lover => config.enable_lover,
        Role::CivilServant => config.enable_civil_servant,
        Role::Paparazzi => config.enable_paparazzi,
        Role::Priest => config.enable_priest,
        Role::Soldier => config.enable_soldier,
        Role::Nurse => config.enable_nurse,
        Role::Gangster => config.enable_gangster,
        Role::Prophet => config.enable_prophet,
        Role::Psychologist => config.enable_psychologist,
        Role::Hypnotist => config.enable_hypnotist,
        Role::Mercenary => config.enable_mercenary,
        Role::Thief => config.enable_thief,
        _ => true,
    }
}

/// Whether a special role may be drawn under the configuration.
pub fn is_special_enabled(config: &BotConfig, role: Role) -> (b: bool)
    ensures
        b == special_enabled(config, role),
{
    match role {
        Role::Inspector => config.enable_inspector,
        Role::Detective => config.enable_detective,
        Role::Shaman => config.enable_shaman,
        Role::Graverobber => config.enable_graverobber,
        Role::Spy => config.enable_spy,
        Role::Contractor => config.enable_contractor,
        Role::Fraudster => config.enable_fraudster,
        Role::Witch => config.enable_witch,
        Role::Scientist => config.enable_scientist,
        Role::Madam => config.enable_madam,
        Role::Godfather => config.enable_godfather,
        Role::Joker => config.enable_joker,
        Role::Politician => config.enable_politician,
        Role::Judge => config.enable_judge,
        Role::Reporter => config.enable_reporter,
        Role::Hacker => config.enable_hacker,
        Role::Terrorist => config.enable_terrorist,
        Role::Lover => config.enable_lover,
        Role::CivilServant => config.enable_civil_servant,
        Role::Paparazzi => config.enable_paparazzi,
        Role::Priest => config.enable_priest,
        Role::Soldier => config.enable_soldier,
        Role::Nurse => config.enable_nurse,
        Role::Gangster => config.enable_gangster,
        Role::Prophet => config.enable_prophet,
        Role::Psychologist => config.enable_psychologist,
        Role::Hypnotist => config.enable_hypnotist,
        Role::Mercenary => config.enable_mercenary,
        Role::Thief => config.enable_thief,
        _ => true,
    }
}

/// Default of the boolean switches that are on unless configured.
pub fn default_true() -> (b: bool)
    ensures
        b,
{
    true
}

/// Default number of jokers.
pub fn default_joker_count() -> (n: u32)
    ensures
        n == 1,
{
    1
}

/// Default length of the day discussion.
pub fn default_discussion_seconds() -> (n: u64)
    ensures
        n == 60,
{
    60
}

/// Default chat slow mode.
pub fn default_chat_slowmode_seconds() -> (n: u64)
    ensures
        n == 3,
{
    3
}

/// Default number of neutral specials.
pub fn default_neutral_special_count() -> (n: u32)
    ensures
        n == 1,
{
    1
}

/// Default way of naming anonymous players.
pub fn default_anonymous_name_mode() -> (s: String)
    ensures
        s@ == "animal"@,
{
    String::from_str("animal")
}

/// Whether the user is barred from playing (`is_blacklisted`).
pub fn is_blacklisted(config: &BotConfig, user_id: u64) -> (b: bool)
    ensures
        b == config.blacklist_user_ids@.contains(user_id),
{
    let mut i: usize = 0;
    while i < config.blacklist_user_ids.len()
        invariant
            i <= config.blacklist_user_ids@.len(),
            forall|k: int| 0 <= k < i ==> config.blacklist_user_ids@[k] != user_id,
        decreases config.blacklist_user_ids@.len() - i,
    {
        if config.blacklist_user_ids[i] == user_id {
            return true;
        }
        i = i + 1;
    }
    false
}

/// The player limit in effect: the configured one, capped at the maximum,
/// or the maximum when none is configured.
pub open spec fn max_players_spec(config: &BotConfig) -> nat {
    if config.max_player_count == 0 {
        MAX_GAME_PLAYERS as nat
    } else if (config.max_player_count as nat) < MAX_GAME_PLAYERS as nat {
        config.max_player_count as nat
    } else {
        MAX_GAME_PLAYERS as nat
    }
}

/// The player limit in effect (`effective_max_player_count`).
pub fn effective_max_player_count(config: &BotConfig) -> (n: usize)
    ensures
        n == max_players_spec(config),
        1 <= n <= MAX_GAME_PLAYERS,
{
    if config.max_player_count == 0 {
        MAX_GAME_PLAYERS
    } else if (config.max_player_count as usize) < MAX_GAME_PLAYERS {
        config.max_player_count as usize
    } else {
        MAX_GAME_PLAYERS
    }
}

/// The recruitment time in effect: the configured one, or the default when zero.
pub open spec fn recruitment_seconds_spec(config: &BotConfig) -> u64 {
    if config.recruitment_seconds == 0 { DEFAULT_RECRUITMENT_SECONDS } else { config.recruitment_seconds }
}

impl BotConfig {
    /// The recruitment time in effect.
    pub fn effective_recruitment_seconds(&self) -> (n: u64)
        ensures
            n == recruitment_seconds_spec(self),
    {
        if self.recruitment_seconds == 0 { DEFAULT_RECRUITMENT_SECONDS } else { self.recruitment_seconds }
    }
}

} // verus!
