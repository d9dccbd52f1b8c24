//! Decisions of the manager commands that change the game settings: which
//! values change, when a change is refused (and then nothing changes), and
//! the reply that is shown.
use vstd::prelude::*;
use vstd::relations::{total_ordering, sorted_by, reflexive, antisymmetric, transitive, strongly_connected};
use vstd::seq_lib::{lemma_multiset_commutative, lemma_sorted_unique};
use crate::config::{BotConfig, MAX_GAME_PLAYERS, is_blacklisted, max_players_spec, effective_max_player_count};
use crate::counts::{count_error, minimum_players, minimum_player_count, mafia_team_roles,
    selected_role_counts, investigation_candidates};
use crate::role::{Role, citizen_special_pool};
use crate::role_map::{count_of, group_sum, all_roles};
use crate::selection::{choose_special_roles, special_draw, roles_result, assignable};
use crate::settings::{settings_text, current_settings_text};
use crate::slots::{first_fit, law_first_fit_complete};
use crate::start::{line_up, too_small, lemma_len_le_seats, lemma_count_bound, lemma_group_sum_bound, lemma_line_up};
use crate::text::{dec, push_dec, join, views, join_strings};

verus! {

broadcast use vstd::seq_lib::group_to_multiset_ensures, vstd::multiset::group_multiset_properties;

/// The value of an optional change: the new value when one is given, else the old one.
pub open spec fn changed<T>(change: Option<T>, current: T) -> T {
    match change {
        Some(v) => v,
        None => current,
    }
}

/// A role switch stored as a head count: one when on, none when off.
pub open spec fn switch_count(on: bool) -> u32 {
    if on { 1 } else { 0 }
}

/// The options of the settings command (`configure_game`); `None` leaves a
/// value as it is.
#[derive(Clone, Copy, Default)]
pub struct GameSettingsChanges {
    pub mafia: Option<u32>,
    pub doctor: Option<bool>,
    pub police: Option<bool>,
    pub citizen_special: Option<u32>,
    pub mafia_special: Option<u32>,
    pub neutral_special: Option<u32>,
    pub slowmode: Option<u64>,
    pub death_role_reveal: Option<bool>,
    pub police_status_reveal: Option<bool>,
    pub mafia_count_reveal: Option<bool>,
    pub detective: Option<bool>,
    pub inspector: Option<bool>,
    pub shaman: Option<bool>,
    pub graverobber: Option<bool>,
    pub spy: Option<bool>,
    pub contractor: Option<bool>,
    pub witch: Option<bool>,
    pub scientist: Option<bool>,
    pub godfather: Option<bool>,
    pub joker: Option<bool>,
    pub politician: Option<bool>,
    pub judge: Option<bool>,
    pub reporter: Option<bool>,
    pub hacker: Option<bool>,
    pub terrorist: Option<bool>,
}

/// The configuration after the settings command's changes are applied.
pub open spec fn with_game_settings(c: BotConfig, ch: GameSettingsChanges) -> BotConfig {
    BotConfig {
        default_mafia_count: changed(ch.mafia, c.default_mafia_count),
        default_doctor_count: match ch.doctor { Some(b) => switch_count(b), None => c.default_doctor_count },
        default_police_count: match ch.police { Some(b) => switch_count(b), None => c.default_police_count },
        citizen_special_count: changed(ch.citizen_special, c.citizen_special_count),
        mafia_special_count: changed(ch.mafia_special, c.mafia_special_count),
        neutral_special_count: changed(ch.neutral_special, c.neutral_special_count),
        chat_slowmode_seconds: changed(ch.slowmode, c.chat_slowmode_seconds),
        reveal_death_roles: changed(ch.death_role_reveal, c.reveal_death_roles),
        reveal_public_police_status: changed(ch.police_status_reveal, c.reveal_public_police_status),
        reveal_morning_mafia_count: changed(ch.mafia_count_reveal, c.reveal_morning_mafia_count),
        enable_detective: changed(ch.detective, c.enable_detective),
        enable_inspector: changed(ch.inspector, c.enable_inspector),
        enable_shaman: changed(ch.shaman, c.enable_shaman),
        enable_graverobber: changed(ch.graverobber, c.enable_graverobber),
        enable_spy: changed(ch.spy, c.enable_spy),
        enable_contractor: changed(ch.contractor, c.enable_contractor),
        enable_witch: changed(ch.witch, c.enable_witch),
        enable_scientist: changed(ch.scientist, c.enable_scientist),
        enable_godfather: changed(ch.godfather, c.enable_godfather),
        enable_joker: changed(ch.joker, c.enable_joker),
        enable_politician: changed(ch.politician, c.enable_politician),
        enable_judge: changed(ch.judge, c.enable_judge),
        enable_reporter: changed(ch.reporter, c.enable_reporter),
        enable_hacker: changed(ch.hacker, c.enable_hacker),
        enable_terrorist: changed(ch.terrorist, c.enable_terrorist),
        ..c
    }
}

/// The stored values that the settings command may change, kept to be put back.
#[derive(Clone, Copy)]
struct StoredGameSettings {
    mafia: u32,
    doctor: u32,
    police: u32,
    citizen_special: u32,
    mafia_special: u32,
    neutral_special: u32,
    slowmode: u64,
    death_role_reveal: bool,
    police_status_reveal: bool,
    mafia_count_reveal: bool,
    detective: bool,
    inspector: bool,
    shaman: bool,
    graverobber: bool,
    spy: bool,
    contractor: bool,
    witch: bool,
    scientist: bool,
    godfather: bool,
    joker: bool,
    politician: bool,
    judge: bool,
    reporter: bool,
    hacker: bool,
    terrorist: bool,
}

/// The values of `c` that the settings command may change.
spec fn stored_of(c: BotConfig) -> StoredGameSettings {
    StoredGameSettings {
        mafia: c.default_mafia_count,
        doctor: c.default_doctor_count,
        police: c.default_police_count,
        citizen_special: c.citizen_special_count,
        mafia_special: c.mafia_special_count,
        neutral_special: c.neutral_special_count,
        slowmode: c.chat_slowmode_seconds,
        death_role_reveal: c.reveal_death_roles,
        police_status_reveal: c.reveal_public_police_status,
        mafia_count_reveal: c.reveal_morning_mafia_count,
        detective: c.enable_detective,
        inspector: c.enable_inspector,
        shaman: c.enable_shaman,
        graverobber: c.enable_graverobber,
        spy: c.enable_spy,
        contractor: c.enable_contractor,
        witch: c.enable_witch,
        scientist: c.enable_scientist,
        godfather: c.enable_godfather,
        joker: c.enable_joker,
        politician: c.enable_politician,
        judge: c.enable_judge,
        reporter: c.enable_reporter,
        hacker: c.enable_hacker,
        terrorist: c.enable_terrorist,
    }
}

/// `c` with the settings command's values taken from `s`.
spec fn with_stored(c: BotConfig, s: StoredGameSettings) -> BotConfig {
    BotConfig {
        default_mafia_count: s.mafia,
        default_doctor_count: s.doctor,
        default_police_count: s.police,
        citizen_special_count: s.citizen_special,
        mafia_special_count: s.mafia_special,
        neutral_special_count: s.neutral_special,
        chat_slowmode_seconds: s.slowmode,
        reveal_death_roles: s.death_role_reveal,
        reveal_public_police_status: s.police_status_reveal,
        reveal_morning_mafia_count: s.mafia_count_reveal,
        enable_detective: s.detective,
        enable_inspector: s.inspector,
        enable_shaman: s.shaman,
        enable_graverobber: s.graverobber,
        enable_spy: s.spy,
        enable_contractor: s.contractor,
        enable_witch: s.witch,
        enable_scientist: s.scientist,
        enable_godfather: s.godfather,
        enable_joker: s.joker,
        enable_politician: s.politician,
        enable_judge: s.judge,
        enable_reporter: s.reporter,
        enable_hacker: s.hacker,
        enable_terrorist: s.terrorist,
        ..c
    }
}

/// Reads the values that the settings command may change.
fn read_stored(config: &BotConfig) -> (s: StoredGameSettings)
    ensures
        s == stored_of(*config),
{
    StoredGameSettings {
        mafia: config.default_mafia_count,
        doctor: config.default_doctor_count,
        police: config.default_police_count,
        citizen_special: config.citizen_special_count,
        mafia_special: config.mafia_special_count,
        neutral_special: config.neutral_special_count,
        slowmode: config.chat_slowmode_seconds,
        death_role_reveal: config.reveal_death_roles,
        police_status_reveal: config.reveal_public_police_status,
        mafia_count_reveal: config.reveal_morning_mafia_count,
        detective: config.enable_detective,
        inspector: config.enable_inspector,
        shaman: config.enable_shaman,
        graverobber: config.enable_graverobber,
        spy: config.enable_spy,
        contractor: config.enable_contractor,
        witch: config.enable_witch,
        scientist: config.enable_scientist,
        godfather: config.enable_godfather,
        joker: config.enable_joker,
        politician: config.enable_politician,
        judge: config.enable_judge,
        reporter: config.enable_reporter,
        hacker: config.enable_hacker,
        terrorist: config.enable_terrorist,
    }
}

/// Writes back values that the settings command may change.
fn put_back(config: &mut BotConfig, s: StoredGameSettings)
    ensures
        *final(config) == with_stored(*old(config), s),
{
    config.default_mafia_count = s.mafia;
    config.default_doctor_count = s.doctor;
    config.default_police_count = s.police;
    config.citizen_special_count = s.citizen_special;
    config.mafia_special_count = s.mafia_special;
    config.neutral_special_count = s.neutral_special;
    config.chat_slowmode_seconds = s.slowmode;
    config.reveal_death_roles = s.death_role_reveal;
    config.reveal_public_police_status = s.police_status_reveal;
    config.reveal_morning_mafia_count = s.mafia_count_reveal;
    config.enable_detective = s.detective;
    config.enable_inspector = s.inspector;
    config.enable_shaman = s.shaman;
    config.enable_graverobber = s.graverobber;
    config.enable_spy = s.spy;
    config.enable_contractor = s.contractor;
    config.enable_witch = s.witch;
    config.enable_scientist = s.scientist;
    config.enable_godfather = s.godfather;
    config.enable_joker = s.joker;
    config.enable_politician = s.politician;
    config.enable_judge = s.judge;
    config.enable_reporter = s.reporter;
    config.enable_hacker = s.hacker;
    config.enable_terrorist = s.terrorist;
}

/// The value of an optional count change.
fn pick_u32(change: Option<u32>, current: u32) -> (v: u32)
    ensures
        v == changed(change, current),
{
    match change {
        Some(v) => v,
        None => current,
    }
}

/// The value of an optional seconds change.
fn pick_u64(change: Option<u64>, current: u64) -> (v: u64)
    ensures
        v == changed(change, current),
{
    match change {
        Some(v) => v,
        None => current,
    }
}

/// The value of an optional text change.
fn pick_text(change: Option<String>, current: String) -> (v: String)
    ensures
        v == changed(change, current),
{
    match change {
        Some(v) => v,
        None => current,
    }
}

/// The value of an optional switch change.
fn pick_bool(change: Option<bool>, current: bool) -> (v: bool)
    ensures
        v == changed(change, current),
{
    match change {
        Some(v) => v,
        None => current,
    }
}

/// The head count of an optional role switch.
fn pick_count(change: Option<bool>, current: u32) -> (v: u32)
    ensures
        v == (match change { Some(b) => switch_count(b), None => current }),
{
    match change {
        Some(true) => 1,
        Some(false) => 0,
        None => current,
    }
}

/// The values after the settings command's changes.
spec fn updated_stored(s: StoredGameSettings, ch: GameSettingsChanges) -> StoredGameSettings {
    StoredGameSettings {
        mafia: changed(ch.mafia, s.mafia),
        doctor: match ch.doctor { Some(b) => switch_count(b), None => s.doctor },
        police: match ch.police { Some(b) => switch_count(b), None => s.police },
        citizen_special: changed(ch.citizen_special, s.citizen_special),
        mafia_special: changed(ch.mafia_special, s.mafia_special),
        neutral_special: changed(ch.neutral_special, s.neutral_special),
        slowmode: changed(ch.slowmode, s.slowmode),
        death_role_reveal: changed(ch.death_role_reveal, s.death_role_reveal),
        police_status_reveal: changed(ch.police_status_reveal, s.police_status_reveal),
        mafia_count_reveal: changed(ch.mafia_count_reveal, s.mafia_count_reveal),
        detective: changed(ch.detective, s.detective),
        inspector: changed(ch.inspector, s.inspector),
        shaman: changed(ch.shaman, s.shaman),
        graverobber: changed(ch.graverobber, s.graverobber),
        spy: changed(ch.spy, s.spy),
        contractor: changed(ch.contractor, s.contractor),
        witch: changed(ch.witch, s.witch),
        scientist: changed(ch.scientist, s.scientist),
        godfather: changed(ch.godfather, s.godfather),
        joker: changed(ch.joker, s.joker),
        politician: changed(ch.politician, s.politician),
        judge: changed(ch.judge, s.judge),
        reporter: changed(ch.reporter, s.reporter),
        hacker: changed(ch.hacker, s.hacker),
        terrorist: changed(ch.terrorist, s.terrorist),
    }
}

/// Applies the settings command's changes to the stored values.
fn update_stored(s: StoredGameSettings, changes: &GameSettingsChanges) -> (r: StoredGameSettings)
    ensures
        r == updated_stored(s, *changes),
{
    StoredGameSettings {
        mafia: pick_u32(changes.mafia, s.mafia),
        doctor: pick_count(changes.doctor, s.doctor),
        police: pick_count(changes.police, s.police),
        citizen_special: pick_u32(changes.citizen_special, s.citizen_special),
        mafia_special: pick_u32(changes.mafia_special, s.mafia_special),
        neutral_special: pick_u32(changes.neutral_special, s.neutral_special),
        slowmode: pick_u64(changes.slowmode, s.slowmode),
        death_role_reveal: pick_bool(changes.death_role_reveal, s.death_role_reveal),
        police_status_reveal: pick_bool(changes.police_status_reveal, s.police_status_reveal),
        mafia_count_reveal: pick_bool(changes.mafia_count_reveal, s.mafia_count_reveal),
        detective: pick_bool(changes.detective, s.detective),
        inspector: pick_bool(changes.inspector, s.inspector),
        shaman: pick_bool(changes.shaman, s.shaman),
        graverobber: pick_bool(changes.graverobber, s.graverobber),
        spy: pick_bool(changes.spy, s.spy),
        contractor: pick_bool(changes.contractor, s.contractor),
        witch: pick_bool(changes.witch, s.witch),
        scientist: pick_bool(changes.scientist, s.scientist),
        godfather: pick_bool(changes.godfather, s.godfather),
        joker: pick_bool(changes.joker, s.joker),
        politician: pick_bool(changes.politician, s.politician),
        judge: pick_bool(changes.judge, s.judge),
        reporter: pick_bool(changes.reporter, s.reporter),
        hacker: pick_bool(changes.hacker, s.hacker),
        terrorist: pick_bool(changes.terrorist, s.terrorist),
    }
}

/// Applying the changes is writing back the changed stored values.
proof fn lemma_apply_by_stored(c: BotConfig, ch: GameSettingsChanges)
    ensures
        with_game_settings(c, ch) == with_stored(c, updated_stored(stored_of(c), ch)),
{
}

/// Applies the settings command's changes.
fn apply_game_settings(config: &mut BotConfig, changes: &GameSettingsChanges)
    ensures
        *final(config) == with_game_settings(*old(config), *changes),
{
    let s = update_stored(read_stored(config), changes);
    put_back(config, s);
    proof {
        lemma_apply_by_stored(*old(config), *changes);
    }
}

/// Writing back the values read before a change undoes the change.
proof fn lemma_put_back(c: BotConfig, ch: GameSettingsChanges)
    ensures
        with_stored(with_game_settings(c, ch), stored_of(c)) == c,
{
}

/// A text result over character sequences.
pub open spec fn text_result(r: Result<String, String>) -> Result<Seq<char>, Seq<char>> {
    match r {
        Ok(t) => Ok(t@),
        Err(e) => Err(e@),
    }
}

/// The refusal of a mafia count below one.
pub open spec fn mafia_count_error() -> Seq<char> {
    "마피아는 최소 1명이어야 합니다."@
}

/// The reply of an accepted settings change.
pub open spec fn settings_saved(config: &BotConfig) -> Seq<char> {
    settings_text(config, "마피아 설정을 저장했습니다."@)
}

/// Whether a line-up drawn for the changed configuration can start a game
/// with an investigation role `inv`; `r` and `after` are the command's reply
/// and the configuration it leaves: a refusal leaves it as it was.
pub open spec fn line_up_checked(before: BotConfig, new: BotConfig, specials: Seq<Role>, inv: Role,
    r: Result<Seq<char>, Seq<char>>, after: BotConfig) -> bool
{
    let minimum = minimum_players(line_up(&new, specials, inv));
    let max = max_players_spec(&new);
    &&& investigation_candidates(&new).contains(inv)
    &&& if max < minimum {
        r == Err::<Seq<char>, Seq<char>>(too_small(minimum, max)) && after == before
    } else {
        r == Ok::<Seq<char>, Seq<char>>(settings_saved(&new)) && after == new
    }
}

/// What the settings command does for one random draw of special roles for
/// the changed configuration: a refused draw or line-up leaves the
/// configuration as it was; otherwise the changes stay.
pub open spec fn settings_outcome(before: BotConfig, changes: GameSettingsChanges,
    draw: Result<Seq<Role>, Seq<char>>, r: Result<Seq<char>, Seq<char>>, after: BotConfig) -> bool
{
    let new = with_game_settings(before, changes);
    &&& special_draw(&new, draw)
    &&& match draw {
        Err(e) => r == Err::<Seq<char>, Seq<char>>(e) && after == before,
        Ok(specials) => match count_error(&new, specials) {
            Some(e) => r == Err::<Seq<char>, Seq<char>>(e) && after == before,
            None => exists|inv: Role| #[trigger] line_up_checked(before, new, specials, inv, r, after),
        },
    }
}

/// A drawn line-up has at most `3 * u32::MAX` roles.
proof fn lemma_draw_len(config: &BotConfig, draw: Result<Seq<Role>, Seq<char>>, v: Seq<Role>)
    requires
        special_draw(config, draw),
        draw == Ok::<Seq<Role>, Seq<char>>(v),
    ensures
        v.len() <= 3 * (u32::MAX as int),
{
    let c = choose|c: Seq<Role>| {
        &&& #[trigger] c.to_multiset() == assignable(config, citizen_special_pool()).to_multiset()
        &&& c.len() == assignable(config, citizen_special_pool()).len()
        &&& match first_fit(c, config.citizen_special_count as nat) {
            None => draw == Err::<Seq<Role>, Seq<char>>("활성화된 시민 특수 역할로 설정한 인원 수를 구성할 수 없습니다. 연인은 2명으로 계산됩니다."@),
            Some(f) => match draw {
                Ok(v) => {
                    &&& config.mafia_special_count as nat <= assignable(config, crate::role::mafia_special_pool()).len()
                    &&& config.neutral_special_count as nat <= assignable(config, crate::role::neutral_special_pool()).len()
                    &&& v.len() == f.len() + config.mafia_special_count + config.neutral_special_count
                    &&& v.take(f.len() as int) == f
                    &&& v.subrange(f.len() as int, f.len() + config.mafia_special_count).to_multiset().subset_of(
                        assignable(config, crate::role::mafia_special_pool()).to_multiset())
                    &&& v.skip(f.len() + config.mafia_special_count).to_multiset().subset_of(
                        assignable(config, crate::role::neutral_special_pool()).to_multiset())
                },
                Err(e) => true,
            },
        }
    };
    let f = first_fit(c, config.citizen_special_count as nat)->Some_0;
    law_first_fit_complete(c, config.citizen_special_count as nat, f);
    lemma_len_le_seats(f);
}

/// The settings command (`configure_game`): a mafia count below one is
/// refused at once; otherwise the changes are applied and checked by drawing
/// a line-up as a game start would.  A draw or line-up that cannot start a
/// game is refused and the configuration is put back as it was; otherwise
/// the changes stay and the new settings are shown.  The draw is random, so
/// the contract speaks of some draw.  Sized for 64-bit targets.
pub fn configure_game(config: &mut BotConfig, changes: &GameSettingsChanges) -> (r: Result<String, String>)
    requires
        usize::MAX == u64::MAX,
    ensures
        changes.mafia == Some(0u32) ==> text_result(r) == Err::<Seq<char>, Seq<char>>(mafia_count_error())
            && *final(config) == *old(config),
        changes.mafia != Some(0u32) ==> exists|draw: Result<Seq<Role>, Seq<char>>|
            #[trigger] settings_outcome(*old(config), *changes, draw, text_result(r), *final(config)),
{
    if changes.mafia == Some(0u32) {
        return Err(String::from_str("마피아는 최소 1명이어야 합니다."));
    }
    let previous = read_stored(config);
    apply_game_settings(config, changes);
    proof {
        lemma_put_back(*old(config), *changes);
    }
    let drawn = choose_special_roles(config);
    let ghost draw = roles_result(drawn);
    let specials = match drawn {
        Ok(v) => v,
        Err(e) => {
            put_back(config, previous);
            let r: Result<String, String> = Err(e);
            assert(settings_outcome(*old(config), *changes, draw, text_result(r), *config));
            return r;
        },
    };
    proof {
        lemma_draw_len(config, draw, specials@);
    }
    let counted = selected_role_counts(config, specials.as_slice());
    let role_counts = match counted {
        Ok(m) => m,
        Err(e) => {
            put_back(config, previous);
            let r: Result<String, String> = Err(e);
            assert(settings_outcome(*old(config), *changes, draw, text_result(r), *config));
            return r;
        },
    };
    let ghost inv = choose|inv: Role| {
        &&& #[trigger] investigation_candidates(config).contains(inv)
        &&& match count_error(config, specials@) {
            Some(e) => counted matches Err(msg) && msg@ == e,
            None => counted matches Ok(m) && crate::counts::counts_match(m@, config, specials@, inv),
        }
    };
    let ghost bound: nat = (u32::MAX + 2 * specials@.len() + 1) as nat;
    proof {
        lemma_line_up(role_counts@, config, specials@, inv);
        assert forall|q: Role| #[trigger] count_of(role_counts@, q) <= bound by {
            lemma_count_bound(config, specials@, inv, q);
        }
        lemma_group_sum_bound(role_counts@, all_roles(), bound);
        lemma_group_sum_bound(role_counts@, mafia_team_roles(), bound);
        assert(all_roles().len() == 37);
        assert(mafia_team_roles().len() == 9);
        let total = all_roles().len();
        let mafia_len = mafia_team_roles().len();
        assert(total * bound <= usize::MAX && 2 * (mafia_len * bound) + 1 <= usize::MAX) by (nonlinear_arith)
            requires
                total == 37,
                mafia_len == 9,
                bound <= 7 * (u32::MAX as int) + 1,
                usize::MAX == u64::MAX,
        ;
    }
    let minimum = minimum_player_count(&role_counts);
    let max = effective_max_player_count(config);
    if max < minimum {
        let mut msg = String::from_str("현재 설정의 최소 시작 인원은 ");
        push_dec(&mut msg, minimum as u64);
        msg.append("명이라 최대 인원 ");
        push_dec(&mut msg, max as u64);
        msg.append("명으로 시작할 수 없습니다.");
        let ghost new = *config;
        put_back(config, previous);
        let r: Result<String, String> = Err(msg);
        assert(line_up_checked(*old(config), new, specials@, inv, text_result(r), *config));
        assert(settings_outcome(*old(config), *changes, draw, text_result(r), *config));
        return r;
    }
    let r: Result<String, String> = Ok(current_settings_text(config, "마피아 설정을 저장했습니다."));
    assert(line_up_checked(*old(config), *config, specials@, inv, text_result(r), *config));
    assert(settings_outcome(*old(config), *changes, draw, text_result(r), *config));
    r
}

/// The options of the extra-roles command (`configure_extra_roles`); `None`
/// leaves a switch as it is.
#[derive(Clone, Copy, Default)]
pub struct ExtraRoleChanges {
    pub nurse: Option<bool>,
    pub lover: Option<bool>,
    pub priest: Option<bool>,
    pub madam: Option<bool>,
    pub gangster: Option<bool>,
    pub prophet: Option<bool>,
    pub psychologist: Option<bool>,
    pub hypnotist: Option<bool>,
    pub mercenary: Option<bool>,
    pub thief: Option<bool>,
    pub soldier: Option<bool>,
    pub civil_servant: Option<bool>,
    pub paparazzi: Option<bool>,
    pub fraudster: Option<bool>,
    pub cult_team: Option<bool>,
}

/// The configuration after the extra-roles command's changes are applied.
pub open spec fn with_extra_roles(c: BotConfig, ch: ExtraRoleChanges) -> BotConfig {
    BotConfig {
        enable_nurse: changed(ch.nurse, c.enable_nurse),
        enable_lover: changed(ch.lover, c.enable_lover),
        enable_priest: changed(ch.priest, c.enable_priest),
        enable_madam: changed(ch.madam, c.enable_madam),
        enable_gangster: changed(ch.gangster, c.enable_gangster),
        enable_prophet: changed(ch.prophet, c.enable_prophet),
        enable_psychologist: changed(ch.psychologist, c.enable_psychologist),
        enable_hypnotist: changed(ch.hypnotist, c.enable_hypnotist),
        enable_mercenary: changed(ch.mercenary, c.enable_mercenary),
        enable_thief: changed(ch.thief, c.enable_thief),
        enable_soldier: changed(ch.soldier, c.enable_soldier),
        enable_civil_servant: changed(ch.civil_servant, c.enable_civil_servant),
        enable_paparazzi: changed(ch.paparazzi, c.enable_paparazzi),
        enable_fraudster: changed(ch.fraudster, c.enable_fraudster),
        enable_cult_team: changed(ch.cult_team, c.enable_cult_team),
        ..c
    }
}

/// The extra-role switches as stored.
#[derive(Clone, Copy)]
struct ExtraSwitches {
    nurse: bool,
    lover: bool,
    priest: bool,
    madam: bool,
    gangster: bool,
    prophet: bool,
    psychologist: bool,
    hypnotist: bool,
    mercenary: bool,
    thief: bool,
    soldier: bool,
    civil_servant: bool,
    paparazzi: bool,
    fraudster: bool,
    cult_team: bool,
}

/// `c` with the extra-role switches taken from `s`.
spec fn with_switches(c: BotConfig, s: ExtraSwitches) -> BotConfig {
    BotConfig {
        enable_nurse: s.nurse,
        enable_lover: s.lover,
        enable_priest: s.priest,
        enable_madam: s.madam,
        enable_gangster: s.gangster,
        enable_prophet: s.prophet,
        enable_psychologist: s.psychologist,
        enable_hypnotist: s.hypnotist,
        enable_mercenary: s.mercenary,
        enable_thief: s.thief,
        enable_soldier: s.soldier,
        enable_civil_servant: s.civil_servant,
        enable_paparazzi: s.paparazzi,
        enable_fraudster: s.fraudster,
        enable_cult_team: s.cult_team,
        ..c
    }
}

/// The extra-role switches after the extra-roles command's changes.
spec fn extra_switched(c: BotConfig, ch: ExtraRoleChanges) -> ExtraSwitches {
    ExtraSwitches {
        nurse: changed(ch.nurse, c.enable_nurse),
        lover: changed(ch.lover, c.enable_lover),
        priest: changed(ch.priest, c.enable_priest),
        madam: changed(ch.madam, c.enable_madam),
        gangster: changed(ch.gangster, c.enable_gangster),
        prophet: changed(ch.prophet, c.enable_prophet),
        psychologist: changed(ch.psychologist, c.enable_psychologist),
        hypnotist: changed(ch.hypnotist, c.enable_hypnotist),
        mercenary: changed(ch.mercenary, c.enable_mercenary),
        thief: changed(ch.thief, c.enable_thief),
        soldier: changed(ch.soldier, c.enable_soldier),
        civil_servant: changed(ch.civil_servant, c.enable_civil_servant),
        paparazzi: changed(ch.paparazzi, c.enable_paparazzi),
        fraudster: changed(ch.fraudster, c.enable_fraudster),
        cult_team: changed(ch.cult_team, c.enable_cult_team),
    }
}

/// Writing the changed switches is applying the extra-roles command.
proof fn lemma_switched(c: BotConfig, ch: ExtraRoleChanges)
    ensures
        with_switches(c, extra_switched(c, ch)) == with_extra_roles(c, ch),
{
    let a = with_switches(c, extra_switched(c, ch));
    let b = with_extra_roles(c, ch);
    assert(a.enable_nurse == b.enable_nurse);
    assert(a.enable_lover == b.enable_lover);
    assert(a.enable_priest == b.enable_priest);
    assert(a.enable_madam == b.enable_madam);
    assert(a.enable_gangster == b.enable_gangster);
    assert(a.enable_prophet == b.enable_prophet);
    assert(a.enable_psychologist == b.enable_psychologist);
    assert(a.enable_hypnotist == b.enable_hypnotist);
    assert(a.enable_mercenary == b.enable_mercenary);
    assert(a.enable_thief == b.enable_thief);
    assert(a.enable_soldier == b.enable_soldier);
    assert(a.enable_civil_servant == b.enable_civil_servant);
    assert(a.enable_paparazzi == b.enable_paparazzi);
    assert(a.enable_fraudster == b.enable_fraudster);
    assert(a.enable_cult_team == b.enable_cult_team);
}

/// The extra-role switches after the changes.
fn switched(config: &BotConfig, changes: &ExtraRoleChanges) -> (s: ExtraSwitches)
    ensures
        s == extra_switched(*config, *changes),
{
    ExtraSwitches {
        nurse: pick_bool(changes.nurse, config.enable_nurse),
        lover: pick_bool(changes.lover, config.enable_lover),
        priest: pick_bool(changes.priest, config.enable_priest),
        madam: pick_bool(changes.madam, config.enable_madam),
        gangster: pick_bool(changes.gangster, config.enable_gangster),
        prophet: pick_bool(changes.prophet, config.enable_prophet),
        psychologist: pick_bool(changes.psychologist, config.enable_psychologist),
        hypnotist: pick_bool(changes.hypnotist, config.enable_hypnotist),
        mercenary: pick_bool(changes.mercenary, config.enable_mercenary),
        thief: pick_bool(changes.thief, config.enable_thief),
        soldier: pick_bool(changes.soldier, config.enable_soldier),
        civil_servant: pick_bool(changes.civil_servant, config.enable_civil_servant),
        paparazzi: pick_bool(changes.paparazzi, config.enable_paparazzi),
        fraudster: pick_bool(changes.fraudster, config.enable_fraudster),
        cult_team: pick_bool(changes.cult_team, config.enable_cult_team),
    }
}

/// Writes the extra-role switches.
fn put_switches(config: &mut BotConfig, s: ExtraSwitches)
    ensures
        *final(config) == with_switches(*old(config), s),
{
    config.enable_nurse = s.nurse;
    config.enable_lover = s.lover;
    config.enable_priest = s.priest;
    config.enable_madam = s.madam;
    config.enable_gangster = s.gangster;
    config.enable_prophet = s.prophet;
    config.enable_psychologist = s.psychologist;
    config.enable_hypnotist = s.hypnotist;
    config.enable_mercenary = s.mercenary;
    config.enable_thief = s.thief;
    config.enable_soldier = s.soldier;
    config.enable_civil_servant = s.civil_servant;
    config.enable_paparazzi = s.paparazzi;
    config.enable_fraudster = s.fraudster;
    config.enable_cult_team = s.cult_team;
}

/// The extra-roles command (`configure_extra_roles`): switches the extra
/// roles that are given and shows the new settings.
pub fn configure_extra_roles(config: &mut BotConfig, changes: &ExtraRoleChanges) -> (s: String)
    ensures
        *final(config) == with_extra_roles(*old(config), *changes),
        s@ == settings_text(&*final(config), "마피아 추가 설정을 저장했습니다."@),
{
    let switches = switched(config, changes);
    put_switches(config, switches);
    proof {
        lemma_switched(*old(config), *changes);
    }
    current_settings_text(config, "마피아 추가 설정을 저장했습니다.")
}

/// The investigation command (`configure_investigation_role`): switches the
/// agent and the vigilante as candidates for the police slots and shows the
/// new settings.
pub fn configure_investigation_role(config: &mut BotConfig, agent: Option<bool>, vigilante: Option<bool>) -> (s: String)
    ensures
        *final(config) == (BotConfig {
            use_agent: changed(agent, old(config).use_agent),
            use_vigilante: changed(vigilante, old(config).use_vigilante),
            ..*old(config)
        }),
        s@ == settings_text(&*final(config), "마피아 수사 설정을 저장했습니다."@),
{
    config.use_agent = pick_bool(agent, config.use_agent);
    config.use_vigilante = pick_bool(vigilante, config.use_vigilante);
    current_settings_text(config, "마피아 수사 설정을 저장했습니다.")
}

/// The anonymous-chat command (`configure_anonymous_mode`): turns anonymous
/// chat on or off, stores the naming scheme when one is given, and shows the
/// new settings.
pub fn configure_anonymous_mode(config: &mut BotConfig, enabled: bool, name_mode: Option<String>) -> (s: String)
    ensures
        *final(config) == (BotConfig {
            anonymous_mode: enabled,
            anonymous_name_mode: changed(name_mode, old(config).anonymous_name_mode),
            ..*old(config)
        }),
        s@ == settings_text(&*final(config), "마피아 익명 설정을 저장했습니다."@),
{
    config.anonymous_mode = enabled;
    config.anonymous_name_mode = pick_text(name_mode, config.anonymous_name_mode.clone());
    current_settings_text(config, "마피아 익명 설정을 저장했습니다.")
}

/// The reply of the enable and disable commands.
pub open spec fn game_enabled_reply(enabled: bool) -> Seq<char> {
    if enabled {
        "마피아 게임을 활성화했습니다. 이제 새 게임을 시작할 수 있습니다."@
    } else {
        "마피아 게임을 비활성화했습니다. 새 게임을 시작할 수 없습니다."@
    }
}

/// The reply of the enable and disable commands.
fn game_enabled_text(enabled: bool) -> (s: &'static str)
    ensures
        s@ == game_enabled_reply(enabled),
{
    if enabled {
        "마피아 게임을 활성화했습니다. 이제 새 게임을 시작할 수 있습니다."
    } else {
        "마피아 게임을 비활성화했습니다. 새 게임을 시작할 수 없습니다."
    }
}

/// Allows or forbids new games (`set_game_enabled`) and gives the reply.
pub fn set_game_enabled(config: &mut BotConfig, enabled: bool) -> (s: &'static str)
    ensures
        *final(config) == (BotConfig { game_enabled: enabled, ..*old(config) }),
        s@ == game_enabled_reply(enabled),
{
    config.game_enabled = enabled;
    game_enabled_text(enabled)
}

/// Why the player-limit command refuses its options, if it does: nothing to
/// change, a limit above the largest game, or a recruitment time outside
/// `shortest..=longest` seconds.
pub open spec fn player_limit_refusal(max_players: Option<u32>, recruitment_seconds: Option<u64>,
    shortest: u64, longest: u64) -> Option<Seq<char>>
{
    if max_players is None && recruitment_seconds is None {
        Some("변경할 값을 하나 이상 입력하세요."@)
    } else if max_players matches Some(n) && n > MAX_GAME_PLAYERS {
        Some("최대 인원은 "@ + dec(MAX_GAME_PLAYERS as nat) + "명 이하로 설정해야 합니다."@)
    } else if recruitment_seconds matches Some(t) && !(shortest <= t && t <= longest) {
        Some("모집 시간은 "@ + dec(shortest as nat) + "~"@ + dec(longest as nat) + "초 사이여야 합니다."@)
    } else {
        None
    }
}

/// The player-limit command (`configure_player_limit`): checks the options
/// and, when they pass, stores the player limit (zero meaning the largest
/// game) and the recruitment time that are given and shows the new
/// settings; a refusal changes nothing.  `shortest..=longest` is the allowed
/// recruitment time in seconds.
pub fn configure_player_limit(config: &mut BotConfig, max_players: Option<u32>, recruitment_seconds: Option<u64>,
    shortest: u64, longest: u64) -> (r: Result<String, String>)
    ensures
        match player_limit_refusal(max_players, recruitment_seconds, shortest, longest) {
            Some(e) => text_result(r) == Err::<Seq<char>, Seq<char>>(e) && *final(config) == *old(config),
            None => {
                &&& *final(config) == (BotConfig {
                    max_player_count: changed(max_players, old(config).max_player_count),
                    recruitment_seconds: changed(recruitment_seconds, old(config).recruitment_seconds),
                    ..*old(config)
                })
                &&& text_result(r) == Ok::<Seq<char>, Seq<char>>(
                    settings_text(&*final(config), "마피아 인원 설정을 저장했습니다."@))
            },
        },
{
    if max_players.is_none() && recruitment_seconds.is_none() {
        return Err(String::from_str("변경할 값을 하나 이상 입력하세요."));
    }
    if let Some(n) = max_players {
        if n as usize > MAX_GAME_PLAYERS {
            let mut e = String::from_str("최대 인원은 ");
            push_dec(&mut e, MAX_GAME_PLAYERS as u64);
            e.append("명 이하로 설정해야 합니다.");
            return Err(e);
        }
    }
    if let Some(t) = recruitment_seconds {
        if !(shortest <= t && t <= longest) {
            let mut e = String::from_str("모집 시간은 ");
            push_dec(&mut e, shortest);
            e.append("~");
            push_dec(&mut e, longest);
            e.append("초 사이여야 합니다.");
            return Err(e);
        }
    }
    config.max_player_count = pick_u32(max_players, config.max_player_count);
    config.recruitment_seconds = pick_u64(recruitment_seconds, config.recruitment_seconds);
    Ok(current_settings_text(config, "마피아 인원 설정을 저장했습니다."))
}

/// Ascending order of user ids.
pub open spec fn ascending() -> spec_fn(u64, u64) -> bool {
    |a: u64, b: u64| a <= b
}

/// Ascending order is a total order.
proof fn lemma_ascending_total()
    ensures
        total_ordering(ascending()),
{
    assert(reflexive(ascending()));
    assert(antisymmetric(ascending()));
    assert(transitive(ascending()));
    assert(strongly_connected(ascending()));
}

/// Inserting an element anywhere adds it to the multiset.
proof fn lemma_insert_multiset(s: Seq<u64>, p: int, x: u64)
    requires
        0 <= p <= s.len(),
    ensures
        s.insert(p, x).to_multiset() == s.to_multiset().insert(x),
{
    let a = s.take(p);
    let b = s.skip(p);
    assert(s == a + b);
    assert(s.insert(p, x) == a.push(x) + b);
    lemma_multiset_commutative(a, b);
    lemma_multiset_commutative(a.push(x), b);
    assert(a.push(x).to_multiset() == a.to_multiset().insert(x));
    assert(a.to_multiset().insert(x).add(b.to_multiset()) =~= a.to_multiset().add(b.to_multiset()).insert(x));
}

/// The ids in ascending order, duplicates kept.
fn sorted_ids(ids: &Vec<u64>) -> (r: Vec<u64>)
    ensures
        r@ == ids@.sort_by(ascending()),
{
    let mut r: Vec<u64> = Vec::new();
    let mut i: usize = 0;
    assert(ids@.take(0) =~= Seq::<u64>::empty());
    assert(r@.to_multiset() =~= ids@.take(0).to_multiset());
    while i < ids.len()
        invariant
            i <= ids.len(),
            sorted_by(r@, ascending()),
            r@.to_multiset() == ids@.take(i as int).to_multiset(),
        decreases ids.len() - i,
    {
        let x = ids[i];
        let mut p: usize = 0;
        while p < r.len() && r[p] <= x
            invariant
                p <= r.len(),
                forall|k: int| 0 <= k < p ==> r@[k] <= x,
            decreases r.len() - p,
        {
            p = p + 1;
        }
        let ghost before = r@;
        proof {
            lemma_insert_multiset(before, p as int, x);
            assert(ids@.take(i + 1) == ids@.take(i as int).push(x));
        }
        r.insert(p, x);
        proof {
            assert forall|a: int, b: int| 0 <= a < b < r@.len() implies #[trigger] (ascending())(r@[a], r@[b]) by {
                if b < p {
                    assert((ascending())(before[a], before[b]));
                } else if a < p && b == p {
                } else if a < p {
                    assert((ascending())(before[a], before[b - 1]));
                } else if a == p {
                    assert(p < before.len());
                    assert(x < before[p as int]);
                    if b - 1 > p {
                        assert((ascending())(before[p as int], before[b - 1]));
                    }
                } else {
                    assert((ascending())(before[a - 1], before[b - 1]));
                }
            }
        }
        i = i + 1;
    }
    proof {
        assert(ids@.take(ids@.len() as int) == ids@);
        lemma_ascending_total();
        ids@.lemma_sort_by_ensures(ascending());
        lemma_sorted_unique(r@, ids@.sort_by(ascending()), ascending());
    }
    r
}

/// The ids other than `user_id`, in their order.
pub open spec fn without_id(ids: Seq<u64>, user_id: u64) -> Seq<u64>
    decreases ids.len(),
{
    if ids.len() == 0 {
        ids
    } else {
        let rest = without_id(ids.drop_last(), user_id);
        if ids.last() != user_id { rest.push(ids.last()) } else { rest }
    }
}

/// A configuration whose blacklist is `ids` and which is otherwise `c`.
pub open spec fn with_blacklist(c: BotConfig, ids: Vec<u64>) -> BotConfig {
    BotConfig { blacklist_user_ids: ids, ..c }
}

/// Puts a new blacklist in place.
fn replace_blacklist(config: &mut BotConfig, ids: Vec<u64>)
    ensures
        *final(config) == with_blacklist(*old(config), ids),
{
    config.blacklist_user_ids = ids;
}

/// The reply of the blacklist-add command.
pub open spec fn blacklist_add_reply(user_name: Seq<char>, added: bool) -> Seq<char> {
    if added {
        user_name + " 님을 블랙리스트에 추가했습니다. 이제 게임에 참가할 수 없습니다."@
    } else {
        user_name + " 님은 이미 블랙리스트에 있습니다."@
    }
}

/// The blacklist-add command (`add_to_blacklist`): a user not yet barred is
/// added and the list is put in ascending order; a barred user changes
/// nothing.  Gives the reply.
pub fn add_to_blacklist(config: &mut BotConfig, user_id: u64, user_name: &str) -> (s: String)
    ensures
        old(config).blacklist_user_ids@.contains(user_id) ==> *final(config) == *old(config),
        !old(config).blacklist_user_ids@.contains(user_id) ==> {
            &&& *final(config) == with_blacklist(*old(config), final(config).blacklist_user_ids)
            &&& final(config).blacklist_user_ids@ == old(config).blacklist_user_ids@.push(user_id).sort_by(ascending())
        },
        s@ == blacklist_add_reply(user_name@, !old(config).blacklist_user_ids@.contains(user_id)),
{
    let added = !is_blacklisted(config, user_id);
    let mut s = String::from_str(user_name);
    if added {
        let mut ids = config.blacklist_user_ids.clone();
        ids.push(user_id);
        let sorted = sorted_ids(&ids);
        replace_blacklist(config, sorted);
        s.append(" 님을 블랙리스트에 추가했습니다. 이제 게임에 참가할 수 없습니다.");
    } else {
        s.append(" 님은 이미 블랙리스트에 있습니다.");
    }
    s
}

/// The ids other than `user_id`, in their order.
fn ids_without(ids: &Vec<u64>, user_id: u64) -> (r: Vec<u64>)
    ensures
        r@ == without_id(ids@, user_id),
        r.len() <= ids.len(),
        (r.len() < ids.len()) == ids@.contains(user_id),
{
    let mut r: Vec<u64> = Vec::new();
    let mut i: usize = 0;
    assert(ids@.take(0) =~= Seq::<u64>::empty());
    while i < ids.len()
        invariant
            i <= ids.len(),
            r@ == without_id(ids@.take(i as int), user_id),
            r.len() <= i,
            (r.len() < i) == ids@.take(i as int).contains(user_id),
        decreases ids.len() - i,
    {
        let x = ids[i];
        proof {
            assert(ids@.take(i + 1).drop_last() == ids@.take(i as int));
            assert(ids@.take(i + 1).last() == x);
            assert(ids@.take(i + 1)[i as int] == x);
            assert forall|k: int| 0 <= k < i implies ids@.take(i + 1)[k] == #[trigger] ids@.take(i as int)[k] by {}
        }
        if x != user_id {
            r.push(x);
        }
        proof {
            let t = ids@.take(i + 1);
            assert(t.len() > 0);
            assert(without_id(t, user_id) == (if x != user_id {
                without_id(t.drop_last(), user_id).push(x)
            } else {
                without_id(t.drop_last(), user_id)
            }));
        }
        i = i + 1;
    }
    assert(ids@.take(ids@.len() as int) == ids@);
    r
}

/// The reply of the blacklist-remove command.
pub open spec fn blacklist_remove_reply(user_name: Seq<char>, removed: bool) -> Seq<char> {
    if removed {
        user_name + " 님을 블랙리스트에서 해제했습니다. 이제 게임에 참가할 수 있습니다."@
    } else {
        user_name + " 님은 블랙리스트에 없습니다."@
    }
}

/// The blacklist-remove command (`remove_from_blacklist`): every entry of
/// the user is dropped, the others keep their order.  Gives the reply.
pub fn remove_from_blacklist(config: &mut BotConfig, user_id: u64, user_name: &str) -> (s: String)
    ensures
        *final(config) == with_blacklist(*old(config), final(config).blacklist_user_ids),
        final(config).blacklist_user_ids@ == without_id(old(config).blacklist_user_ids@, user_id),
        s@ == blacklist_remove_reply(user_name@, old(config).blacklist_user_ids@.contains(user_id)),
{
    let before = config.blacklist_user_ids.len();
    let kept = ids_without(&config.blacklist_user_ids, user_id);
    let removed = kept.len() != before;
    replace_blacklist(config, kept);
    let mut s = String::from_str(user_name);
    if removed {
        s.append(" 님을 블랙리스트에서 해제했습니다. 이제 게임에 참가할 수 있습니다.");
    } else {
        s.append(" 님은 블랙리스트에 없습니다.");
    }
    s
}

/// One numbered line of the blacklist.
pub open spec fn blacklist_line(k: nat, id: u64) -> Seq<char> {
    dec(k) + ". `"@ + dec(id as nat) + "`"@
}

/// The blacklist as shown: its first fifty ids, numbered from one, a line
/// each; or a note that it is empty.
pub open spec fn blacklist_text(ids: Seq<u64>) -> Seq<char> {
    if ids.len() == 0 {
        "블랙리스트가 비어 있습니다."@
    } else {
        let n = if ids.len() < 50 { ids.len() } else { 50 };
        join(Seq::new(n, |k: int| blacklist_line((k + 1) as nat, ids[k])), "\n"@)
    }
}

/// The blacklist command's text (`show_blacklist`).
pub fn show_blacklist(config: &BotConfig) -> (s: String)
    ensures
        s@ == blacklist_text(config.blacklist_user_ids@),
{
    let ids = &config.blacklist_user_ids;
    if ids.len() == 0 {
        return String::from_str("블랙리스트가 비어 있습니다.");
    }
    let n: usize = if ids.len() < 50 { ids.len() } else { 50 };
    let mut lines: Vec<String> = Vec::new();
    let mut k: usize = 0;
    while k < n
        invariant
            n <= ids.len(),
            n <= 50,
            k <= n,
            lines.len() == k,
            forall|j: int| 0 <= j < k ==> #[trigger] lines@[j]@ == blacklist_line((j + 1) as nat, ids@[j]),
        decreases n - k,
    {
        let mut line = String::new();
        push_dec(&mut line, (k + 1) as u64);
        line.append(". `");
        push_dec(&mut line, ids[k]);
        line.append("`");
        lines.push(line);
        k = k + 1;
    }
    assert(views(lines@) =~= Seq::new(n as nat, |k: int| blacklist_line((k + 1) as nat, ids@[k])));
    join_strings(&lines, "\n")
}

/// After the blacklist-add command the user is barred, and the list is in
/// ascending order.
pub proof fn law_added_user_is_barred(ids: Seq<u64>, user_id: u64)
    ensures
        ids.push(user_id).sort_by(ascending()).contains(user_id),
        sorted_by(ids.push(user_id).sort_by(ascending()), ascending()),
{
    lemma_ascending_total();
    ids.push(user_id).lemma_sort_by_ensures(ascending());
    assert(ids.push(user_id).to_multiset().count(user_id) > 0) by {
        assert(ids.push(user_id)[ids.len() as int] == user_id);
    }
}

/// What a sequence holds after a push.
proof fn lemma_push_contains(s: Seq<u64>, a: u64, o: u64)
    ensures
        s.push(a).contains(o) == (s.contains(o) || a == o),
{
    if s.contains(o) {
        let k = choose|k: int| 0 <= k < s.len() && s[k] == o;
        assert(s.push(a)[k] == o);
    }
    if a == o {
        assert(s.push(a)[s.len() as int] == o);
    }
    if s.push(a).contains(o) {
        let k = choose|k: int| 0 <= k < s.push(a).len() && s.push(a)[k] == o;
        if k < s.len() {
            assert(s[k] == o);
        }
    }
}

/// After the blacklist-remove command the user is no longer barred, and
/// every other barred user still is.
pub proof fn law_removed_user_is_free(ids: Seq<u64>, user_id: u64)
    ensures
        !without_id(ids, user_id).contains(user_id),
        forall|other: u64| other != user_id ==> (without_id(ids, user_id).contains(other) == ids.contains(other)),
    decreases ids.len(),
{
    if ids.len() > 0 {
        let d = ids.drop_last();
        let l = ids.last();
        assert(ids == d.push(l));
        law_removed_user_is_free(d, user_id);
        let rest = without_id(d, user_id);
        if l != user_id {
            lemma_push_contains(rest, l, user_id);
        }
        assert forall|other: u64| other != user_id implies
            (without_id(ids, user_id).contains(other) == ids.contains(other)) by {
            lemma_push_contains(d, l, other);
            if l != user_id {
                lemma_push_contains(rest, l, other);
            }
        }
    }
}

} // verus!
