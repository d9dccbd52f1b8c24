use mafia_bot::access::{
    is_game_channel_creation_allowed, private_role_member_can_chat, private_role_member_can_view,
    private_roles_to_restore, shared_shaman_member_access,
};
use mafia_bot::channels::{permission_cache_key, remember_channel_permissions, remembered_permission};
use mafia_bot::running::{initial_roles_of, RunningGame};
use mafia_bot::status::anonymous_role_status_targets;
use mafia_bot::config::BotConfig;
use mafia_bot::forms::auto_start_modal;
use mafia_bot::counts::{selected_role_counts, selected_role_counts_balanced};
use mafia_bot::game::{MafiaGame, Phase, Player};
use mafia_bot::permissions::{
    stripped_game_permission_overwrite, swapped_member_roles, OverwriteTarget, PermissionOverwrite,
    CREATE_PUBLIC_THREADS, MANAGE_MESSAGES, SEND_MESSAGES, VIEW_CHANNEL,
};
use mafia_bot::recruitment::{auto_start_reached, recruitment_role_removals, Recruitment};
use mafia_bot::role::Role;
use mafia_bot::role_map::RoleMap;
use mafia_bot::selection::choose_special_roles_balanced;
use mafia_bot::slots::select_balanced_special_roles_for_slots;
use mafia_bot::summary::public_role_count_text_from_counts;
use std::collections::HashSet;

fn role_chat_test_game() -> MafiaGame {
    MafiaGame::with_players(
        vec![
            Player::new(1, "p1".to_string(), Role::Mafia),
            Player::new(2, "p2".to_string(), Role::Doctor),
            Player::new(3, "p3".to_string(), Role::Police),
            Player::new(4, "p4".to_string(), Role::Citizen),
        ],
        Phase::Night,
        1,
    )
}

fn role_map<V: Copy>(entries: &[(Role, V)]) -> RoleMap<V> {
    let mut map = RoleMap::new();
    for (role, value) in entries {
        map.insert(*role, *value);
    }
    map
}

fn selection_test_config() -> BotConfig {
    BotConfig {
        game_enabled: true,
        participant_role: "참가자".to_string(),
        manager_role: "관리자".to_string(),
        default_mafia_count: 1,
        default_doctor_count: 0,
        default_police_count: 1,
        default_joker_count: 0,
        max_player_count: 0,
        recruitment_seconds: 60,
        night_seconds: 30,
        discussion_seconds: 30,
        vote_seconds: 30,
        chat_slowmode_seconds: 0,
        reveal_death_roles: false,
        reveal_public_police_status: true,
        reveal_morning_mafia_count: true,
        show_confirmation_vote_counts: true,
        citizen_special_count: 1,
        mafia_special_count: 0,
        neutral_special_count: 0,
        enable_detective: true,
        enable_inspector: true,
        enable_graverobber: false,
        enable_spy: false,
        enable_contractor: false,
        enable_fraudster: false,
        enable_witch: false,
        enable_scientist: false,
        enable_madam: false,
        enable_godfather: false,
        enable_joker: false,
        enable_politician: false,
        enable_judge: false,
        enable_reporter: false,
        enable_hacker: false,
        enable_terrorist: false,
        enable_lover: false,
        enable_civil_servant: false,
        enable_paparazzi: false,
        enable_shaman: false,
        enable_priest: false,
        enable_soldier: false,
        enable_nurse: false,
        enable_gangster: false,
        enable_prophet: false,
        enable_psychologist: false,
        enable_hypnotist: false,
        enable_mercenary: false,
        enable_thief: false,
        enable_cult_team: false,
        use_agent: true,
        use_vigilante: true,
        anonymous_mode: false,
        anonymous_name_mode: "animal".to_string(),
        blacklist_user_ids: Vec::new(),
    }
}

#[test]
fn base_investigation_role_filters_investigation_specials() {
    let config = selection_test_config();
    let role_history = role_map(&[(Role::Inspector, 0), (Role::Detective, 100)]);

    let special_roles = choose_special_roles_balanced(&config, &role_history).unwrap();
    let role_counts = selected_role_counts_balanced(&config, &special_roles, &role_history).unwrap();
    let investigation_count = role_counts
        .keys()
        .iter()
        .filter(|role| role.is_investigation_role())
        .map(|role| role_counts.get(*role).unwrap())
        .sum::<usize>();

    assert_eq!(special_roles, vec![Role::Detective]);
    assert_eq!(investigation_count, config.default_police_count as usize);
    assert_eq!(
        role_counts
            .keys()
            .iter()
            .filter(|role| role.is_investigation_role())
            .count(),
        1
    );
}

#[test]
fn enabled_inspector_can_be_selected_as_base_investigation_role() {
    let mut config = selection_test_config();
    config.citizen_special_count = 0;
    config.use_agent = false;
    config.use_vigilante = false;
    let role_history = role_map(&[(Role::Police, 10), (Role::Inspector, 0)]);

    let role_counts = selected_role_counts_balanced(&config, &[], &role_history).unwrap();

    assert_eq!(
        role_counts.get(Role::Inspector),
        Some(config.default_police_count as usize)
    );
    assert!(!role_counts.contains_key(Role::Police));
}

#[test]
fn enabled_base_jokers_are_included_in_role_counts() {
    let mut config = selection_test_config();
    config.default_joker_count = 2;
    config.enable_joker = true;

    let role_counts = selected_role_counts(&config, &[]).unwrap();

    assert_eq!(role_counts.get(Role::Joker), Some(2));

    config.enable_joker = false;
    let role_counts = selected_role_counts(&config, &[]).unwrap();
    assert!(!role_counts.contains_key(Role::Joker));
}

#[test]
fn public_role_count_does_not_count_inspector_as_two_people() {
    let role_counts = role_map(&[(Role::Mafia, 1usize), (Role::Inspector, 1), (Role::Citizen, 3)]);

    let text = public_role_count_text_from_counts(&role_counts, Some(5));

    assert!(text.contains("수사직 1명"));
    assert!(text.contains("시민 3명"));
}

#[test]
fn balanced_special_selection_prefers_less_seen_roles() {
    let history = role_map(&[(Role::Spy, 10i64), (Role::Contractor, 5)]);

    let selected = select_balanced_special_roles_for_slots(
        &[Role::Spy, Role::Contractor, Role::Thief],
        1,
        &history,
    )
    .unwrap();

    assert_eq!(selected, vec![Role::Thief]);
}

#[test]
fn balanced_special_selection_counts_lover_slots() {
    let history = role_map(&[(Role::Lover, 100i64)]);

    let selected = select_balanced_special_roles_for_slots(
        &[Role::Lover, Role::Detective, Role::Shaman],
        2,
        &history,
    )
    .unwrap();

    assert_eq!(selected, vec![Role::Detective, Role::Shaman]);
}

#[test]
fn anonymous_shared_shaman_channel_is_hidden_from_members() {
    assert_eq!(shared_shaman_member_access(true, true, true), (false, false));
    assert_eq!(shared_shaman_member_access(true, true, false), (false, false));
    assert_eq!(shared_shaman_member_access(false, true, true), (true, true));
}

#[test]
fn forced_cleanup_removes_only_game_managed_permission_bits() {
    let kind = OverwriteTarget::Role(7);
    let overwrite = PermissionOverwrite {
        allow: MANAGE_MESSAGES | SEND_MESSAGES,
        deny: VIEW_CHANNEL | CREATE_PUBLIC_THREADS,
        kind,
    };

    let cleaned = stripped_game_permission_overwrite(overwrite, true).unwrap();
    assert_eq!(cleaned.allow, MANAGE_MESSAGES);
    assert!(cleaned.deny == 0);
}

#[test]
fn private_role_chat_closed_during_day() {
    let mut game = role_chat_test_game();
    let doctor = game
        .players
        .iter()
        .find(|player| player.role == Role::Doctor)
        .map(|player| player.duplicate())
        .unwrap();

    game.phase = Phase::Day;

    assert!(!private_role_member_can_chat(&game, Role::Doctor, &doctor));
}

#[test]
fn private_role_chat_open_during_night() {
    let game = role_chat_test_game();
    let doctor = game
        .players
        .iter()
        .find(|player| player.role == Role::Doctor)
        .map(|player| player.duplicate())
        .unwrap();

    assert!(private_role_member_can_chat(&game, Role::Doctor, &doctor));
}

#[test]
fn mafia_room_visibility_does_not_follow_chat_phase() {
    let mut game = role_chat_test_game();
    let mafia = game
        .players
        .iter()
        .find(|player| player.role == Role::Mafia)
        .map(|player| player.duplicate())
        .unwrap();

    game.phase = Phase::Day;
    assert!(private_role_member_can_view(&game, Role::Mafia, &mafia));
    assert!(!private_role_member_can_chat(&game, Role::Mafia, &mafia));

    game.phase = Phase::Night;
    assert!(private_role_member_can_view(&game, Role::Mafia, &mafia));
    assert!(private_role_member_can_chat(&game, Role::Mafia, &mafia));
}

#[test]
fn ended_game_blocks_late_temporary_chat_creation() {
    assert!(!is_game_channel_creation_allowed(Phase::Ended));
    assert!(is_game_channel_creation_allowed(Phase::Night));
}

#[test]
fn member_role_swap_preserves_unrelated_roles() {
    let participant = 1u64;
    let unrelated = 2u64;
    let dead = 3u64;

    assert_eq!(
        swapped_member_roles(&[participant, unrelated], Some(participant), Some(dead)),
        Some(vec![unrelated, dead])
    );
    assert_eq!(
        swapped_member_roles(&[unrelated, dead], Some(participant), Some(dead)),
        None
    );
}

fn recruitment_fixture() -> Recruitment {
    Recruitment {
        host_user_id: 1,
        participant_role_id: 10,
        spectator_role_id: Some(11),
        role_counts: RoleMap::new(),
        special_roles: Vec::new(),
        max_players: 8,
        minimum_players: 4,
        joined_ids: HashSet::from([1, 2, 3]),
        joined_names: Vec::new(),
        spectator_ids: HashSet::from([7]),
        spectator_names: Vec::new(),
        accepting: true,
        cancelled: false,
        auto_start_players: None,
        recruitment_seconds: 60,
    }
}

#[test]
fn auto_start_triggers_only_once_the_target_headcount_is_reached() {
    let mut recruitment = recruitment_fixture();
    assert!(!auto_start_reached(&recruitment));

    recruitment.auto_start_players = Some(4);
    assert!(!auto_start_reached(&recruitment));

    recruitment.joined_ids.insert(4);
    assert!(auto_start_reached(&recruitment));

    recruitment.joined_ids.insert(5);
    assert!(auto_start_reached(&recruitment));
}

#[test]
fn cancelled_recruitment_gives_back_participant_and_spectator_roles() {
    let recruitment = recruitment_fixture();

    assert_eq!(
        recruitment_role_removals(&recruitment),
        vec![(1, 10), (2, 10), (3, 10), (7, 11)]
    );
}

#[test]
fn recruitment_cleanup_skips_spectators_when_the_role_is_missing() {
    let mut recruitment = recruitment_fixture();
    recruitment.spectator_role_id = None;

    let removals = recruitment_role_removals(&recruitment);

    assert_eq!(removals.len(), 3);
    assert!(removals.iter().all(|(user_id, _)| *user_id != 7));
}

#[test]
fn auto_start_modal_omits_the_value_when_nothing_is_set_yet() {
    let recruitment = recruitment_fixture();
    assert_eq!(recruitment.auto_start_players, None);

    let modal = auto_start_modal(1, &recruitment);
    let input = &modal.inputs[0];

    assert!(input.value.is_none(), "빈 value가 전송되면 안 된다");
    assert_eq!(input.custom_id, "auto_start_players");
    assert!(input.label.chars().count() <= 45);
    assert!(input.placeholder.chars().count() <= 100);
    assert_eq!(modal.custom_id, "autostart:1");
    assert!(modal.title.chars().count() <= 45);
}

#[test]
fn auto_start_modal_prefills_the_current_setting() {
    let mut recruitment = recruitment_fixture();
    recruitment.auto_start_players = Some(6);

    let modal = auto_start_modal(1, &recruitment);

    assert_eq!(modal.inputs[0].value.as_deref(), Some("6"));
}

fn dead_chat_test_running() -> RunningGame {
    let game = role_chat_test_game();
    let mut running = RunningGame::new(game, false, 10);
    running.initial_roles = initial_roles_of(&running.game);
    running
}

#[test]
fn restored_mafia_frog_gets_mafia_private_role_back() {
    let mut running = dead_chat_test_running();
    let mafia = running.game.players.iter().find(|player| player.role == Role::Mafia).unwrap().duplicate();
    running.game.frog_user_ids.push(mafia.user_id);

    // Turning the frogs back: the frog list empties and the player is whole again.
    running.game.frog_user_ids.retain(|id| *id != mafia.user_id);
    let restored_mafia = running.game.players.iter().find(|player| player.user_id == mafia.user_id).unwrap();

    assert_eq!(private_roles_to_restore(&running, restored_mafia), vec![Role::Mafia]);
}

#[test]
fn anonymous_mafia_status_targets_every_personal_room_and_shows_choices() {
    let mut running = dead_chat_test_running();
    running.anonymous_enabled = true;
    running.game.players[0].role = Role::Mafia;
    running.game.players[1].role = Role::Thief;
    running.anonymous_aliases = vec![
        (1, "마피아A".to_string()),
        (2, "도둑B".to_string()),
        (3, "대상A".to_string()),
        (4, "대상B".to_string()),
    ];
    running.anonymous_role_input_channel_ids = vec![((1, Role::Mafia), 101), ((2, Role::Mafia), 102)];

    let targets = anonymous_role_status_targets(&running, Role::Mafia).unwrap();

    assert_eq!(targets, vec![((1, Role::Mafia), 101), ((2, Role::Mafia), 102)]);
}

#[test]
fn permission_cache_distinguishes_member_and_role_targets() {
    let channel_id = 10;
    let member_key = permission_cache_key(channel_id, OverwriteTarget::Member(20));
    let role_key = permission_cache_key(channel_id, OverwriteTarget::Role(20));

    assert_ne!(member_key, role_key);
}

#[test]
fn created_channel_permissions_are_remembered() {
    let mut running = dead_chat_test_running();
    let channel_id = 30;
    let overwrite = PermissionOverwrite { allow: VIEW_CHANNEL, deny: SEND_MESSAGES, kind: OverwriteTarget::Member(1) };

    remember_channel_permissions(&mut running, channel_id, &vec![overwrite]);

    assert_eq!(remembered_permission(&running, channel_id, overwrite.kind), Some(overwrite));
}
