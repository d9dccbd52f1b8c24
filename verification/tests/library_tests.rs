use mafia_bot::boards::{image_color, leaderboard_metric_column, truncate_for_board};
use mafia_bot::casino::{
    card_text, cards_text, parse_amount, parse_range, settings_request, GameKind, SettingsRequest,
};
use mafia_bot::choices::{treasury_delta, TreasuryAdminAction, TreasuryTarget};
use mafia_bot::config::BotConfig;
use mafia_bot::contractor::{refresh_contractor_draft, set_contractor_draft_target, ContractorContractDraft};
use mafia_bot::counts::{minimum_player_count, selected_role_counts};
use mafia_bot::game::{MafiaGame, Phase, Player};
use mafia_bot::input::{
    anonymous_message_body, first_selected_id, message_author_display_name, night_action_target,
    parse_bet_input,
};
use mafia_bot::permissions::{
    stripped_game_permission_overwrite, swapped_member_roles, OverwriteTarget, PermissionOverwrite,
    ADD_REACTIONS, MANAGE_MESSAGES, SEND_MESSAGES,
};
use mafia_bot::recruitment::{recruitment_embed_text, Recruitment, RECRUITMENT_STATUS_OPEN};
use mafia_bot::role::Role;
use mafia_bot::selection::choose_special_roles;
use mafia_bot::role_map::RoleMap;
use mafia_bot::running::{aborted_assignments, finish_game, initial_roles_of, RunningGame};
use mafia_bot::settings::{
    anonymous_name_mode_text, current_settings_text, enabled_special_role_names, game_rule_text,
    investigation_candidates_text, max_player_setting_text, public_game_settings_text,
};
use mafia_bot::start::{
    game_counts, missing_role_message, plan_recruitment, recruitment_cancel_notice,
    recruitment_failed, start_announcement, start_refusal,
};
use mafia_bot::status::{
    anonymous_role_status_targets, command_status_text, final_role_reveal_text, final_team_text, game_status_text,
    role_channel_status_text, status_player_list, status_reply_is_private,
};
use mafia_bot::summary::{public_role_count_text, public_role_count_text_from_counts};
use mafia_bot::votes::{anonymous_vote_summary, VoteResult};
use std::collections::HashSet;

fn game_of(players: Vec<Player>) -> MafiaGame {
    MafiaGame::with_players(players, Phase::Night, 1)
}

fn four_player_game() -> MafiaGame {
    game_of(vec![
        Player::new(1, "p1".to_string(), Role::Mafia),
        Player::new(2, "p2".to_string(), Role::Doctor),
        Player::new(3, "p3".to_string(), Role::Police),
        Player::new(4, "p4".to_string(), Role::Citizen),
    ])
}

fn running_of(game: MafiaGame, anonymous: bool) -> RunningGame {
    RunningGame::new(game, anonymous, 100)
}

fn role_map<V: Copy>(entries: &[(Role, V)]) -> RoleMap<V> {
    let mut map = RoleMap::new();
    for (role, value) in entries {
        map.insert(*role, *value);
    }
    map
}

fn config() -> BotConfig {
    BotConfig {
        game_enabled: true,
        participant_role: "참가자".to_string(),
        manager_role: "관리자".to_string(),
        default_mafia_count: 1,
        default_doctor_count: 0,
        default_police_count: 1,
        default_joker_count: 0,
        max_player_count: 0,
        recruitment_seconds: 60,
        night_seconds: 30,
        discussion_seconds: 30,
        vote_seconds: 30,
        chat_slowmode_seconds: 0,
        reveal_death_roles: false,
        reveal_public_police_status: true,
        reveal_morning_mafia_count: true,
        show_confirmation_vote_counts: true,
        citizen_special_count: 1,
        mafia_special_count: 0,
        neutral_special_count: 0,
        enable_detective: true,
        enable_inspector: true,
        enable_graverobber: false,
        enable_spy: false,
        enable_contractor: false,
        enable_fraudster: false,
        enable_witch: false,
        enable_scientist: false,
        enable_madam: false,
        enable_godfather: false,
        enable_joker: false,
        enable_politician: false,
        enable_judge: false,
        enable_reporter: false,
        enable_hacker: false,
        enable_terrorist: false,
        enable_lover: false,
        enable_civil_servant: false,
        enable_paparazzi: false,
        enable_shaman: false,
        enable_priest: false,
        enable_soldier: false,
        enable_nurse: false,
        enable_gangster: false,
        enable_prophet: false,
        enable_psychologist: false,
        enable_hypnotist: false,
        enable_mercenary: false,
        enable_thief: false,
        enable_cult_team: false,
        use_agent: true,
        use_vigilante: true,
        anonymous_mode: false,
        anonymous_name_mode: "animal".to_string(),
        blacklist_user_ids: Vec::new(),
    }
}

fn recruitment() -> Recruitment {
    Recruitment {
        host_user_id: 1,
        participant_role_id: 10,
        spectator_role_id: Some(11),
        role_counts: RoleMap::new(),
        special_roles: Vec::new(),
        max_players: 8,
        minimum_players: 4,
        joined_ids: HashSet::from([1, 2, 3]),
        joined_names: Vec::new(),
        spectator_ids: HashSet::from([7]),
        spectator_names: Vec::new(),
        accepting: true,
        cancelled: false,
        auto_start_players: None,
        recruitment_seconds: 60,
    }
}

#[test]
fn role_line_of_a_small_game() {
    assert_eq!(
        public_role_count_text(&four_player_game()),
        "역할 구성: 마피아 1명(중 특수 0명), 의사 1명, 수사직 1명, 시민 1명(중 특수 0명)"
    );
}

#[test]
fn role_summary_without_player_count_shows_changing_citizens() {
    let counts = role_map(&[
        (Role::Mafia, 2usize),
        (Role::Spy, 1),
        (Role::Joker, 1),
        (Role::CultLeader, 1),
        (Role::Fanatic, 1),
        (Role::Detective, 1),
    ]);
    assert_eq!(
        public_role_count_text_from_counts(&counts, None),
        "마피아 3명(중 특수 1명), 의사 0명, 수사직 0명, 시민 변동(중 특수 1명), 중립 특수 1명, 교주팀 2명"
    );
}

#[test]
fn summary_counts_every_player_once() {
    let game = game_of(vec![
        Player::new(1, "a".to_string(), Role::Mafia),
        Player::new(2, "b".to_string(), Role::Spy),
        Player::new(3, "c".to_string(), Role::Inspector),
        Player::new(4, "d".to_string(), Role::Detective),
        Player::new(5, "e".to_string(), Role::Citizen),
        Player::new(6, "f".to_string(), Role::Citizen),
    ]);
    let text = public_role_count_text(&game);
    assert!(text.contains("마피아 2명(중 특수 1명)"));
    assert!(text.contains("수사직 1명"));
    assert!(text.contains("시민 3명(중 특수 1명)"));
}

#[test]
fn more_seats_than_players_show_no_citizens() {
    let counts = role_map(&[(Role::Mafia, 3usize), (Role::Doctor, 2)]);
    assert!(public_role_count_text_from_counts(&counts, Some(4)).contains("시민 0명"));
}

#[test]
fn mafia_seats_add_up_to_the_configured_mafia() {
    let mut cfg = config();
    cfg.default_mafia_count = 2;
    let counts = selected_role_counts(&cfg, &[Role::Spy]).unwrap();
    assert_eq!(counts.get(Role::Mafia), Some(1));
    assert_eq!(counts.get(Role::Spy), Some(1));
    assert_eq!(minimum_player_count(&counts), 5);
}

#[test]
fn too_many_mafia_specials_are_refused() {
    let cfg = config();
    let refused = selected_role_counts(&cfg, &[Role::Spy, Role::Witch]).err().unwrap();
    assert_eq!(
        refused,
        "마피아 특수룰 수는 전체 마피아 수보다 많을 수 없습니다. 현재 마피아 1명, 마피아 특수 2명입니다."
    );
    let only_specials = selected_role_counts(&cfg, &[Role::Spy]).err().unwrap();
    assert_eq!(
        only_specials,
        "접선 전 특수 마피아만으로는 게임을 진행할 수 없습니다. 일반 마피아가 최소 1명 필요합니다."
    );
}

#[test]
fn status_of_a_small_game() {
    let running = running_of(four_player_game(), false);
    assert_eq!(
        game_status_text(&running),
        "1일차 / 현재 단계: 밤\n생존자 **4명** / 사망자 **0명**\n\n생존자 목록\np1, p2, p3, p4\n\n사망자 목록\n없음"
    );
}

#[test]
fn status_lists_sort_names_ignoring_case() {
    let game = game_of(vec![
        Player::new(1, "b".to_string(), Role::Citizen),
        Player::new(2, "C".to_string(), Role::Citizen),
        Player::new(3, "a".to_string(), Role::Citizen),
    ]);
    let running = running_of(game, false);
    assert_eq!(status_player_list(&running, &running.game.players), "a, b, C");
}

#[test]
fn long_status_lists_are_cut_at_forty() {
    let players = (0..45)
        .map(|i| Player::new(i, format!("n{i:02}"), Role::Citizen))
        .collect::<Vec<_>>();
    let running = running_of(game_of(players), false);
    let text = status_player_list(&running, &running.game.players);
    assert!(text.starts_with("n00, n01"));
    assert!(text.ends_with("n39 외 5명"));
    assert!(!text.contains("n40"));
}

#[test]
fn final_sides() {
    let game = game_of(vec![
        Player::new(1, "m".to_string(), Role::Mafia),
        Player::new(2, "c".to_string(), Role::Citizen),
        Player::new(3, "j".to_string(), Role::Joker),
        Player::new(4, "l".to_string(), Role::CultLeader),
    ]);
    assert_eq!(final_team_text(&game, &game.players[0]), "마피아팀");
    assert_eq!(final_team_text(&game, &game.players[1]), "시민팀");
    assert_eq!(final_team_text(&game, &game.players[2]), "중립");
    assert_eq!(final_team_text(&game, &game.players[3]), "교주팀");
}

#[test]
fn role_channel_status_lists_members_and_mafia_choices() {
    let running = running_of(four_player_game(), false);
    assert_eq!(
        role_channel_status_text(&running, Role::Mafia, &vec![1, 99], "밤 선택"),
        "현재 생존: p1\n\n밤 선택"
    );
    assert_eq!(
        role_channel_status_text(&running, Role::Doctor, &vec![2], "밤 선택"),
        "현재 생존: p2"
    );
    assert_eq!(
        role_channel_status_text(&running, Role::Doctor, &vec![], ""),
        "현재 생존: 없음"
    );
}

#[test]
fn final_reveal_lists_everyone_by_name() {
    let mut game = four_player_game();
    game.players[1].alive = false;
    let running = running_of(game, false);
    let tiers = vec!["A".to_string(), "B".to_string(), "C".to_string(), "D".to_string()];
    assert_eq!(
        final_role_reveal_text(&running, &tiers),
        "- p1: 마피아 / 최종 진영: 마피아팀 / A\n- p2: 의사 (사망) / 최종 진영: 시민팀 / B\n- p3: 경찰 / 최종 진영: 시민팀 / C\n- p4: 시민 / 최종 진영: 시민팀 / D"
    );
}

#[test]
fn anonymous_final_reveal_pairs_aliases_with_real_names() {
    let mut running = running_of(four_player_game(), true);
    running.anonymous_aliases = vec![(1, "너구리".to_string()), (2, "고양이".to_string())];
    running.anonymous_original_names = vec![(1, "진짜1".to_string())];
    let tiers = vec!["A".to_string(), "B".to_string(), "C".to_string(), "D".to_string()];
    let text = final_role_reveal_text(&running, &tiers);
    assert!(text.contains("- 너구리 = 진짜1: 마피아"));
    assert!(text.contains("- 고양이 = p2: 의사"));
    assert!(text.contains("- 익명 = p3: 경찰"));
}

#[test]
fn anonymous_status_command_shows_own_team() {
    let mut running = running_of(four_player_game(), true);
    running.anonymous_aliases = vec![
        (1, "너구리".to_string()),
        (2, "고양이".to_string()),
        (3, "다람쥐".to_string()),
        (4, "고라니".to_string()),
    ];
    let text = command_status_text(&running, 1);
    assert!(text.ends_with("\n\n내 마피아팀 현황\n생존 **1명** / 사망 **0명**\n생존: 너구리\n사망: 없음"));
    assert!(text.contains("생존자 목록\n고라니, 고양이, 너구리, 다람쥐"));
    assert_eq!(command_status_text(&running, 99), game_status_text(&running));
}

#[test]
fn vote_summary_orders_by_votes_then_name() {
    let game = four_player_game();
    let result = VoteResult {
        vote_counts: vec![(Some(2), 1), (None, 2), (Some(3), 1), (Some(99), 1)],
    };
    assert_eq!(
        anonymous_vote_summary(&game, &result),
        "- 스킵: 2표\n- 99: 1표\n- p2: 1표\n- p3: 1표"
    );
    assert_eq!(
        anonymous_vote_summary(&game, &VoteResult { vote_counts: Vec::new() }),
        "투표 없음"
    );
}

#[test]
fn settings_texts() {
    let mut cfg = config();
    assert_eq!(investigation_candidates_text(&cfg), "경찰, 요원, 자경단원, 형사");
    assert_eq!(enabled_special_role_names(&cfg), "사립탐정, 형사");
    assert_eq!(max_player_setting_text(&cfg), "기본값(24명)");
    assert_eq!(anonymous_name_mode_text(&cfg), "동물");
    cfg.max_player_count = 10;
    assert_eq!(max_player_setting_text(&cfg), "10명");
    cfg.max_player_count = 30;
    assert_eq!(max_player_setting_text(&cfg), "24명");
    cfg.anonymous_name_mode = "number".to_string();
    assert_eq!(anonymous_name_mode_text(&cfg), "번호");
    cfg.enable_detective = false;
    cfg.enable_inspector = false;
    cfg.use_agent = false;
    cfg.use_vigilante = false;
    assert_eq!(enabled_special_role_names(&cfg), "없음");
    assert_eq!(investigation_candidates_text(&cfg), "경찰");
    cfg.enable_cult_team = true;
    assert_eq!(enabled_special_role_names(&cfg), "교주, 광신도");
}

#[test]
fn settings_and_rules_texts_carry_the_configuration() {
    let cfg = config();
    let settings = current_settings_text(&cfg, "설정");
    assert!(settings.starts_with("설정\n게임 상태: 활성화\n기본 직업: 마피아 1명, 의사 비활성화, 수사직 활성화"));
    assert!(settings.contains("참가자 모집 시간: 60초"));
    assert!(settings.ends_with("익명 채팅: 꺼짐\n익명 이름 방식: 동물"));
    let game = four_player_game();
    let public = public_game_settings_text(&game, &cfg, "공지");
    assert!(public.starts_with("공지\n역할 구성: "));
    assert!(public.ends_with("채팅 슬로우모드: 0초\n익명 채팅: 꺼짐"));
    let rules = game_rule_text(&game, &cfg, true);
    assert!(rules.starts_with("역할 구성: "));
    assert!(rules.contains("아침 생존 마피아 수는 공개됩니다."));
    assert!(rules.contains("사망자의 직업은 즉시 공개됩니다. 게임 채널 채팅/반응 권한은 제거되고 '사망자' 역할이 부여됩니다."));
}

#[test]
fn recruitment_message() {
    let mut rec = recruitment();
    rec.joined_names = vec![(1, "bob".to_string()), (2, "Alice".to_string())];
    let text = recruitment_embed_text(&rec, &config(), RECRUITMENT_STATUS_OPEN);
    assert!(text.starts_with("최대 60초 동안 참가자를 모집합니다."));
    assert!(text.contains("최소 시작 인원 **4명**까지 **1명** 더 필요"));
    assert!(text.contains("현재 참가자 **3/8명**\n1. Alice\n2. bob"));
    assert!(text.contains("현재 관전자 **1명**\n아직 관전자가 없습니다."));
    assert!(text.ends_with("\n\n모집 중입니다."));
}

#[test]
fn cards() {
    assert_eq!(card_text("Ts"), "10♠");
    assert_eq!(card_text("9h"), "9♥");
    assert_eq!(card_text("Ad"), "A♦");
    assert_eq!(card_text("Kx"), "K");
    assert_eq!(card_text("??"), "🂠");
    assert_eq!(card_text(""), "");
    assert_eq!(cards_text(&[]), "-");
    assert_eq!(cards_text(&["Ts".to_string(), "2c".to_string()]), "10♠ 2♣");
}

#[test]
fn amounts_and_ranges() {
    assert_eq!(parse_amount("").unwrap(), None);
    assert_eq!(parse_amount(" 1,234원 ").unwrap(), Some(1234));
    assert_eq!(parse_amount("10_000_000_000").unwrap(), Some(10_000_000_000));
    assert_eq!(parse_amount("abc").unwrap_err(), "숫자로 입력하세요: abc");
    assert_eq!(parse_amount("원").unwrap_err(), "숫자로 입력하세요: 원");
    assert_eq!(parse_range("5000~").unwrap(), (Some(5000), None));
    assert_eq!(parse_range("~5000").unwrap(), (None, Some(5000)));
    assert_eq!(parse_range("1~2-3").unwrap_err(), "범위는 5000~20000처럼 입력하세요.");
    assert_eq!(parse_range("x~3").unwrap_err(), "숫자로 입력하세요: x");
}

#[test]
fn contractor_rejects_a_third_slot() {
    let mut draft = ContractorContractDraft::default();
    draft.target_ids = [Some(1), None];
    assert_eq!(
        set_contractor_draft_target(&mut draft, 2, 5).unwrap_err(),
        "잘못된 청부 선택입니다."
    );
    assert_eq!(draft.target_ids, [Some(1), None]);
}

#[test]
fn role_swaps_and_permission_cleanup() {
    assert_eq!(swapped_member_roles(&[5, 6, 7], Some(6), Some(9)), Some(vec![5, 7, 9]));
    assert_eq!(swapped_member_roles(&[5, 9], None, Some(9)), None);
    let only_game_bits = PermissionOverwrite {
        allow: SEND_MESSAGES | ADD_REACTIONS,
        deny: 0,
        kind: OverwriteTarget::Member(3),
    };
    assert_eq!(stripped_game_permission_overwrite(only_game_bits, false), None);
    let mixed = PermissionOverwrite {
        allow: SEND_MESSAGES | MANAGE_MESSAGES,
        deny: 0,
        kind: OverwriteTarget::Member(3),
    };
    assert_eq!(
        stripped_game_permission_overwrite(mixed, false),
        Some(PermissionOverwrite { allow: MANAGE_MESSAGES, deny: 0, kind: OverwriteTarget::Member(3) })
    );
}

#[test]
fn board_helpers() {
    assert_eq!(image_color("#1d2028"), (29, 32, 40));
    assert_eq!(image_color("##ffd166"), (255, 209, 102));
    assert_eq!(image_color("+f0000"), (15, 0, 0));
    assert_eq!(image_color("zz0000"), (255, 0, 0));
    assert_eq!(truncate_for_board("abcdefgh", 5), "ab...");
    assert_eq!(truncate_for_board("abc", 5), "abc");
    assert_eq!(truncate_for_board("abcdef", 2), "...");
    assert_eq!(leaderboard_metric_column("playtime"), "time");
    assert_eq!(leaderboard_metric_column("winrate"), "winrate");
    assert_eq!(leaderboard_metric_column("other"), "record");
}

#[test]
fn treasury_changes() {
    assert_eq!(treasury_delta(TreasuryAdminAction::Withdraw, 500), Ok(-500));
    assert_eq!(treasury_delta(TreasuryAdminAction::Deposit, 500), Ok(500));
    assert_eq!(
        treasury_delta(TreasuryAdminAction::Deposit, 0),
        Err("금액은 1원 이상이어야 합니다.".to_string())
    );
    assert_eq!(TreasuryTarget::Jackpot.label(), "잭팟");
    assert_eq!(TreasuryTarget::Treasury.label(), "복지 금고");
}

#[test]
fn typed_numbers_and_picks() {
    assert_eq!(parse_bet_input("1,000원"), Some(1000));
    assert_eq!(parse_bet_input(" -5 "), Some(-5));
    assert_eq!(parse_bet_input("+7"), Some(7));
    assert_eq!(parse_bet_input("1 2 3"), Some(123));
    assert_eq!(parse_bet_input("abc"), None);
    assert_eq!(parse_bet_input(""), None);
    assert_eq!(parse_bet_input("-"), None);
    assert_eq!(parse_bet_input("9223372036854775808"), None);
    assert_eq!(parse_bet_input("-9223372036854775808"), Some(i64::MIN));
    assert_eq!(night_action_target(&vec!["skip".to_string()]), None);
    assert_eq!(night_action_target(&vec!["42".to_string()]), Some(42));
    assert_eq!(night_action_target(&vec![]), None);
    assert_eq!(night_action_target(&vec!["x".to_string()]), None);
    assert_eq!(first_selected_id(&vec!["18446744073709551615".to_string()]), Some(u64::MAX));
    assert_eq!(first_selected_id(&vec!["18446744073709551616".to_string()]), None);
    assert_eq!(first_selected_id(&vec!["-1".to_string()]), None);
}

#[test]
fn relayed_message_bodies() {
    assert_eq!(anonymous_message_body("  hi  ", &vec!["u1".to_string()]), "hi\nu1");
    assert_eq!(anonymous_message_body("   ", &vec![]), "(내용 없음)");
    assert_eq!(anonymous_message_body("", &vec!["a".to_string(), "b".to_string()]), "a\nb");
    assert_eq!(
        message_author_display_name(None, Some("g".to_string()), "n".to_string()),
        "g"
    );
    assert_eq!(
        message_author_display_name(Some("k".to_string()), Some("g".to_string()), "n".to_string()),
        "k"
    );
    assert_eq!(message_author_display_name(None, None, "n".to_string()), "n");
}

#[test]
fn starting_a_game() {
    assert_eq!(start_refusal(false, false, false, true), Some("서버 채널에서만 사용할 수 있습니다."));
    assert_eq!(start_refusal(true, true, true, false), Some("이미 진행 중인 게임이 있습니다."));
    assert_eq!(start_refusal(true, false, true, false), Some("이미 참가자를 모집 중입니다."));
    assert_eq!(start_refusal(true, false, false, false), Some("마피아 게임이 비활성화되어 있습니다."));
    assert_eq!(start_refusal(true, false, false, true), None);
    assert_eq!(missing_role_message("참가자"), "'참가자' 역할을 찾을 수 없습니다.");

    let mut cfg = config();
    let history = RoleMap::new();
    let plan = match plan_recruitment(&cfg, &history) {
        Ok(plan) => plan,
        Err(message) => panic!("{message}"),
    };
    assert_eq!(plan.special_roles, vec![Role::Detective]);
    assert_eq!(plan.minimum_players, 3);
    assert_eq!(plan.max_players, 24);
    cfg.max_player_count = 2;
    match plan_recruitment(&cfg, &history) {
        Ok(_) => panic!("a limit below the smallest game must be refused"),
        Err(message) => assert_eq!(
            message,
            "현재 설정의 최소 시작 인원은 3명이라 최대 인원 2명으로 시작할 수 없습니다."
        ),
    }

    let mut rec = recruitment();
    assert!(recruitment_failed(&rec));
    assert_eq!(
        recruitment_cancel_notice(&rec),
        "참가자 모집이 취소되었습니다.\n모집 중 부여한 참가자/관전자 역할 4건을 정리했습니다."
    );
    rec.spectator_role_id = None;
    rec.joined_ids.insert(4);
    assert!(!recruitment_failed(&rec));
    rec.joined_ids.clear();
    assert_eq!(recruitment_cancel_notice(&rec), "참가자 모집이 취소되었습니다.");

    cfg.enable_cult_team = true;
    cfg.enable_joker = true;
    cfg.default_joker_count = 2;
    let counts = role_map(&[(Role::Mafia, 2usize), (Role::Inspector, 1), (Role::Lover, 2)]);
    let dealt = game_counts(&cfg, &counts, &[Role::Lover]);
    assert_eq!(dealt.mafia_count, 2);
    assert_eq!(dealt.doctor_count, 0);
    assert_eq!(dealt.inspector_count, 1);
    assert_eq!(dealt.joker_count, 2);
    assert_eq!(dealt.special_roles, vec![Role::Lover, Role::Lover, Role::CultLeader, Role::Fanatic]);

    assert_eq!(
        start_announcement(&four_player_game()),
        "게임을 시작합니다. 참가자 4명에게 역할을 DM으로 보냅니다.\n역할 구성: 마피아 1명(중 특수 0명), 의사 1명, 수사직 1명, 시민 1명(중 특수 0명)"
    );
}

#[test]
fn contractor_draft_follows_the_current_targets() {
    let mut draft = ContractorContractDraft {
        target_ids: [Some(10), Some(20)],
        guessed_roles: [Some(Role::Citizen), Some(Role::Doctor)],
    };
    refresh_contractor_draft(&mut draft, &vec![10, 30], &vec![Role::Citizen, Role::Mafia]);
    assert_eq!(draft.target_ids, [Some(10), None]);
    assert_eq!(draft.guessed_roles, [Some(Role::Citizen), None]);

    let mut same = ContractorContractDraft {
        target_ids: [Some(30), Some(30)],
        guessed_roles: [Some(Role::Mafia), Some(Role::Mafia)],
    };
    refresh_contractor_draft(&mut same, &vec![30], &vec![Role::Mafia]);
    assert_eq!(same.target_ids, [Some(30), None]);
    assert_eq!(same.guessed_roles, [Some(Role::Mafia), None]);

    let mut guess_only = ContractorContractDraft {
        target_ids: [None, Some(30)],
        guessed_roles: [Some(Role::Doctor), Some(Role::Mafia)],
    };
    refresh_contractor_draft(&mut guess_only, &vec![30], &vec![Role::Mafia]);
    assert_eq!(guess_only.target_ids, [None, Some(30)]);
    assert_eq!(guess_only.guessed_roles, [None, Some(Role::Mafia)]);
}

#[test]
fn role_status_targets_follow_user_ids() {
    let mut running = running_of(four_player_game(), false);
    running.anonymous_role_input_channel_ids = vec![
        ((3, Role::Mafia), 303),
        ((1, Role::Mafia), 101),
        ((2, Role::Doctor), 202),
    ];
    assert_eq!(anonymous_role_status_targets(&running, Role::Mafia), None);
    running.anonymous_enabled = true;
    assert_eq!(
        anonymous_role_status_targets(&running, Role::Mafia),
        Some(vec![((1, Role::Mafia), 101), ((3, Role::Mafia), 303)])
    );
    assert_eq!(anonymous_role_status_targets(&running, Role::Police), Some(vec![]));
}

#[test]
fn table_settings_forms() {
    assert_eq!(
        settings_request(GameKind::Holdem, "200", "ignored", "5000~20000", "ignored", "30"),
        Ok(SettingsRequest {
            min_bet: None,
            max_bet: None,
            big_blind: Some(200),
            min_buy_in: Some(5000),
            max_buy_in: Some(20000),
            side_bet_max: None,
            turn_secs: Some(30),
        })
    );
    assert_eq!(
        settings_request(GameKind::Blackjack, "x", "100~5,000", "", "250", ""),
        Ok(SettingsRequest {
            min_bet: Some(100),
            max_bet: Some(5000),
            big_blind: None,
            min_buy_in: None,
            max_buy_in: None,
            side_bet_max: Some(250),
            turn_secs: None,
        })
    );
    assert_eq!(
        settings_request(GameKind::Holdem, "abc", "", "", "", ""),
        Err("숫자로 입력하세요: abc".to_string())
    );
    assert_eq!(
        settings_request(GameKind::Blackjack, "", "1~2~3", "", "", ""),
        Err("범위는 5000~20000처럼 입력하세요.".to_string())
    );
}

#[test]
fn finished_games_show_real_names() {
    let mut running = running_of(four_player_game(), true);
    running.anonymous_aliases = vec![(1, "너구리".to_string())];
    running.anonymous_original_names = vec![(1, "진짜1".to_string())];
    running.anonymous_role_input_channel_ids = vec![((1, Role::Mafia), 5)];
    running.private_channel_ids = vec![(Role::Mafia, 7)];
    running.memo_channel_ids = vec![(2, 8)];
    running.shaman_channel_id = Some(9);
    running.channel_slowmode_cache = vec![(100, 3)];
    running.game_status_message_id = Some(11);
    let deleted = finish_game(&mut running);
    assert_eq!(deleted, vec![7, 8, 5, 9]);
    assert!(running.private_channel_ids.is_empty());
    assert!(running.memo_channel_ids.is_empty());
    assert!(running.channel_slowmode_cache.is_empty());
    assert_eq!(running.shaman_channel_id, None);
    assert_eq!(running.game_status_message_id, None);
    assert_eq!(running.channel_id, 100);
    assert_eq!(running.game.phase, Phase::Ended);
    assert_eq!(running.game.players[0].name, "진짜1");
    assert_eq!(running.game.players[1].name, "p2");
    assert!(running.anonymous_aliases.is_empty());
    assert!(running.anonymous_original_names.is_empty());
    assert!(running.anonymous_role_input_channel_ids.is_empty());
}

#[test]
fn status_replies_are_private_only_for_anonymous_players() {
    let open = running_of(four_player_game(), false);
    assert!(!status_reply_is_private(&open, 1));
    let anonymous = running_of(four_player_game(), true);
    assert!(status_reply_is_private(&anonymous, 1));
    assert!(!status_reply_is_private(&anonymous, 99));
}

#[test]
fn random_draw_takes_the_configured_number_of_specials() {
    let mut cfg = config();
    cfg.default_mafia_count = 3;
    cfg.mafia_special_count = 1;
    cfg.enable_spy = true;
    cfg.enable_witch = true;
    cfg.enable_godfather = true;
    for _ in 0..20 {
        let drawn = choose_special_roles(&cfg).unwrap();
        assert_eq!(drawn.len(), 2);
        let mafia_side: Vec<&Role> = drawn
            .iter()
            .filter(|role| matches!(role, Role::Spy | Role::Witch | Role::Godfather))
            .collect();
        assert_eq!(mafia_side.len(), 1);
        assert!(matches!(drawn[0], Role::Detective | Role::Inspector));
    }
}

#[test]
fn a_stopped_game_records_the_roles_dealt_at_the_start() {
    let mut running = running_of(four_player_game(), false);
    running.initial_roles = initial_roles_of(&running.game);
    assert_eq!(running.initial_roles, vec![(1, Role::Mafia), (2, Role::Doctor), (3, Role::Police), (4, Role::Citizen)]);
    running.game.players[3].role = Role::Mafia;
    running.initial_roles.retain(|(id, _)| *id != 2);
    running.game.players[1].role = Role::Nurse;
    let recorded = aborted_assignments(&running);
    assert_eq!(
        recorded,
        vec![
            (1, "p1".to_string(), Role::Mafia),
            (2, "p2".to_string(), Role::Nurse),
            (3, "p3".to_string(), Role::Police),
            (4, "p4".to_string(), Role::Citizen),
        ]
    );
}
