use mafia_bot::admin::{
    add_to_blacklist, configure_anonymous_mode, configure_extra_roles, configure_game,
    configure_investigation_role, configure_player_limit, remove_from_blacklist, set_game_enabled,
    show_blacklist, ExtraRoleChanges, GameSettingsChanges,
};
use mafia_bot::config::{is_blacklisted, BotConfig};

fn base_config() -> BotConfig {
    BotConfig {
        game_enabled: true,
        participant_role: "참가자".to_string(),
        manager_role: "관리자".to_string(),
        default_mafia_count: 1,
        default_doctor_count: 0,
        default_police_count: 1,
        default_joker_count: 0,
        max_player_count: 0,
        recruitment_seconds: 60,
        night_seconds: 30,
        discussion_seconds: 30,
        vote_seconds: 30,
        chat_slowmode_seconds: 0,
        reveal_death_roles: false,
        reveal_public_police_status: true,
        reveal_morning_mafia_count: true,
        show_confirmation_vote_counts: true,
        citizen_special_count: 1,
        mafia_special_count: 0,
        neutral_special_count: 0,
        enable_detective: true,
        enable_inspector: true,
        enable_graverobber: false,
        enable_spy: false,
        enable_contractor: false,
        enable_fraudster: false,
        enable_witch: false,
        enable_scientist: false,
        enable_madam: false,
        enable_godfather: false,
        enable_joker: false,
        enable_politician: false,
        enable_judge: false,
        enable_reporter: false,
        enable_hacker: false,
        enable_terrorist: false,
        enable_lover: false,
        enable_civil_servant: false,
        enable_paparazzi: false,
        enable_shaman: false,
        enable_priest: false,
        enable_soldier: false,
        enable_nurse: false,
        enable_gangster: false,
        enable_prophet: false,
        enable_psychologist: false,
        enable_hypnotist: false,
        enable_mercenary: false,
        enable_thief: false,
        enable_cult_team: false,
        use_agent: true,
        use_vigilante: true,
        anonymous_mode: false,
        anonymous_name_mode: "animal".to_string(),
        blacklist_user_ids: Vec::new(),
    }
}

#[test]
fn a_mafia_count_of_zero_is_refused_and_nothing_changes() {
    let mut cfg = base_config();
    let changes = GameSettingsChanges { mafia: Some(0), doctor: Some(true), ..Default::default() };
    let reply = configure_game(&mut cfg, &changes);
    assert_eq!(reply, Err("마피아는 최소 1명이어야 합니다.".to_string()));
    assert_eq!(cfg.default_mafia_count, 1);
    assert_eq!(cfg.default_doctor_count, 0);
}

#[test]
fn accepted_settings_stay_and_are_shown() {
    let mut cfg = base_config();
    let changes = GameSettingsChanges {
        mafia: Some(2),
        doctor: Some(true),
        police: Some(false),
        slowmode: Some(5),
        death_role_reveal: Some(true),
        joker: Some(true),
        ..Default::default()
    };
    let reply = configure_game(&mut cfg, &changes).unwrap();
    assert!(reply.starts_with("마피아 설정을 저장했습니다.\n게임 상태: 활성화\n기본 직업: 마피아 2명, 의사 활성화, 수사직 비활성화"));
    assert_eq!(cfg.default_mafia_count, 2);
    assert_eq!(cfg.default_doctor_count, 1);
    assert_eq!(cfg.default_police_count, 0);
    assert_eq!(cfg.chat_slowmode_seconds, 5);
    assert!(cfg.reveal_death_roles);
    assert!(cfg.enable_joker);
    assert_eq!(cfg.citizen_special_count, 1);
}

#[test]
fn a_player_limit_below_the_smallest_game_puts_everything_back() {
    let mut cfg = base_config();
    cfg.max_player_count = 3;
    let changes = GameSettingsChanges { mafia: Some(3), doctor: Some(true), ..Default::default() };
    let reply = configure_game(&mut cfg, &changes);
    assert_eq!(
        reply,
        Err("현재 설정의 최소 시작 인원은 7명이라 최대 인원 3명으로 시작할 수 없습니다.".to_string())
    );
    assert_eq!(cfg.default_mafia_count, 1);
    assert_eq!(cfg.default_doctor_count, 0);
}

#[test]
fn more_mafia_specials_than_mafia_are_refused() {
    let mut cfg = base_config();
    let changes = GameSettingsChanges {
        mafia_special: Some(2),
        spy: Some(true),
        witch: Some(true),
        ..Default::default()
    };
    let reply = configure_game(&mut cfg, &changes);
    assert_eq!(
        reply,
        Err("마피아 특수룰 수는 전체 마피아 수보다 많을 수 없습니다. 현재 마피아 1명, 마피아 특수 2명입니다.".to_string())
    );
    assert_eq!(cfg.mafia_special_count, 0);
    assert!(!cfg.enable_spy);
    assert!(!cfg.enable_witch);
}

#[test]
fn citizen_seats_that_cannot_be_filled_are_refused() {
    let mut cfg = base_config();
    let changes = GameSettingsChanges { citizen_special: Some(5), ..Default::default() };
    let reply = configure_game(&mut cfg, &changes);
    assert_eq!(
        reply,
        Err("활성화된 시민 특수 역할로 설정한 인원 수를 구성할 수 없습니다. 연인은 2명으로 계산됩니다.".to_string())
    );
    assert_eq!(cfg.citizen_special_count, 1);
}

#[test]
fn extra_roles_and_investigation_switches() {
    let mut cfg = base_config();
    let extra = ExtraRoleChanges { nurse: Some(true), cult_team: Some(true), thief: Some(false), ..Default::default() };
    let reply = configure_extra_roles(&mut cfg, &extra);
    assert!(reply.starts_with("마피아 추가 설정을 저장했습니다.\n"));
    assert!(cfg.enable_nurse);
    assert!(cfg.enable_cult_team);
    assert!(!cfg.enable_thief);
    assert!(!cfg.enable_lover);
    let reply = configure_investigation_role(&mut cfg, Some(false), None);
    assert!(reply.starts_with("마피아 수사 설정을 저장했습니다.\n"));
    assert!(!cfg.use_agent);
    assert!(cfg.use_vigilante);
}

#[test]
fn anonymous_mode_and_enabling() {
    let mut cfg = base_config();
    let reply = configure_anonymous_mode(&mut cfg, true, Some("number".to_string()));
    assert!(reply.ends_with("익명 채팅: 켜짐\n익명 이름 방식: 번호"));
    assert!(cfg.anonymous_mode);
    assert_eq!(cfg.anonymous_name_mode, "number");
    let reply = configure_anonymous_mode(&mut cfg, false, None);
    assert!(reply.ends_with("익명 채팅: 꺼짐\n익명 이름 방식: 번호"));
    assert_eq!(set_game_enabled(&mut cfg, false), "마피아 게임을 비활성화했습니다. 새 게임을 시작할 수 없습니다.");
    assert!(!cfg.game_enabled);
    assert_eq!(set_game_enabled(&mut cfg, true), "마피아 게임을 활성화했습니다. 이제 새 게임을 시작할 수 있습니다.");
    assert!(cfg.game_enabled);
}

#[test]
fn player_limit_options_are_checked() {
    let mut cfg = base_config();
    assert_eq!(configure_player_limit(&mut cfg, None, None, 30, 300), Err("변경할 값을 하나 이상 입력하세요.".to_string()));
    assert_eq!(
        configure_player_limit(&mut cfg, Some(30), None, 30, 300),
        Err("최대 인원은 24명 이하로 설정해야 합니다.".to_string())
    );
    assert_eq!(
        configure_player_limit(&mut cfg, Some(10), Some(5), 30, 300),
        Err("모집 시간은 30~300초 사이여야 합니다.".to_string())
    );
    assert_eq!(cfg.max_player_count, 0);
    let reply = configure_player_limit(&mut cfg, Some(10), Some(90), 30, 300).unwrap();
    assert!(reply.starts_with("마피아 인원 설정을 저장했습니다.\n"));
    assert!(reply.contains("참가자 모집 시간: 90초"));
    assert_eq!(cfg.max_player_count, 10);
    assert_eq!(cfg.recruitment_seconds, 90);
    configure_player_limit(&mut cfg, Some(24), None, 30, 300).unwrap();
    assert_eq!(cfg.max_player_count, 24);
    assert_eq!(cfg.recruitment_seconds, 90);
}

#[test]
fn blacklist_commands() {
    let mut cfg = base_config();
    assert_eq!(show_blacklist(&cfg), "블랙리스트가 비어 있습니다.");
    assert_eq!(add_to_blacklist(&mut cfg, 30, "철수"), "철수 님을 블랙리스트에 추가했습니다. 이제 게임에 참가할 수 없습니다.");
    add_to_blacklist(&mut cfg, 10, "영희");
    add_to_blacklist(&mut cfg, 20, "민수");
    assert_eq!(cfg.blacklist_user_ids, vec![10, 20, 30]);
    assert_eq!(add_to_blacklist(&mut cfg, 20, "민수"), "민수 님은 이미 블랙리스트에 있습니다.");
    assert_eq!(cfg.blacklist_user_ids, vec![10, 20, 30]);
    assert!(is_blacklisted(&cfg, 20));
    assert_eq!(remove_from_blacklist(&mut cfg, 20, "민수"), "민수 님을 블랙리스트에서 해제했습니다. 이제 게임에 참가할 수 있습니다.");
    assert!(!is_blacklisted(&cfg, 20));
    assert_eq!(cfg.blacklist_user_ids, vec![10, 30]);
    assert_eq!(remove_from_blacklist(&mut cfg, 99, "없는사람"), "없는사람 님은 블랙리스트에 없습니다.");
    assert_eq!(show_blacklist(&cfg), "1. `10`\n2. `30`");
}

#[test]
fn an_unsorted_blacklist_is_sorted_when_a_user_is_added() {
    let mut cfg = base_config();
    cfg.blacklist_user_ids = vec![9, 3, 7, 3];
    add_to_blacklist(&mut cfg, 5, "a");
    assert_eq!(cfg.blacklist_user_ids, vec![3, 3, 5, 7, 9]);
    remove_from_blacklist(&mut cfg, 3, "a");
    assert_eq!(cfg.blacklist_user_ids, vec![5, 7, 9]);
}

#[test]
fn long_blacklists_show_fifty_lines() {
    let mut cfg = base_config();
    cfg.blacklist_user_ids = (1..=60).collect();
    let text = show_blacklist(&cfg);
    assert_eq!(text.lines().count(), 50);
    assert!(text.starts_with("1. `1`\n2. `2`"));
    assert!(text.ends_with("50. `50`"));
}
