use mafia_bot::config::BotConfig;
use mafia_bot::input::{anonymous_avatar_url, own_choice_check};
use mafia_bot::lobby::{
    auto_start_open_check, finish_recruitment, join_recruitment, set_name, spectate_recruitment,
    submit_auto_start,
};
use mafia_bot::recruitment::Recruitment;
use mafia_bot::role_map::RoleMap;
use std::collections::HashSet;

fn lobby_config() -> BotConfig {
    BotConfig {
        game_enabled: true,
        participant_role: "참가자".to_string(),
        manager_role: "관리자".to_string(),
        default_mafia_count: 1,
        default_doctor_count: 0,
        default_police_count: 1,
        default_joker_count: 0,
        max_player_count: 0,
        recruitment_seconds: 60,
        night_seconds: 30,
        discussion_seconds: 30,
        vote_seconds: 30,
        chat_slowmode_seconds: 0,
        reveal_death_roles: false,
        reveal_public_police_status: true,
        reveal_morning_mafia_count: true,
        show_confirmation_vote_counts: true,
        citizen_special_count: 1,
        mafia_special_count: 0,
        neutral_special_count: 0,
        enable_detective: true,
        enable_inspector: true,
        enable_graverobber: false,
        enable_spy: false,
        enable_contractor: false,
        enable_fraudster: false,
        enable_witch: false,
        enable_scientist: false,
        enable_madam: false,
        enable_godfather: false,
        enable_joker: false,
        enable_politician: false,
        enable_judge: false,
        enable_reporter: false,
        enable_hacker: false,
        enable_terrorist: false,
        enable_lover: false,
        enable_civil_servant: false,
        enable_paparazzi: false,
        enable_shaman: false,
        enable_priest: false,
        enable_soldier: false,
        enable_nurse: false,
        enable_gangster: false,
        enable_prophet: false,
        enable_psychologist: false,
        enable_hypnotist: false,
        enable_mercenary: false,
        enable_thief: false,
        enable_cult_team: false,
        use_agent: true,
        use_vigilante: true,
        anonymous_mode: false,
        anonymous_name_mode: "animal".to_string(),
        blacklist_user_ids: Vec::new(),
    }
}

fn lobby() -> Recruitment {
    Recruitment {
        host_user_id: 1,
        participant_role_id: 10,
        spectator_role_id: Some(11),
        role_counts: RoleMap::new(),
        special_roles: Vec::new(),
        max_players: 5,
        minimum_players: 4,
        joined_ids: HashSet::from([1, 2, 3]),
        joined_names: vec![(1, "호스트".to_string()), (2, "둘".to_string()), (3, "셋".to_string())],
        spectator_ids: HashSet::from([7]),
        spectator_names: vec![(7, "구경꾼".to_string())],
        accepting: true,
        cancelled: false,
        auto_start_players: None,
        recruitment_seconds: 60,
    }
}

#[test]
fn joining_adds_the_player_and_their_name() {
    let mut rec = lobby();
    let cfg = lobby_config();
    assert_eq!(join_recruitment(&mut rec, &cfg, 4, "넷".to_string()), Ok(("참가 완료!".to_string(), false)));
    assert!(rec.joined_ids.contains(&4));
    assert_eq!(rec.joined_names.last(), Some(&(4, "넷".to_string())));
    assert!(rec.accepting);
}

#[test]
fn joining_is_refused_for_the_right_reasons() {
    let mut cfg = lobby_config();
    cfg.blacklist_user_ids = vec![9];
    let mut rec = lobby();
    assert_eq!(join_recruitment(&mut rec, &cfg, 9, "x".to_string()), Err("블랙리스트에 등록된 유저는 참가할 수 없습니다.".to_string()));
    assert_eq!(join_recruitment(&mut rec, &cfg, 2, "x".to_string()), Err("이미 참가했습니다.".to_string()));
    assert_eq!(join_recruitment(&mut rec, &cfg, 7, "x".to_string()), Err("이미 관전자로 등록되어 있습니다.".to_string()));
    join_recruitment(&mut rec, &cfg, 4, "넷".to_string()).unwrap();
    join_recruitment(&mut rec, &cfg, 5, "다섯".to_string()).unwrap();
    assert_eq!(
        join_recruitment(&mut rec, &cfg, 6, "x".to_string()),
        Err("최대 참가 인원 5명에 도달해 더 이상 참가할 수 없습니다.".to_string())
    );
    assert_eq!(rec.joined_ids.len(), 5);
    rec.accepting = false;
    assert_eq!(join_recruitment(&mut rec, &cfg, 6, "x".to_string()), Err("참가자 모집이 종료되었습니다.".to_string()));
}

#[test]
fn reaching_the_automatic_start_closes_the_recruitment() {
    let mut rec = lobby();
    rec.auto_start_players = Some(4);
    let cfg = lobby_config();
    assert_eq!(
        join_recruitment(&mut rec, &cfg, 4, "넷".to_string()),
        Ok(("참가 완료! 자동시작 인원이 모여 바로 시작합니다.".to_string(), true))
    );
    assert!(!rec.accepting);
}

#[test]
fn spectating() {
    let mut rec = lobby();
    assert_eq!(spectate_recruitment(&mut rec, 2, "x".to_string()), Err("이미 참가자로 등록되어 있습니다.".to_string()));
    assert_eq!(spectate_recruitment(&mut rec, 7, "x".to_string()), Err("이미 관전자로 등록되어 있습니다.".to_string()));
    assert_eq!(spectate_recruitment(&mut rec, 8, "여덟".to_string()), Ok("관전 등록 완료!".to_string()));
    assert!(rec.spectator_ids.contains(&8));
    assert_eq!(rec.spectator_names, vec![(7, "구경꾼".to_string()), (8, "여덟".to_string())]);
    rec.accepting = false;
    assert_eq!(spectate_recruitment(&mut rec, 9, "x".to_string()), Err("참가자 모집이 종료되었습니다.".to_string()));
}

#[test]
fn a_stored_name_replaces_the_earlier_one() {
    let mut names = vec![(1, "a".to_string()), (2, "b".to_string())];
    set_name(&mut names, 2, "c".to_string());
    assert_eq!(names, vec![(1, "a".to_string()), (2, "c".to_string())]);
    set_name(&mut names, 3, "d".to_string());
    assert_eq!(names, vec![(1, "a".to_string()), (2, "c".to_string()), (3, "d".to_string())]);
}

#[test]
fn automatic_start_form() {
    let mut rec = lobby();
    assert_eq!(auto_start_open_check(&rec, 2), Some("게임을 모집한 주최자만 사용할 수 있습니다."));
    assert_eq!(auto_start_open_check(&rec, 1), None);
    assert_eq!(submit_auto_start(&mut rec, 2, "4"), Err("게임을 모집한 주최자만 사용할 수 있습니다.".to_string()));
    assert_eq!(submit_auto_start(&mut rec, 1, "넷"), Err("인원은 4~5 사이의 숫자로 입력하세요.".to_string()));
    assert_eq!(
        submit_auto_start(&mut rec, 1, "9"),
        Err("자동시작 인원은 최소 시작 인원 4명 이상, 최대 참가 인원 5명 이하여야 합니다.".to_string())
    );
    assert_eq!(rec.auto_start_players, None);
    assert_eq!(submit_auto_start(&mut rec, 1, " 5 "), Ok(("참가자가 5명이 되면 즉시 시작합니다.".to_string(), false)));
    assert_eq!(rec.auto_start_players, Some(5));
    assert!(rec.accepting);
    rec.minimum_players = 3;
    assert_eq!(submit_auto_start(&mut rec, 1, "3"), Ok(("이미 3명이 모여 있어 바로 시작합니다.".to_string(), true)));
    assert!(!rec.accepting);
    assert_eq!(auto_start_open_check(&rec, 1), Some("참가자 모집이 종료되었습니다."));
}

#[test]
fn starting_and_cancelling() {
    let mut rec = lobby();
    assert_eq!(finish_recruitment(&mut rec, 2, false), Err("게임을 모집한 주최자만 사용할 수 있습니다.".to_string()));
    assert_eq!(
        finish_recruitment(&mut rec, 1, false),
        Err("아직 시작할 수 없습니다. 최소 4명이 필요합니다. 현재 3명입니다.".to_string())
    );
    assert!(rec.accepting);
    assert_eq!(finish_recruitment(&mut rec, 1, true), Ok(()));
    assert!(rec.cancelled);
    assert!(!rec.accepting);
    let mut rec = lobby();
    rec.minimum_players = 3;
    assert_eq!(finish_recruitment(&mut rec, 1, false), Ok(()));
    assert!(!rec.cancelled);
    assert!(!rec.accepting);
}

#[test]
fn anonymous_avatars() {
    let colors = vec!["aa0000".to_string(), "00bb00".to_string()];
    assert_eq!(
        anonymous_avatar_url("3번", &colors, None),
        Some("https://dummyimage.com/128x128/aa0000/ffffff.png&text=3".to_string())
    );
    assert_eq!(
        anonymous_avatar_url("2번", &colors, Some("ignored")),
        Some("https://dummyimage.com/128x128/00bb00/ffffff.png&text=2".to_string())
    );
    assert_eq!(
        anonymous_avatar_url("0번", &colors, None),
        Some("https://dummyimage.com/128x128/aa0000/ffffff.png&text=0".to_string())
    );
    assert_eq!(
        anonymous_avatar_url("여우", &colors, Some("1f98a")),
        Some("https://cdn.jsdelivr.net/gh/twitter/twemoji@14.0.2/assets/72x72/1f98a.png".to_string())
    );
    assert_eq!(anonymous_avatar_url("번", &colors, None), None);
    assert_eq!(anonymous_avatar_url("여우", &colors, None), None);
}

#[test]
fn only_the_player_a_choice_was_sent_to_may_use_it() {
    assert_eq!(own_choice_check(5, 6), Some("본인에게 온 선택지만 사용할 수 있습니다."));
    assert_eq!(own_choice_check(6, 6), None);
}
