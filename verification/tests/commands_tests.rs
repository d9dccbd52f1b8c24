use mafia_bot::casino::{
    parse_amount, parse_range, render_casino_panel, webhook_unusable, GameKind, TableSettings, TableSummary, WebhookError,
};
use mafia_bot::forms::{
    bet_modal, create_table_modal, panel_components, panel_select, recruitment_components, status_components, table_settings_modal,
    ButtonStyle, Modal,
};
use mafia_bot::contractor::{
    contractor_draft_submission, set_contractor_draft_target, ContractorContractDraft,
};
use mafia_bot::game::{MafiaGame, Phase, Player};
use mafia_bot::role::Role;
use mafia_bot::running::{
    anonymous_sender_label, memo_alias_choices, memo_target, RunningGame,
    MEMO_ANONYMOUS_TARGET_GUIDE,
};

fn dead_chat_test_running() -> RunningGame {
    let game = MafiaGame::with_players(
        vec![
            Player::new(1, "p1".to_string(), Role::Mafia),
            Player::new(2, "p2".to_string(), Role::Doctor),
            Player::new(3, "p3".to_string(), Role::Police),
            Player::new(4, "p4".to_string(), Role::Citizen),
        ],
        Phase::Night,
        1,
    );
    RunningGame::new(game, false, 100)
}

fn set_alias(running: &mut RunningGame, user_id: u64, alias: &str) {
    running.anonymous_aliases.retain(|(id, _)| *id != user_id);
    running.anonymous_aliases.push((user_id, alias.to_string()));
}

#[test]
fn contractor_draft_replaces_role_when_target_changes_and_resolves_duplicates() {
    let mut draft = ContractorContractDraft {
        target_ids: [Some(10), Some(20)],
        guessed_roles: [Some(Role::Citizen), Some(Role::Mafia)],
        ..Default::default()
    };

    set_contractor_draft_target(&mut draft, 0, 30).unwrap();

    assert_eq!(draft.target_ids, [Some(30), Some(20)]);
    assert_eq!(draft.guessed_roles, [Some(Role::Citizen), Some(Role::Mafia)]);

    set_contractor_draft_target(&mut draft, 1, 30).unwrap();
    assert_eq!(draft.target_ids, [None, Some(30)]);
    assert_eq!(draft.guessed_roles, [None, Some(Role::Mafia)]);
}

#[test]
fn contractor_draft_submission_requires_both_targets_and_roles() {
    let mut draft = ContractorContractDraft::default();
    assert_eq!(contractor_draft_submission(&draft), None);

    draft.target_ids = [Some(10), Some(20)];
    draft.guessed_roles = [Some(Role::Citizen), Some(Role::Mafia)];

    assert_eq!(
        contractor_draft_submission(&draft),
        Some((10, 20, Role::Citizen, Role::Mafia))
    );
}

#[test]
fn anonymous_sender_labels_only_use_the_configured_alias() {
    let mut running = dead_chat_test_running();
    running.anonymous_enabled = true;
    let shaman = Player::new(7, "영매 실제 이름".to_string(), Role::Shaman);
    let mut dead = Player::new(8, "사망자 실제 이름".to_string(), Role::Citizen);
    dead.alive = false;
    set_alias(&mut running, shaman.user_id, "3번");
    set_alias(&mut running, dead.user_id, "너구리");

    assert_eq!(anonymous_sender_label(&running, &shaman), "3번");
    assert_eq!(anonymous_sender_label(&running, &dead), "너구리");
}

#[test]
fn non_anonymous_sender_labels_keep_the_real_name() {
    let mut running = dead_chat_test_running();
    running.anonymous_enabled = false;
    let sender = Player::new(7, "마피아 실제 이름".to_string(), Role::Mafia);
    set_alias(&mut running, sender.user_id, "3번");

    assert_eq!(anonymous_sender_label(&running, &sender), "마피아 실제 이름");
}

fn memo_test_running(anonymous_enabled: bool) -> RunningGame {
    let mut running = dead_chat_test_running();
    running.anonymous_enabled = anonymous_enabled;
    running.anonymous_aliases = vec![
        (1, "너구리".to_string()),
        (2, "고양이".to_string()),
        (3, "다람쥐".to_string()),
        (4, "고라니".to_string()),
    ];
    running
}

#[test]
fn anonymous_memo_rejects_real_user_targets_without_revealing_anything() {
    let running = memo_test_running(true);

    let participant = memo_target(&running, Some(2), None).unwrap_err();
    let outsider = memo_target(&running, Some(999), None).unwrap_err();
    let with_alias = memo_target(&running, Some(2), Some("고양이")).unwrap_err();

    assert_eq!(participant, MEMO_ANONYMOUS_TARGET_GUIDE);
    assert_eq!(outsider, participant);
    assert_eq!(with_alias, participant);
    for (_, alias) in &running.anonymous_aliases {
        assert!(!participant.contains(alias.as_str()));
    }
}

#[test]
fn anonymous_memo_targets_are_chosen_by_alias() {
    let running = memo_test_running(true);

    assert_eq!(memo_target(&running, None, Some(" 다람쥐 ")).unwrap().user_id, 3);
    assert_eq!(
        memo_target(&running, None, None).unwrap_err(),
        MEMO_ANONYMOUS_TARGET_GUIDE
    );
    assert_eq!(
        memo_target(&running, None, Some("  ")).unwrap_err(),
        MEMO_ANONYMOUS_TARGET_GUIDE
    );
    assert!(memo_target(&running, None, Some("p3")).is_err());
    assert!(memo_target(&running, None, Some("호랑이")).is_err());
}

#[test]
fn non_anonymous_memo_still_targets_the_selected_user() {
    let running = memo_test_running(false);

    assert_eq!(memo_target(&running, Some(2), None).unwrap().user_id, 2);
    assert_eq!(memo_target(&running, Some(2), Some("다람쥐")).unwrap().user_id, 2);
    assert_eq!(
        memo_target(&running, Some(999), None).unwrap_err(),
        "메모 대상은 현재 게임 참가자여야 합니다."
    );
    assert_eq!(
        memo_target(&running, None, Some("다람쥐")).unwrap_err(),
        "메모 대상 참가자를 선택하세요."
    );
}

#[test]
fn memo_alias_choices_only_list_anonymous_aliases_by_name() {
    assert!(memo_alias_choices(&memo_test_running(false), "").is_empty());

    let running = memo_test_running(true);
    assert_eq!(
        memo_alias_choices(&running, ""),
        vec!["고라니", "고양이", "너구리", "다람쥐"]
    );
    assert_eq!(memo_alias_choices(&running, " 고 "), vec!["고라니", "고양이"]);
    assert!(memo_alias_choices(&running, "p1").is_empty());
}

#[test]
fn parse_ranges_accept_common_formats() {
    assert_eq!(parse_range("5000~20000").unwrap(), (Some(5000), Some(20000)));
    assert_eq!(parse_range("5,000 ~ 20,000").unwrap(), (Some(5000), Some(20000)));
    assert_eq!(parse_range("5000-20000").unwrap(), (Some(5000), Some(20000)));
    assert_eq!(parse_range("5000").unwrap(), (Some(5000), None));
    assert_eq!(parse_range("").unwrap(), (None, None));
}

#[test]
fn parse_amount_rejects_invalid_or_huge_values() {
    assert_eq!(parse_amount("5000원").unwrap(), Some(5000));
    assert!(parse_amount("abc").is_err());
    assert!(parse_range("1~2~3").is_err());
    assert!(parse_range("-5").is_err());
    assert!(parse_amount("10000000001").is_err());
}

#[test]
fn panel_render_handles_empty_and_two_tables() {
    assert!(render_casino_panel(&[]).contains("열려 있는 테이블이 없습니다."));
    let summaries = vec![
        TableSummary {
            id: "h1".to_string(),
            kind: GameKind::Holdem,
            kind_text: "홀덤".to_string(),
            name: "하이 롤러".to_string(),
            seated: 2,
            seat_count: 6,
            playing: true,
            phase_text: Some("베팅".to_string()),
            channel_id: Some(100),
            stakes: "블라인드 50/100".to_string(),
        },
        TableSummary {
            id: "b1".to_string(),
            kind: GameKind::Blackjack,
            kind_text: "블랙잭".to_string(),
            name: "블랙잭".to_string(),
            seated: 1,
            seat_count: 6,
            playing: false,
            phase_text: None,
            channel_id: None,
            stakes: "베팅 100~5,000".to_string(),
        },
    ];
    let rendered = render_casino_panel(&summaries);
    assert!(rendered.contains("열린 테이블 (2/12)"));
    assert!(rendered.contains("진행 중") && rendered.contains("대기 중"));
    assert!(rendered.contains("<#100>") && !rendered.contains("<#0>"));
}

fn has_input(modal: &Modal, id: &str) -> bool {
    modal.inputs.iter().any(|input| input.custom_id == id)
}

fn no_empty_values(modal: &Modal) -> bool {
    modal.inputs.iter().all(|input| input.value.as_deref() != Some(""))
}

#[test]
fn holdem_create_modal_has_four_nonempty_inputs() {
    let modal = create_table_modal(GameKind::Holdem);
    assert_eq!(modal.inputs.len(), 4);
    for id in ["name", "big_blind", "buy_in_range", "turn_secs"] {
        assert!(has_input(&modal, id));
    }
    assert!(no_empty_values(&modal));
    assert!(modal.inputs.iter().any(|input| input.max_length == 24));
}

#[test]
fn blackjack_create_modal_has_five_nonempty_inputs() {
    let modal = create_table_modal(GameKind::Blackjack);
    assert_eq!(modal.inputs.len(), 5);
    for id in ["name", "bet_range", "side_max", "buy_in_range", "turn_secs"] {
        assert!(has_input(&modal, id));
    }
    assert!(no_empty_values(&modal));
    assert_eq!(modal.custom_id, "casino_create:blackjack");
}

#[test]
fn settings_modals_prefill_without_empty_values() {
    let settings = TableSettings {
        min_bet: 100,
        max_bet: 5000,
        big_blind: 100,
        min_buy_in: 5000,
        max_buy_in: 20000,
        side_bet_max: 2500,
        turn_ms: 30000,
    };
    let holdem = table_settings_modal("holdem-1", GameKind::Holdem, "홀덤", settings);
    let blackjack = table_settings_modal("blackjack-1", GameKind::Blackjack, "블랙잭", settings);
    assert_eq!(holdem.inputs.len(), 4);
    assert_eq!(blackjack.inputs.len(), 5);
    assert!(no_empty_values(&holdem));
    assert!(no_empty_values(&blackjack));
    assert_eq!(holdem.custom_id, "casino_settings:holdem-1");
    assert_eq!(blackjack.custom_id, "casino_settings:blackjack-1");
    assert_eq!(holdem.title, "홀덤 설정");
    assert_eq!(holdem.inputs[1].value.as_deref(), Some("100"));
    assert_eq!(holdem.inputs[2].value.as_deref(), Some("5000~20000"));
    assert_eq!(blackjack.inputs[1].value.as_deref(), Some("100~5000"));
    assert_eq!(blackjack.inputs[4].value.as_deref(), Some("30"));
}

#[test]
fn long_table_names_are_cut_in_the_settings_title() {
    let settings = TableSettings {
        min_bet: 0,
        max_bet: 0,
        big_blind: 0,
        min_buy_in: 0,
        max_buy_in: 0,
        side_bet_max: 0,
        turn_ms: 0,
    };
    let name = "가".repeat(50);
    let modal = table_settings_modal("t", GameKind::Holdem, &name, settings);
    assert_eq!(modal.title.chars().count(), 45);
    assert_eq!(modal.inputs[0].value.as_deref(), Some(name.as_str()));
    let unnamed = table_settings_modal("t", GameKind::Holdem, "", settings);
    assert_eq!(unnamed.inputs[0].value, None);
    assert_eq!(unnamed.inputs[1].value.as_deref(), Some("0"));
}

#[test]
fn panel_components_use_only_static_custom_ids() {
    let rows = panel_components();
    let ids: Vec<&str> = rows.iter().flatten().map(|button| button.custom_id.as_str()).collect();
    for id in [
        "casino_panel:enter",
        "casino_panel:me",
        "casino_panel:create_holdem",
        "casino_panel:create_blackjack",
        "casino_panel:settings",
        "casino_panel:close",
    ] {
        assert!(ids.contains(&id));
    }
    assert!(!ids.iter().any(|id| id.contains("123456789")));
}

#[test]
fn recruitment_buttons_carry_the_server() {
    let rows = recruitment_components(42, true);
    let ids: Vec<&str> = rows[0].iter().map(|button| button.custom_id.as_str()).collect();
    assert_eq!(ids, vec!["join:42", "spectate:42", "startnow:42", "autostart:42", "cancelrec:42"]);
    assert!(rows[0].iter().all(|button| button.disabled));
    assert_eq!(rows[0][4].style, ButtonStyle::Danger);
}

#[test]
fn table_pick_list_marks_the_users_table() {
    let summaries = vec![
        TableSummary {
            id: "h1".to_string(),
            kind: GameKind::Holdem,
            kind_text: "홀덤".to_string(),
            name: "하이 롤러".to_string(),
            seated: 2,
            seat_count: 6,
            playing: true,
            phase_text: None,
            channel_id: None,
            stakes: "블라인드 50/100".to_string(),
        },
        TableSummary {
            id: "b1".to_string(),
            kind: GameKind::Blackjack,
            kind_text: "블랙잭".to_string(),
            name: "블랙잭".to_string(),
            seated: 1,
            seat_count: 6,
            playing: false,
            phase_text: None,
            channel_id: None,
            stakes: "베팅 100~5000".to_string(),
        },
    ];
    let menu = panel_select("enter", &summaries, Some("b1"));
    assert_eq!(menu.custom_id, "casino_pick:enter");
    assert_eq!(menu.options.len(), 2);
    assert_eq!(menu.options[0].description, "홀덤 · 블라인드 50/100 · 2/6명");
    assert_eq!(menu.options[1].description, "블랙잭 · 베팅 100~5000 · 1/6명 · 앉아 있음");
    assert_eq!(menu.options[1].value, "b1");
}

#[test]
fn a_webhook_without_token_is_replaced_not_retried() {
    assert!(webhook_unusable(WebhookError::NoToken));
    assert!(!webhook_unusable(WebhookError::Other));
    assert!(webhook_unusable(WebhookError::Http(404)));
    assert!(webhook_unusable(WebhookError::Http(401)));
    assert!(!webhook_unusable(WebhookError::Http(500)));
}

#[test]
fn table_status_has_an_enter_button() {
    let rows = status_components("h1");
    assert_eq!(rows.len(), 1);
    assert_eq!(rows[0][0].custom_id, "casino_enter:h1");
    assert_eq!(rows[0][0].label, "테이블 입장");
    assert_eq!(rows[0][0].emoji, Some('🎰'));
}

#[test]
fn bet_form_starts_with_the_current_bet() {
    let modal = bet_modal(7, 1500);
    assert_eq!(modal.custom_id, "bet:7");
    assert_eq!(modal.title, "배팅액 설정");
    assert_eq!(modal.inputs[0].custom_id, "bet_amount");
    assert_eq!(modal.inputs[0].value.as_deref(), Some("1500"));
    assert_eq!(bet_modal(7, 0).inputs[0].value.as_deref(), Some("0"));
    assert_eq!(bet_modal(7, i64::MIN).inputs[0].value.as_deref(), Some("-9223372036854775808"));
}
