use mafia_bot::casino::{casino_settings_outcome, channel_rename_due, settings_form_name, ChannelRename};
use mafia_bot::channels::{
    personal_channel_label_text, personal_channel_step, personal_channel_welcome, room_access_step, room_label_text,
    room_welcome_text, route_message, AnonymousChannel, MessageAction, PersonalChannelAction, PersonalChannelEvent,
    PersonalChannelKind, RoomAction, RoomEvent, SpeakerFacts, record_room_status, remembered_permission,
};
use mafia_bot::game::{MafiaGame, Phase, Player};
use mafia_bot::night::{night_action_reply, NightFacts, NightView};
use mafia_bot::role::Role;
use mafia_bot::permissions::{OverwriteTarget, PermissionOverwrite, SEND_MESSAGES, VIEW_CHANNEL};
use mafia_bot::running::RunningGame;

fn routing_game(phase: Phase, anonymous: bool) -> RunningGame {
    let game = MafiaGame::with_players(
        vec![
            Player::new(1, "p1".to_string(), Role::Mafia),
            Player::new(2, "p2".to_string(), Role::Doctor),
            Player::new(3, "p3".to_string(), Role::Shaman),
        ],
        phase,
        1,
    );
    RunningGame::new(game, anonymous, 100)
}

fn no_overwrites() -> Vec<PermissionOverwrite> {
    Vec::new()
}

const QUIET: SpeakerFacts = SpeakerFacts { shaman_silenced: false, has_loudspeaker: false, loudspeaker_active: false };

#[test]
fn messages_in_anonymous_input_channels_are_relayed() {
    let mut running = routing_game(Phase::Night, true);
    running.anonymous_dead_input_channel_owners = vec![(200, 2)];
    running.anonymous_shaman_input_channel_owners = vec![(201, 3)];
    running.anonymous_input_channel_owners = vec![(202, 1)];
    running.anonymous_role_input_channels = vec![(203, (1, Role::Mafia))];
    assert_eq!(route_message(&running, 200, 9, false, QUIET), MessageAction::Relay { channel: AnonymousChannel::Dead, owner_id: 2 });
    assert_eq!(route_message(&running, 201, 9, false, QUIET), MessageAction::Relay { channel: AnonymousChannel::Shaman, owner_id: 3 });
    assert_eq!(route_message(&running, 202, 9, false, QUIET), MessageAction::Relay { channel: AnonymousChannel::General, owner_id: 1 });
    assert_eq!(
        route_message(&running, 203, 9, false, QUIET),
        MessageAction::Relay { channel: AnonymousChannel::Role(Role::Mafia), owner_id: 1 }
    );
    assert_eq!(route_message(&running, 200, 9, true, QUIET), MessageAction::Ignore);
}

#[test]
fn private_team_channel_messages() {
    let mut running = routing_game(Phase::Night, false);
    running.private_channel_ids = vec![(Role::Mafia, 300)];
    assert_eq!(route_message(&running, 300, 1, false, QUIET), MessageAction::MirrorToDead { role: Role::Mafia });
    assert_eq!(route_message(&running, 300, 2, false, QUIET), MessageAction::DeletePrivate { role: Role::Mafia, can_view: false });
    assert_eq!(route_message(&running, 300, 99, false, QUIET), MessageAction::Ignore);
    running.game.phase = Phase::Day;
    assert_eq!(route_message(&running, 300, 1, false, QUIET), MessageAction::DeletePrivate { role: Role::Mafia, can_view: true });
}

#[test]
fn silenced_loudspeaker_and_frog_messages() {
    let mut running = routing_game(Phase::Night, false);
    running.shaman_channel_id = Some(400);
    let silenced = SpeakerFacts { shaman_silenced: true, ..QUIET };
    assert_eq!(route_message(&running, 400, 3, false, silenced), MessageAction::DeleteSilencedShaman);
    assert_eq!(route_message(&running, 400, 3, false, QUIET), MessageAction::Ignore);
    let speaker = SpeakerFacts { has_loudspeaker: true, loudspeaker_active: true, ..QUIET };
    assert_eq!(route_message(&running, 100, 2, false, speaker), MessageAction::UseLoudspeaker);
    let used = SpeakerFacts { has_loudspeaker: true, loudspeaker_active: false, ..QUIET };
    assert_eq!(route_message(&running, 100, 2, false, used), MessageAction::DeleteUsedLoudspeaker);
    running.game.frog_user_ids = vec![2];
    assert_eq!(route_message(&running, 100, 2, false, QUIET), MessageAction::DeleteFrogMessage);
    assert_eq!(route_message(&running, 100, 1, false, QUIET), MessageAction::Ignore);
}

#[test]
fn opening_a_dead_chat_channel() {
    let mut running = routing_game(Phase::Day, false);
    let dead = PersonalChannelKind::Dead;
    assert_eq!(personal_channel_step(&mut running, dead, 2, PersonalChannelEvent::Begin, &no_overwrites()), PersonalChannelAction::TakeLock);
    assert_eq!(personal_channel_step(&mut running, dead, 2, PersonalChannelEvent::Locked, &no_overwrites()), PersonalChannelAction::VerifyMember);
    assert_eq!(personal_channel_step(&mut running, dead, 2, PersonalChannelEvent::MemberChecked(false), &no_overwrites()), PersonalChannelAction::Finish);
    assert_eq!(personal_channel_step(&mut running, dead, 2, PersonalChannelEvent::MemberChecked(true), &no_overwrites()), PersonalChannelAction::FindByName);
    assert_eq!(personal_channel_step(&mut running, dead, 2, PersonalChannelEvent::FoundByName(None), &no_overwrites()), PersonalChannelAction::Create);
    assert_eq!(personal_channel_step(&mut running, dead, 2, PersonalChannelEvent::Created(Some(500)), &no_overwrites()), PersonalChannelAction::Welcome(500));
    assert_eq!(running.anonymous_dead_input_channel_ids, vec![(2, 500)]);
    assert_eq!(running.anonymous_dead_input_channel_owners, vec![(500, 2)]);
    assert_eq!(personal_channel_step(&mut running, dead, 2, PersonalChannelEvent::Begin, &no_overwrites()), PersonalChannelAction::UseChannel(500));
    assert_eq!(personal_channel_welcome(dead).1, "사망자 개인 채팅");
    assert_eq!(personal_channel_label_text(&running, dead, 2, "p2"), "p2");
}

#[test]
fn a_channel_made_after_the_game_ended_is_deleted() {
    let mut running = routing_game(Phase::Ended, true);
    assert_eq!(
        personal_channel_step(&mut running, PersonalChannelKind::Dead, 2, PersonalChannelEvent::Created(Some(501)), &no_overwrites()),
        PersonalChannelAction::Delete(501)
    );
    assert!(running.anonymous_dead_input_channel_ids.is_empty());
    assert_eq!(
        personal_channel_step(&mut running, PersonalChannelKind::Shaman, 3, PersonalChannelEvent::Begin, &no_overwrites()),
        PersonalChannelAction::Finish
    );
}

#[test]
fn shaman_input_channels_need_anonymous_games() {
    let mut running = routing_game(Phase::Night, false);
    assert_eq!(
        personal_channel_step(&mut running, PersonalChannelKind::Shaman, 3, PersonalChannelEvent::Begin, &no_overwrites()),
        PersonalChannelAction::Finish
    );
    running.anonymous_enabled = true;
    assert_eq!(
        personal_channel_step(&mut running, PersonalChannelKind::Shaman, 3, PersonalChannelEvent::FoundByName(Some(600)), &no_overwrites()),
        PersonalChannelAction::UseChannel(600)
    );
    assert_eq!(running.anonymous_shaman_input_channel_owners, vec![(600, 3)]);
    assert_eq!(personal_channel_label_text(&running, PersonalChannelKind::Shaman, 3, "p3"), "3");
    running.anonymous_aliases = vec![(3, "너구리".to_string())];
    assert_eq!(personal_channel_label_text(&running, PersonalChannelKind::Shaman, 3, "p3"), "너구리");
}

#[test]
fn role_room_access_steps() {
    let mut running = routing_game(Phase::Night, true);
    assert_eq!(room_access_step(&mut running, 1, Role::Mafia, false, RoomEvent::Begin, &no_overwrites()), RoomAction::Recheck);
    assert_eq!(room_access_step(&mut running, 1, Role::Mafia, false, RoomEvent::Rechecked, &no_overwrites()), RoomAction::Finish);
    assert_eq!(room_access_step(&mut running, 1, Role::Mafia, true, RoomEvent::Begin, &no_overwrites()), RoomAction::TakeLock);
    assert_eq!(room_access_step(&mut running, 1, Role::Mafia, true, RoomEvent::Rechecked, &no_overwrites()), RoomAction::VerifyMember);
    assert_eq!(room_access_step(&mut running, 1, Role::Mafia, true, RoomEvent::MemberChecked(true), &no_overwrites()), RoomAction::Create);
    assert_eq!(room_access_step(&mut running, 1, Role::Mafia, true, RoomEvent::Created(Some(700)), &no_overwrites()), RoomAction::Welcome(700));
    assert_eq!(running.anonymous_role_input_channel_ids, vec![((1, Role::Mafia), 700)]);
    assert_eq!(running.anonymous_role_input_channels, vec![(700, (1, Role::Mafia))]);
    assert_eq!(room_access_step(&mut running, 1, Role::Mafia, false, RoomEvent::Begin, &no_overwrites()), RoomAction::SetAccess(700));
    running.anonymous_enabled = false;
    assert_eq!(room_access_step(&mut running, 2, Role::Mafia, true, RoomEvent::Created(Some(701)), &no_overwrites()), RoomAction::Delete(701));
    assert_eq!(running.anonymous_role_input_channels.len(), 1);
    let (text, title) = room_welcome_text(Role::Mafia, false);
    assert!(text.ends_with(" 역할 보기 전용 채널입니다.\n이 채널에서 역할 대화를 확인할 수 있습니다."));
    assert_eq!(title, "익명 역할 채팅");
    assert_eq!(room_label_text(&running, 1, "p1"), "p1");
}

#[test]
fn table_settings_answers() {
    assert_eq!(settings_form_name("하이 롤러", "  하이 롤러 "), ("하이 롤러".to_string(), false));
    assert_eq!(settings_form_name("하이 롤러", "로우"), ("로우".to_string(), true));
    assert!(channel_rename_due(None, "하이-롤러", "로우"));
    assert!(!channel_rename_due(Some("로우"), "하이-롤러", "로우"));

    let nothing = casino_settings_outcome("관리자", "A", "A", Ok(false), ChannelRename::NotNeeded, None, "요약").unwrap();
    assert!(!nothing.changed);
    assert_eq!(nothing.reply, "바뀐 내용이 없습니다.");
    assert_eq!(nothing.log, None);

    let renamed =
        casino_settings_outcome("관리자", "A", "B", Ok(true), ChannelRename::Done, Some(Ok(false)), "블라인드 50/100").unwrap();
    assert!(renamed.changed);
    assert_eq!(
        renamed.reply,
        "이름을 **B**(으)로 바꿨습니다.\n라운드가 진행 중이라 이번 라운드가 끝나면 적용됩니다: 블라인드 50/100"
    );
    assert_eq!(renamed.log.as_deref(), Some("관리자 님이 테이블 **A**을 바꿨습니다. 이름: A → B 설정: 블라인드 50/100"));

    let channel_only = casino_settings_outcome("관리자", "A", "A", Ok(false), ChannelRename::Done, None, "요약").unwrap();
    assert_eq!(channel_only.reply, "채널 이름을 테이블 이름에 맞췄습니다.");
    assert_eq!(channel_only.log, None);

    assert_eq!(
        casino_settings_outcome("관리자", "A", "B", Err("이미 있는 이름입니다.".to_string()), ChannelRename::NotNeeded, None, "").err(),
        Some("이미 있는 이름입니다.".to_string())
    );
    let throttled = casino_settings_outcome("관리자", "A", "A", Ok(false), ChannelRename::Throttled, Some(Ok(true)), "S").unwrap();
    assert!(throttled.reply.ends_with("\n방 설정을 적용했습니다: S"));
}

#[test]
fn recorded_channels_remember_their_overwrites() {
    let mut running = routing_game(Phase::Night, true);
    let mine = PermissionOverwrite { allow: VIEW_CHANNEL | SEND_MESSAGES, deny: 0, kind: OverwriteTarget::Member(2) };
    let everyone = PermissionOverwrite { allow: 0, deny: VIEW_CHANNEL, kind: OverwriteTarget::Role(1) };
    personal_channel_step(&mut running, PersonalChannelKind::Dead, 2, PersonalChannelEvent::Created(Some(800)), &vec![everyone, mine]);
    assert_eq!(remembered_permission(&running, 800, OverwriteTarget::Member(2)), Some(mine));
    assert_eq!(remembered_permission(&running, 800, OverwriteTarget::Role(1)), Some(everyone));
    assert_eq!(remembered_permission(&running, 801, OverwriteTarget::Member(2)), None);
    room_access_step(&mut running, 1, Role::Mafia, true, RoomEvent::Created(Some(900)), &vec![mine]);
    assert_eq!(remembered_permission(&running, 900, OverwriteTarget::Member(2)), Some(mine));
    record_room_status(&mut running, 1, Role::Mafia, 901, "현황".to_string());
    assert_eq!(running.anonymous_role_input_status_message_ids, vec![((1, Role::Mafia), 901)]);
    assert_eq!(running.anonymous_role_status_texts, vec![((1, Role::Mafia), "현황".to_string())]);
    record_room_status(&mut running, 1, Role::Mafia, 902, "새 현황".to_string());
    assert_eq!(running.anonymous_role_input_status_message_ids, vec![((1, Role::Mafia), 902)]);
}

#[test]
fn a_late_found_channel_is_not_remembered() {
    let mut running = routing_game(Phase::Ended, false);
    let mine = PermissionOverwrite { allow: VIEW_CHANNEL, deny: 0, kind: OverwriteTarget::Member(2) };
    assert_eq!(
        personal_channel_step(&mut running, PersonalChannelKind::Dead, 2, PersonalChannelEvent::FoundByName(Some(5)), &vec![mine]),
        PersonalChannelAction::Finish
    );
    assert!(running.permission_overwrite_cache.is_empty());
}

fn night_facts(role: Role) -> NightFacts {
    NightFacts {
        actor_role: Some(role),
        effective_role: role,
        actor_alive: true,
        was_known_mafia_team: false,
        known_mafia_team_now: false,
        can_change: false,
        spy_bonus: false,
        night_done: false,
        cult_bells: 0,
    }
}

#[test]
fn night_choice_replies() {
    let mafia = night_action_reply("선택했습니다.", None, "- A → B", night_facts(Role::Mafia), Some(3));
    assert_eq!(mafia.view, NightView::Mafia);
    assert_eq!(mafia.text, "선택했습니다.\n\n- A → B");
    assert_eq!(mafia.title, "마피아 처치 선택");

    let thief = NightFacts { effective_role: Role::Mafia, ..night_facts(Role::Thief) };
    assert_eq!(night_action_reply("m", None, "s", thief, None).view, NightView::Mafia);

    let spy = NightFacts { spy_bonus: true, ..night_facts(Role::Spy) };
    let reply = night_action_reply("m", None, "s", spy, Some(2));
    assert_eq!(reply.view, NightView::SpyBonus);
    assert_eq!(reply.title, "접선 성공");

    let police = NightFacts { can_change: true, ..night_facts(Role::Police) };
    let reply = night_action_reply("조사했습니다.", Some("마피아입니다."), "s", police, Some(1));
    assert_eq!(reply.view, NightView::Changeable(Role::Police));
    assert_eq!(reply.text, "조사했습니다.\n마피아입니다.\n\n밤이 끝나기 전 다시 선택하면 대상을 변경할 수 있습니다.");
    assert!(!reply.end_night);

    let shaman = NightFacts { night_done: true, cult_bells: 2, ..night_facts(Role::Shaman) };
    let reply = night_action_reply("성불했습니다.", None, "s", shaman, Some(4));
    assert_eq!(reply.view, NightView::Done);
    assert_eq!(reply.title, "밤 행동 완료");
    assert_eq!(reply.purified_target, Some(4));
    assert!(reply.end_night);
    assert_eq!(reply.bells.as_deref(), Some("교주의 종소리가 울렸습니다.\n교주의 종소리가 울렸습니다."));

    let contacted = NightFacts { known_mafia_team_now: true, ..night_facts(Role::Spy) };
    assert!(night_action_reply("m", None, "s", contacted, None).grant_mafia_room);
}
