//! The settings, rule and role-list texts that the bot posts.
use vstd::prelude::*;
use crate::config::{BotConfig, MAX_GAME_PLAYERS, max_players_spec, recruitment_seconds_spec, effective_max_player_count};
use crate::counts::{investigation_candidates, investigation_role_candidates};
use crate::game::MafiaGame;
use crate::role::Role;
use crate::summary::{role_line, public_role_count_text};
use crate::text::{dec, join, views, push_dec, join_strings, same_text};

verus! {

/// Name of the server role given to dead players.
pub const DEAD_PLAYER_ROLE: &'static str = "사망자";

pub const RULES_OVERVIEW: &'static str = "\n\n게임은 밤과 낮을 반복합니다.\n- 역할 설명: 전체 역할 설명은 `/역할설명`, 본인 역할 설명은 `/마피아능력`으로 확인할 수 있습니다.\n- 개인 티어: 게임마다 각자 2티어(40%)/3티어(30%)/4티어(15%)/5티어(10%)/6티어(5%)가 비공개로 배정됩니다. 3티어는 3티어 능력 1개, 4티어부터는 소속 풀의 4티어 이상 능력을 4티어 1개/5티어 2개/6티어 3개 받고(풀이 모자라면 3티어 능력으로 채움), 같은 능력이 여러 명에게 겹칠 수 있습니다. 내 티어는 역할 DM에서 확인합니다.\n- 밤: 게임 채널 채팅과 반응이 비활성화되고, 밤 행동이 있는 역할은 DM으로 행동합니다.\n- 낮: 생존자는 자유롭게 토론합니다. 생존자 과반이 `바로 투표`를 누르면 토론을 끝내고 지목 투표로 넘어갑니다. 시간이 끝나면 생존자 과반으로 1분 연장을 정할 수 있고, 연장은 낮마다 1번만 가능합니다.\n- 마피아 수 공개: 아침 생존 마피아 수는 ";
pub const RULES_VOTE: &'static str = ".\n- 투표: 생존자는 최후변론에 세울 사람 또는 스킵을 선택합니다. 지목자는 20초 동안 혼자 최후변론을 하고, 이후 찬반투표 과반 결과를 따릅니다.\n- 경찰 공개: 조사 성공 여부는 ";
pub const RULES_POLICE: &'static str = ". 실제 조사 결과는 경찰에게만 전달됩니다.\n- 채팅: 낮 토론 슬로우모드는 ";
pub const RULES_CHAT: &'static str = "초이며 최후변론 중에는 해제됩니다.\n- 사망자: ";
pub const RULES_DEATH: &'static str = " 게임 채널 채팅/반응 권한은 제거되고 '";
pub const RULES_WIN: &'static str = "' 역할이 부여됩니다.\n\n승리 조건\n- 시민 진영: 모든 마피아를 제거하면 승리합니다.\n- 마피아 진영: 생존 마피아 수가 나머지 생존자 수 이상이면 승리합니다.\n- 교주팀: 교주팀 생존자가 비교주팀 생존자 이상이면 승리합니다.\n- 조커: 낮 투표로 처형되면 즉시 단독 승리합니다.";

/// "공개" or "비공개".
pub open spec fn shown(b: bool) -> Seq<char> {
    if b { "공개"@ } else { "비공개"@ }
}

/// "켜짐" or "꺼짐".
pub open spec fn on_off(b: bool) -> Seq<char> {
    if b { "켜짐"@ } else { "꺼짐"@ }
}

/// "활성화" or "비활성화".
pub open spec fn active(b: bool) -> Seq<char> {
    if b { "활성화"@ } else { "비활성화"@ }
}

/// How the cult-team switch is described.
pub open spec fn cult_setting(b: bool) -> Seq<char> {
    if b { "켜짐 - 교주 1명, 광신도 1명 필수 배정"@ } else { "꺼짐"@ }
}

/// "공개됩니다" or "공개되지 않습니다".
pub open spec fn disclosed(b: bool) -> Seq<char> {
    if b { "공개됩니다"@ } else { "공개되지 않습니다"@ }
}

pub fn shown_text(b: bool) -> (s: &'static str)
    ensures
        s@ == shown(b),
{
    if b { "공개" } else { "비공개" }
}

fn on_off_text(b: bool) -> (s: &'static str)
    ensures
        s@ == on_off(b),
{
    if b { "켜짐" } else { "꺼짐" }
}

fn active_text(b: bool) -> (s: &'static str)
    ensures
        s@ == active(b),
{
    if b { "활성화" } else { "비활성화" }
}

fn cult_setting_text(b: bool) -> (s: &'static str)
    ensures
        s@ == cult_setting(b),
{
    if b { "켜짐 - 교주 1명, 광신도 1명 필수 배정" } else { "꺼짐" }
}

fn disclosed_text(b: bool) -> (s: &'static str)
    ensures
        s@ == disclosed(b),
{
    if b { "공개됩니다" } else { "공개되지 않습니다" }
}

/// How the player limit is described: the limit in effect, or the maximum
/// marked as the default when none is configured.
pub open spec fn max_player_setting(config: &BotConfig) -> Seq<char> {
    if config.max_player_count == 0 {
        "기본값("@ + dec(MAX_GAME_PLAYERS as nat) + "명)"@
    } else {
        dec(max_players_spec(config)) + "명"@
    }
}

/// How the player limit is described (`max_player_setting_text`).
pub fn max_player_setting_text(config: &BotConfig) -> (s: String)
    ensures
        s@ == max_player_setting(config),
{
    let n = effective_max_player_count(config);
    if config.max_player_count == 0 {
        let mut s = String::from_str("기본값(");
        push_dec(&mut s, n as u64);
        s.append("명)");
        s
    } else {
        let mut s = String::new();
        push_dec(&mut s, n as u64);
        s.append("명");
        assert(s@ =~= max_player_setting(config));
        s
    }
}

/// How anonymous players are named: by number for "number", by animal otherwise.
pub open spec fn anonymous_name_mode(config: &BotConfig) -> Seq<char> {
    if config.anonymous_name_mode@ == "number"@ { "번호"@ } else { "동물"@ }
}

/// How anonymous players are named (`anonymous_name_mode_text`).
pub fn anonymous_name_mode_text(config: &BotConfig) -> (s: &'static str)
    ensures
        s@ == anonymous_name_mode(config),
{
    if same_text(config.anonymous_name_mode.as_str(), "number") { "번호" } else { "동물" }
}

/// The specials named in the settings text, in this order.
pub open spec fn listed_specials() -> Seq<Role> {
    seq![Role::Detective, Role::Shaman, Role::Graverobber, Role::Spy, Role::Contractor,
        Role::Fraudster, Role::Thief, Role::Witch, Role::Scientist, Role::Madam, Role::Godfather,
        Role::Joker, Role::Politician, Role::Judge, Role::Reporter, Role::Hacker, Role::Inspector,
        Role::Terrorist, Role::Lover, Role::CivilServant, Role::Paparazzi, Role::Priest,
        Role::Soldier, Role::Nurse, Role::Gangster, Role::Prophet, Role::Psychologist,
        Role::Hypnotist, Role::Mercenary, Role::CultLeader, Role::Fanatic]
}

/// Whether a special is switched on; the cult roles follow the cult switch.
pub open spec fn special_listed(config: &BotConfig, r: Role) -> bool {
    match r {
        Role::Inspector => config.enable_inspector,
        Role::Detective => config.enable_detective,
        Role::Shaman => config.enable_shaman,
        Role::Graverobber => config.enable_graverobber,
        Role::Spy => config.enable_spy,
        Role::Contractor => config.enable_contractor,
        Role::Fraudster => config.enable_fraudster,
        Role::Thief => config.enable_thief,
        Role::Witch => config.enable_witch,
        Role::Scientist => config.enable_scientist,
        Role::Madam => config.enable_madam,
        Role::Godfather => config.enable_godfather,
        Role::Joker => config.enable_joker,
        Role::Politician => config.enable_politician,
        Role::Judge => config.enable_judge,
        Role::Reporter => config.enable_reporter,
        Role::Hacker => config.enable_hacker,
        Role::Terrorist => config.enable_terrorist,
        Role::Lover => config.enable_lover,
        Role::CivilServant => config.enable_civil_servant,
        Role::Paparazzi => config.enable_paparazzi,
        Role::Priest => config.enable_priest,
        Role::Soldier => config.enable_soldier,
        Role::Nurse => config.enable_nurse,
        Role::Gangster => config.enable_gangster,
        Role::Prophet => config.enable_prophet,
        Role::Psychologist => config.enable_psychologist,
        Role::Hypnotist => config.enable_hypnotist,
        Role::Mercenary => config.enable_mercenary,
        Role::CultLeader | Role::Fanatic => config.enable_cult_team,
        _ => false,
    }
}

fn is_special_listed(config: &BotConfig, r: Role) -> (b: bool)
    ensures
        b == special_listed(config, r),
{
    match r {
        Role::Inspector => config.enable_inspector,
        Role::Detective => config.enable_detective,
        Role::Shaman => config.enable_shaman,
        Role::Graverobber => config.enable_graverobber,
        Role::Spy => config.enable_spy,
        Role::Contractor => config.enable_contractor,
        Role::Fraudster => config.enable_fraudster,
        Role::Thief => config.enable_thief,
        Role::Witch => config.enable_witch,
        Role::Scientist => config.enable_scientist,
        Role::Madam => config.enable_madam,
        Role::Godfather => config.enable_godfather,
        Role::Joker => config.enable_joker,
        Role::Politician => config.enable_politician,
        Role::Judge => config.enable_judge,
        Role::Reporter => config.enable_reporter,
        Role::Hacker => config.enable_hacker,
        Role::Terrorist => config.enable_terrorist,
        Role::Lover => config.enable_lover,
        Role::CivilServant => config.enable_civil_servant,
        Role::Paparazzi => config.enable_paparazzi,
        Role::Priest => config.enable_priest,
        Role::Soldier => config.enable_soldier,
        Role::Nurse => config.enable_nurse,
        Role::Gangster => config.enable_gangster,
        Role::Prophet => config.enable_prophet,
        Role::Psychologist => config.enable_psychologist,
        Role::Hypnotist => config.enable_hypnotist,
        Role::Mercenary => config.enable_mercenary,
        Role::CultLeader | Role::Fanatic => config.enable_cult_team,
        _ => false,
    }
}

/// Names of the switched-on specials of `roles`, in order.
pub open spec fn listed_names(config: &BotConfig, roles: Seq<Role>) -> Seq<Seq<char>>
    decreases roles.len(),
{
    if roles.len() == 0 {
        Seq::empty()
    } else if special_listed(config, roles.last()) {
        listed_names(config, roles.drop_last()).push(roles.last().name_spec())
    } else {
        listed_names(config, roles.drop_last())
    }
}

/// The switched-on specials, comma separated, or "없음".
pub open spec fn special_names(config: &BotConfig) -> Seq<char> {
    let names = listed_names(config, listed_specials());
    if names.len() == 0 { "없음"@ } else { join(names, ", "@) }
}

/// The switched-on specials, comma separated, or "없음" (`enabled_special_role_names`).
pub fn enabled_special_role_names(config: &BotConfig) -> (s: String)
    ensures
        s@ == special_names(config),
{
    let roles = vec![Role::Detective, Role::Shaman, Role::Graverobber, Role::Spy, Role::Contractor,
        Role::Fraudster, Role::Thief, Role::Witch, Role::Scientist, Role::Madam, Role::Godfather,
        Role::Joker, Role::Politician, Role::Judge, Role::Reporter, Role::Hacker, Role::Inspector,
        Role::Terrorist, Role::Lover, Role::CivilServant, Role::Paparazzi, Role::Priest,
        Role::Soldier, Role::Nurse, Role::Gangster, Role::Prophet, Role::Psychologist,
        Role::Hypnotist, Role::Mercenary, Role::CultLeader, Role::Fanatic];
    assert(roles@ =~= listed_specials());
    let mut names: Vec<String> = Vec::new();
    let mut i: usize = 0;
    while i < roles.len()
        invariant
            i <= roles@.len(),
            views(names@) == listed_names(config, roles@.take(i as int)),
        decreases roles@.len() - i,
    {
        let r = roles[i];
        assert(roles@.take(i as int + 1).drop_last() =~= roles@.take(i as int));
        if is_special_listed(config, r) {
            names.push(String::from_str(r.value()));
            assert(views(names@) =~= listed_names(config, roles@.take(i as int + 1)));
        }
        i = i + 1;
    }
    assert(roles@.take(roles@.len() as int) =~= roles@);
    if names.len() == 0 {
        String::from_str("없음")
    } else {
        join_strings(&names, ", ")
    }
}

/// The roles that may fill the police slots, comma separated.
pub open spec fn investigation_names(config: &BotConfig) -> Seq<char> {
    join(investigation_candidates(config).map_values(|r: Role| r.name_spec()), ", "@)
}

/// The roles that may fill the police slots (`investigation_candidates_text`).
pub fn investigation_candidates_text(config: &BotConfig) -> (s: String)
    ensures
        s@ == investigation_names(config),
{
    let roles = investigation_role_candidates(config);
    let mut names: Vec<String> = Vec::new();
    let mut i: usize = 0;
    while i < roles.len()
        invariant
            i <= roles@.len(),
            names@.len() == i,
            forall|k: int| 0 <= k < i ==> (#[trigger] names@[k])@ == roles@[k].name_spec(),
        decreases roles@.len() - i,
    {
        names.push(String::from_str(roles[i].value()));
        i = i + 1;
    }
    assert(views(names@) =~= investigation_candidates(config).map_values(|r: Role| r.name_spec()));
    join_strings(&names, ", ")
}

/// The configuration as shown to managers.
pub open spec fn settings_text(config: &BotConfig, prefix: Seq<char>) -> Seq<char> {
    prefix + "\n게임 상태: "@ + active(config.game_enabled)
        + "\n기본 직업: 마피아 "@ + dec(config.default_mafia_count as nat)
        + "명, 의사 "@ + active(config.default_doctor_count > 0)
        + ", 수사직 "@ + active(config.default_police_count > 0)
        + "\n최대 참가 인원: "@ + max_player_setting(config)
        + "\n참가자 모집 시간: "@ + dec(recruitment_seconds_spec(config) as nat)
        + "초\n특수룰 수: 시민 "@ + dec(config.citizen_special_count as nat)
        + "개, 마피아 "@ + dec(config.mafia_special_count as nat)
        + "개, 중립 "@ + dec(config.neutral_special_count as nat)
        + "개\n활성 특수룰: "@ + special_names(config)
        + "\n수사직 후보: "@ + investigation_names(config)
        + "\n교주팀: "@ + cult_setting(config.enable_cult_team)
        + "\n채팅 슬로우모드: "@ + dec(config.chat_slowmode_seconds as nat)
        + "초\n사망 시 직업 공개: "@ + shown(config.reveal_death_roles)
        + "\n경찰 조사 성공 여부 공개: "@ + shown(config.reveal_public_police_status)
        + "\n아침 생존 마피아 수 공개: "@ + shown(config.reveal_morning_mafia_count)
        + "\n익명 채팅: "@ + on_off(config.anonymous_mode)
        + "\n익명 이름 방식: "@ + anonymous_name_mode(config)
}

/// The configuration as shown to managers (`current_settings_text`).
pub fn current_settings_text(config: &BotConfig, prefix: &str) -> (s: String)
    ensures
        s@ == settings_text(config, prefix@),
{
    let mut s = String::from_str(prefix);
    s.append("\n게임 상태: ");
    s.append(active_text(config.game_enabled));
    s.append("\n기본 직업: 마피아 ");
    push_dec(&mut s, config.default_mafia_count as u64);
    s.append("명, 의사 ");
    s.append(active_text(config.default_doctor_count > 0));
    s.append(", 수사직 ");
    s.append(active_text(config.default_police_count > 0));
    s.append("\n최대 참가 인원: ");
    let max_text = max_player_setting_text(config);
    s.append(max_text.as_str());
    s.append("\n참가자 모집 시간: ");
    push_dec(&mut s, config.effective_recruitment_seconds());
    s.append("초\n특수룰 수: 시민 ");
    push_dec(&mut s, config.citizen_special_count as u64);
    s.append("개, 마피아 ");
    push_dec(&mut s, config.mafia_special_count as u64);
    s.append("개, 중립 ");
    push_dec(&mut s, config.neutral_special_count as u64);
    s.append("개\n활성 특수룰: ");
    let names = enabled_special_role_names(config);
    s.append(names.as_str());
    s.append("\n수사직 후보: ");
    let candidates = investigation_candidates_text(config);
    s.append(candidates.as_str());
    s.append("\n교주팀: ");
    s.append(cult_setting_text(config.enable_cult_team));
    s.append("\n채팅 슬로우모드: ");
    push_dec(&mut s, config.chat_slowmode_seconds);
    s.append("초\n사망 시 직업 공개: ");
    s.append(shown_text(config.reveal_death_roles));
    s.append("\n경찰 조사 성공 여부 공개: ");
    s.append(shown_text(config.reveal_public_police_status));
    s.append("\n아침 생존 마피아 수 공개: ");
    s.append(shown_text(config.reveal_morning_mafia_count));
    s.append("\n익명 채팅: ");
    s.append(on_off_text(config.anonymous_mode));
    s.append("\n익명 이름 방식: ");
    s.append(anonymous_name_mode_text(config));
    s
}

/// The game settings as announced to the players.
pub open spec fn game_settings_text(game: &MafiaGame, config: &BotConfig, prefix: Seq<char>) -> Seq<char> {
    prefix + "\n"@ + role_line(game)
        + "\n최대 참가 인원: "@ + max_player_setting(config)
        + "\n교주팀: "@ + cult_setting(config.enable_cult_team)
        + "\n사망 시 직업 공개: "@ + shown(config.reveal_death_roles)
        + "\n경찰 조사 성공 여부 공개: "@ + shown(config.reveal_public_police_status)
        + "\n아침 생존 마피아 수 공개: "@ + shown(config.reveal_morning_mafia_count)
        + "\n채팅 슬로우모드: "@ + dec(config.chat_slowmode_seconds as nat)
        + "초\n익명 채팅: "@ + on_off(config.anonymous_mode)
        + if config.anonymous_mode { " ("@ + anonymous_name_mode(config) + ")"@ } else { Seq::empty() }
}

/// The game settings as announced to the players (`public_game_settings_text`).
pub fn public_game_settings_text(game: &MafiaGame, config: &BotConfig, prefix: &str) -> (s: String)
    ensures
        s@ == game_settings_text(game, config, prefix@),
{
    let mut s = String::from_str(prefix);
    s.append("\n");
    let roles = public_role_count_text(game);
    s.append(roles.as_str());
    s.append("\n최대 참가 인원: ");
    let max_text = max_player_setting_text(config);
    s.append(max_text.as_str());
    s.append("\n교주팀: ");
    s.append(cult_setting_text(config.enable_cult_team));
    s.append("\n사망 시 직업 공개: ");
    s.append(shown_text(config.reveal_death_roles));
    s.append("\n경찰 조사 성공 여부 공개: ");
    s.append(shown_text(config.reveal_public_police_status));
    s.append("\n아침 생존 마피아 수 공개: ");
    s.append(shown_text(config.reveal_morning_mafia_count));
    s.append("\n채팅 슬로우모드: ");
    push_dec(&mut s, config.chat_slowmode_seconds);
    s.append("초\n익명 채팅: ");
    s.append(on_off_text(config.anonymous_mode));
    if config.anonymous_mode {
        s.append(" (");
        s.append(anonymous_name_mode_text(config));
        s.append(")");
    } else {
        assert(s@ + Seq::<char>::empty() =~= s@);
    }
    s
}

/// What happens to a dead player's role.
pub open spec fn death_rule(reveal_death_roles: bool) -> Seq<char> {
    if reveal_death_roles {
        "사망자의 직업은 즉시 공개됩니다."@
    } else {
        "사망자의 직업은 즉시 공개되지 않습니다."@
    }
}

/// The rules of the game as posted at its start.
pub open spec fn rules_text(game: &MafiaGame, config: &BotConfig, reveal_death_roles: bool) -> Seq<char> {
    role_line(game) + RULES_OVERVIEW@ + disclosed(config.reveal_morning_mafia_count)
        + RULES_VOTE@ + disclosed(config.reveal_public_police_status)
        + RULES_POLICE@ + dec(config.chat_slowmode_seconds as nat)
        + RULES_CHAT@ + death_rule(reveal_death_roles)
        + RULES_DEATH@ + DEAD_PLAYER_ROLE@ + RULES_WIN@
}

/// The rules of the game as posted at its start (`game_rule_text`).
pub fn game_rule_text(game: &MafiaGame, config: &BotConfig, reveal_death_roles: bool) -> (s: String)
    ensures
        s@ == rules_text(game, config, reveal_death_roles),
{
    let mut s = public_role_count_text(game);
    s.append(RULES_OVERVIEW);
    s.append(disclosed_text(config.reveal_morning_mafia_count));
    s.append(RULES_VOTE);
    s.append(disclosed_text(config.reveal_public_police_status));
    s.append(RULES_POLICE);
    push_dec(&mut s, config.chat_slowmode_seconds);
    s.append(RULES_CHAT);
    if reveal_death_roles {
        s.append("사망자의 직업은 즉시 공개됩니다.");
    } else {
        s.append("사망자의 직업은 즉시 공개되지 않습니다.");
    }
    s.append(RULES_DEATH);
    s.append(DEAD_PLAYER_ROLE);
    s.append(RULES_WIN);
    s
}

} // verus!
