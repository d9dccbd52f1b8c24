//! Status texts posted in the game channels.
use vstd::prelude::*;
use crate::game::{MafiaGame, Player};
use crate::role::Role;
use crate::game::player_with_id;
use crate::running::{RunningGame, sender_label, status_display_name, name_for, entry_for};
use crate::sort::{stable_order, stable_order_by_keys, key_views, sorted_by_lowercase, sort_by_lowercase, order_by, sort_positions};
use crate::text::{dec, join, views, lowercase, to_lower, chars_of, join_strings, push_dec};

verus! {

/// Most names a status list shows.
pub const STATUS_LIST_LIMIT: usize = 40;

/// The display names of a list of players.
pub open spec fn display_names(running: &RunningGame, players: Seq<Player>) -> Seq<Seq<char>> {
    players.map_values(|p: Player| sender_label(running, &p))
}

/// A player list: sorted display names, at most forty, then how many more
/// there are; "없음" for nobody.
pub open spec fn player_list_text(running: &RunningGame, players: Seq<Player>) -> Seq<char> {
    let names = display_names(running, players);
    if names.len() == 0 {
        "없음"@
    } else {
        let sorted = sorted_by_lowercase(names);
        if sorted.len() > STATUS_LIST_LIMIT {
            join(sorted.take(STATUS_LIST_LIMIT as int), ", "@) + " 외 "@
                + dec((sorted.len() - STATUS_LIST_LIMIT) as nat) + "명"@
        } else {
            join(sorted, ", "@)
        }
    }
}

/// The display names of `players`, ordered by their lower-case form.
fn sorted_display_names(running: &RunningGame, players: &Vec<Player>) -> (v: Vec<String>)
    ensures
        views(v@) == sorted_by_lowercase(display_names(running, players@)),
{
    let mut labels: Vec<String> = Vec::new();
    let mut i: usize = 0;
    while i < players.len()
        invariant
            i <= players@.len(),
            labels@.len() == i,
            forall|k: int| 0 <= k < i ==> (#[trigger] labels@[k])@ == display_names(running, players@)[k],
        decreases players@.len() - i,
    {
        labels.push(status_display_name(running, &players[i]));
        i = i + 1;
    }
    assert(views(labels@) =~= display_names(running, players@));
    sort_by_lowercase(&labels)
}

/// A player list for a status message (`status_player_list`).
pub fn status_player_list(running: &RunningGame, players: &Vec<Player>) -> (s: String)
    ensures
        s@ == player_list_text(running, players@),
{
    let ghost sorted = sorted_by_lowercase(display_names(running, players@));
    let names = sorted_display_names(running, players);
    let n = names.len();
    if n == 0 {
        return String::from_str("없음");
    }
    let shown_count = if n > STATUS_LIST_LIMIT { STATUS_LIST_LIMIT } else { n };
    let mut shown: Vec<String> = Vec::new();
    let mut k: usize = 0;
    while k < shown_count
        invariant
            k <= shown_count <= n,
            n == names@.len(),
            views(names@) == sorted,
            shown@.len() == k,
            forall|j: int| 0 <= j < k ==> (#[trigger] shown@[j])@ == sorted[j],
        decreases shown_count - k,
    {
        assert(names@[k as int]@ == views(names@)[k as int]);
        shown.push(names[k].clone());
        k = k + 1;
    }
    assert(views(shown@) =~= sorted.take(shown_count as int));
    let mut s = join_strings(&shown, ", ");
    if n > STATUS_LIST_LIMIT {
        s.append(" 외 ");
        push_dec(&mut s, (n - STATUS_LIST_LIMIT) as u64);
        s.append("명");
    } else {
        assert(sorted.take(shown_count as int) =~= sorted);
    }
    s
}

/// The status of a role's channel: the members, sorted by display name, and
/// for the mafia channel the mafia's night choices when there are any.
pub open spec fn role_channel_status(
    running: &RunningGame,
    role: Role,
    member_ids: Seq<u64>,
    mafia_status: Seq<char>,
) -> Seq<char> {
    let names = sorted_by_lowercase(display_names(running, players_with_ids(running.game.players@, member_ids)));
    let text = if names.len() == 0 {
        "현재 생존: 없음"@
    } else {
        "현재 생존: "@ + join(names, ", "@)
    };
    if role == Role::Mafia && mafia_status.len() > 0 {
        text + "\n\n"@ + mafia_status
    } else {
        text
    }
}

/// The status of a role's channel (`role_channel_status_text`).  The members
/// and the mafia's night-choice summary are handed in by the caller.
pub fn role_channel_status_text(
    running: &RunningGame,
    role: Role,
    member_ids: &Vec<u64>,
    mafia_status: &str,
) -> (s: String)
    ensures
        s@ == role_channel_status(running, role, member_ids@, mafia_status@),
{
    let members = members_with_ids(&running.game, member_ids);
    let names = sorted_display_names(running, &members);
    let mut text = String::from_str("현재 생존: ");
    if names.len() == 0 {
        text.append("없음");
        proof { reveal_strlit("현재 생존: "); reveal_strlit("없음"); reveal_strlit("현재 생존: 없음"); }
        assert(text@ =~= "현재 생존: 없음"@);
    } else {
        let list = join_strings(&names, ", ");
        text.append(list.as_str());
    }
    if role == Role::Mafia && mafia_status.unicode_len() > 0 {
        text.append("\n\n");
        text.append(mafia_status);
    }
    text
}

/// The living players, in order.
pub open spec fn living(players: Seq<Player>) -> Seq<Player>
    decreases players.len(),
{
    if players.len() == 0 {
        Seq::empty()
    } else if players.last().alive {
        living(players.drop_last()).push(players.last())
    } else {
        living(players.drop_last())
    }
}

/// The dead players, in order.
pub open spec fn dead(players: Seq<Player>) -> Seq<Player>
    decreases players.len(),
{
    if players.len() == 0 {
        Seq::empty()
    } else if !players.last().alive {
        dead(players.drop_last()).push(players.last())
    } else {
        dead(players.drop_last())
    }
}

/// Splits players into the living and the dead, keeping order.
pub fn split_by_alive(players: &Vec<Player>) -> (r: (Vec<Player>, Vec<Player>))
    ensures
        r.0@ == living(players@),
        r.1@ == dead(players@),
{
    let mut a: Vec<Player> = Vec::new();
    let mut d: Vec<Player> = Vec::new();
    let mut i: usize = 0;
    while i < players.len()
        invariant
            i <= players@.len(),
            a@ == living(players@.take(i as int)),
            d@ == dead(players@.take(i as int)),
        decreases players@.len() - i,
    {
        assert(players@.take(i as int + 1).drop_last() =~= players@.take(i as int));
        let p = players[i].duplicate();
        if p.alive {
            a.push(p);
        } else {
            d.push(p);
        }
        i = i + 1;
    }
    assert(players@.take(players@.len() as int) =~= players@);
    (a, d)
}

/// The game status message: day, phase, head counts and both player lists.
pub open spec fn game_status(running: &RunningGame) -> Seq<char> {
    let players = running.game.players@;
    dec(running.game.day_number as nat) + "일차 / 현재 단계: "@ + running.game.phase.name_spec()
        + "\n생존자 **"@ + dec(living(players).len()) + "명** / 사망자 **"@ + dec(dead(players).len())
        + "명**\n\n생존자 목록\n"@ + player_list_text(running, living(players))
        + "\n\n사망자 목록\n"@ + player_list_text(running, dead(players))
}

/// The game status message (`game_status_text`).
pub fn game_status_text(running: &RunningGame) -> (s: String)
    ensures
        s@ == game_status(running),
{
    let (alive, gone) = split_by_alive(&running.game.players);
    let mut s = String::new();
    push_dec(&mut s, running.game.day_number as u64);
    s.append("일차 / 현재 단계: ");
    s.append(running.game.phase.value());
    s.append("\n생존자 **");
    push_dec(&mut s, alive.len() as u64);
    s.append("명** / 사망자 **");
    push_dec(&mut s, gone.len() as u64);
    s.append("명**\n\n생존자 목록\n");
    let alive_list = status_player_list(running, &alive);
    s.append(alive_list.as_str());
    s.append("\n\n사망자 목록\n");
    let dead_list = status_player_list(running, &gone);
    s.append(dead_list.as_str());
    assert(s@ =~= game_status(running));
    s
}

/// The side a player ends the game on.
pub open spec fn final_team(game: &MafiaGame, player: &Player) -> Seq<char> {
    if game.cult_team_ids@.contains(player.user_id) {
        "교주팀"@
    } else if game.mafia_team_ids@.contains(player.user_id) {
        "마피아팀"@
    } else if player.role == Role::Joker {
        "중립"@
    } else {
        "시민팀"@
    }
}

/// The side a player ends the game on (`final_team_text`).
pub fn final_team_text(game: &MafiaGame, player: &Player) -> (s: &'static str)
    ensures
        s@ == final_team(game, player),
{
    if game.is_cult_team(player.user_id) {
        "교주팀"
    } else if game.is_mafia_team(player.user_id) {
        "마피아팀"
    } else if player.role == Role::Joker {
        "중립"
    } else {
        "시민팀"
    }
}

/// The ids of the players that satisfy `keep`, in order.
pub open spec fn ids_where(players: Seq<Player>, keep: spec_fn(Player) -> bool) -> Seq<u64>
    decreases players.len(),
{
    if players.len() == 0 {
        Seq::empty()
    } else if keep(players.last()) {
        ids_where(players.drop_last(), keep).push(players.last().user_id)
    } else {
        ids_where(players.drop_last(), keep)
    }
}

/// The group a player's status shows: the cult team, the known mafia team,
/// or the players holding the same role.
pub open spec fn status_group(game: &MafiaGame, player: &Player) -> (Seq<char>, Seq<u64>) {
    if game.cult_team_ids@.contains(player.user_id) {
        ("내 교주팀"@, ids_where(game.players@, |p: Player| game.cult_team_ids@.contains(p.user_id)))
    } else if game.known_mafia_team_ids@.contains(player.user_id) {
        ("내 마피아팀"@, ids_where(game.players@, |p: Player| game.known_mafia_team_ids@.contains(p.user_id)))
    } else {
        ("내 역할("@ + player.role.name_spec() + ")"@, ids_where(game.players@, |p: Player| p.role == player.role))
    }
}

/// The kinds of group a status shows.
enum GroupKind {
    Cult,
    Mafia,
    SameRole,
}

fn group_ids(game: &MafiaGame, player: &Player, kind: GroupKind) -> (v: Vec<u64>)
    ensures
        v@ == match kind {
            GroupKind::Cult => ids_where(game.players@, |p: Player| game.cult_team_ids@.contains(p.user_id)),
            GroupKind::Mafia => ids_where(game.players@, |p: Player| game.known_mafia_team_ids@.contains(p.user_id)),
            GroupKind::SameRole => ids_where(game.players@, |p: Player| p.role == player.role),
        },
{
    let ghost keep = match kind {
        GroupKind::Cult => |p: Player| game.cult_team_ids@.contains(p.user_id),
        GroupKind::Mafia => |p: Player| game.known_mafia_team_ids@.contains(p.user_id),
        GroupKind::SameRole => |p: Player| p.role == player.role,
    };
    let players = &game.players;
    let mut v: Vec<u64> = Vec::new();
    let mut i: usize = 0;
    while i < players.len()
        invariant
            i <= players@.len(),
            players@ == game.players@,
            keep == (match kind {
                GroupKind::Cult => |p: Player| game.cult_team_ids@.contains(p.user_id),
                GroupKind::Mafia => |p: Player| game.known_mafia_team_ids@.contains(p.user_id),
                GroupKind::SameRole => |p: Player| p.role == player.role,
            }),
            v@ == ids_where(players@.take(i as int), keep),
        decreases players@.len() - i,
    {
        assert(players@.take(i as int + 1).drop_last() =~= players@.take(i as int));
        let target = &players[i];
        let wanted = match kind {
            GroupKind::Cult => game.is_cult_team(target.user_id),
            GroupKind::Mafia => game.is_known_mafia_team(target.user_id),
            GroupKind::SameRole => target.role == player.role,
        };
        assert(wanted == keep(players@[i as int]));
        if wanted {
            v.push(target.user_id);
        }
        i = i + 1;
    }
    assert(players@.take(players@.len() as int) =~= players@);
    v
}

/// The group a player's status shows (`private_role_status_player_ids`).
pub fn private_role_status_player_ids(running: &RunningGame, player: &Player) -> (r: (String, Vec<u64>))
    ensures
        (r.0@, r.1@) == status_group(&running.game, player),
{
    let game = &running.game;
    if game.is_cult_team(player.user_id) {
        return (String::from_str("내 교주팀"), group_ids(game, player, GroupKind::Cult));
    }
    if game.is_known_mafia_team(player.user_id) {
        return (String::from_str("내 마피아팀"), group_ids(game, player, GroupKind::Mafia));
    }
    let mut label = String::from_str("내 역할(");
    label.append(player.role.value());
    label.append(")");
    (label, group_ids(game, player, GroupKind::SameRole))
}

/// The players with the listed ids that are in the game, in id-list order.
pub open spec fn players_with_ids(players: Seq<Player>, ids: Seq<u64>) -> Seq<Player>
    decreases ids.len(),
{
    if ids.len() == 0 {
        Seq::empty()
    } else {
        match player_with_id(players, ids.last()) {
            Some(p) => players_with_ids(players, ids.drop_last()).push(p),
            None => players_with_ids(players, ids.drop_last()),
        }
    }
}

/// The players with the listed ids that are in the game, in id-list order.
fn members_with_ids(game: &MafiaGame, ids: &Vec<u64>) -> (members: Vec<Player>)
    ensures
        members@ == players_with_ids(game.players@, ids@),
{
    let mut members: Vec<Player> = Vec::new();
    let mut i: usize = 0;
    while i < ids.len()
        invariant
            i <= ids@.len(),
            members@ == players_with_ids(game.players@, ids@.take(i as int)),
        decreases ids@.len() - i,
    {
        assert(ids@.take(i as int + 1).drop_last() =~= ids@.take(i as int));
        match game.get_player(ids[i]) {
            Some(p) => members.push(p),
            None => {},
        }
        i = i + 1;
    }
    assert(ids@.take(ids@.len() as int) =~= ids@);
    members
}

/// The status shown to a player by the status command: the game status, and
/// in anonymous games also the state of the player's own group.
pub open spec fn command_status(running: &RunningGame, requester_id: u64) -> Seq<char> {
    let message = game_status(running);
    match player_with_id(running.game.players@, requester_id) {
        None => message,
        Some(player) => if !running.anonymous_enabled {
            message
        } else {
            let group = status_group(&running.game, &player);
            let members = players_with_ids(running.game.players@, group.1);
            message + "\n\n"@ + group.0 + " 현황\n생존 **"@ + dec(living(members).len())
                + "명** / 사망 **"@ + dec(dead(members).len()) + "명**\n생존: "@
                + player_list_text(running, living(members)) + "\n사망: "@
                + player_list_text(running, dead(members))
        },
    }
}

/// The status shown to a player by the status command (`command_status_text`).
pub fn command_status_text(running: &RunningGame, requester_id: u64) -> (s: String)
    ensures
        s@ == command_status(running, requester_id),
{
    let message = game_status_text(running);
    let Some(player) = running.game.get_player(requester_id) else {
        return message;
    };
    if !running.anonymous_enabled {
        return message;
    }
    let (label, ids) = private_role_status_player_ids(running, &player);
    let members = members_with_ids(&running.game, &ids);
    let (alive, gone) = split_by_alive(&members);
    let mut s = message;
    s.append("\n\n");
    s.append(label.as_str());
    s.append(" 현황\n생존 **");
    push_dec(&mut s, alive.len() as u64);
    s.append("명** / 사망 **");
    push_dec(&mut s, gone.len() as u64);
    s.append("명**\n생존: ");
    let alive_list = status_player_list(running, &alive);
    s.append(alive_list.as_str());
    s.append("\n사망: ");
    let dead_list = status_player_list(running, &gone);
    s.append(dead_list.as_str());
    assert(s@ =~= command_status(running, requester_id));
    s
}

/// Whether the status command answers privately: in anonymous games a player's reply shows
/// their own team, so only they see it.
pub fn status_reply_is_private(running: &RunningGame, requester_id: u64) -> (b: bool)
    ensures
        b == (running.anonymous_enabled && player_with_id(running.game.players@, requester_id) is Some),
{
    running.anonymous_enabled && running.game.get_player(requester_id).is_some()
}

/// The description of the shaman channel.
pub open spec fn shaman_status(anonymous_enabled: bool) -> Seq<char> {
    if anonymous_enabled {
        "사망자와 영매의 익명 릴레이용 내부 채널입니다.\n익명 모드에서는 각자의 영매 개인 채널만 사용합니다."@
    } else {
        "사망자와 영매가 접신하는 채팅입니다.\n영매는 이 채널만 볼 수 있으며, 밤에만 말할 수 있습니다."@
    }
}

/// The description of the shaman channel (`shaman_chat_status_text`).
pub fn shaman_chat_status_text(running: &RunningGame) -> (s: &'static str)
    ensures
        s@ == shaman_status(running.anonymous_enabled),
{
    if running.anonymous_enabled {
        "사망자와 영매의 익명 릴레이용 내부 채널입니다.\n익명 모드에서는 각자의 영매 개인 채널만 사용합니다."
    } else {
        "사망자와 영매가 접신하는 채팅입니다.\n영매는 이 채널만 볼 수 있으며, 밤에만 말할 수 있습니다."
    }
}

/// The topic of a role's anonymous channel (`anonymous_role_channel_topic`).
pub fn anonymous_role_channel_topic(role: Role) -> (s: String)
    ensures
        s@ == role.name_spec() + " 익명 채팅"@,
{
    let mut s = String::from_str(role.value());
    s.append(" 익명 채팅");
    s
}


/// The name a player is ordered by in the final reveal, before lower-casing:
/// in anonymous games the anonymous name, or the real one when none is set.
pub open spec fn reveal_key(running: &RunningGame, p: Player) -> Seq<char> {
    if running.anonymous_enabled {
        match name_for(running.anonymous_aliases@, p.user_id) {
            Some(a) => a,
            None => p.name@,
        }
    } else {
        p.name@
    }
}

/// A player's role, death, final side and result tier.
pub open spec fn role_detail(game: &MafiaGame, p: Player, tier: Seq<char>) -> Seq<char> {
    p.role.name_spec() + (if p.alive { Seq::<char>::empty() } else { " (사망)"@ }) + " / 최종 진영: "@
        + final_team(game, &p) + " / "@ + tier
}

/// A player's line in the final reveal; anonymous games show the anonymous
/// name ("익명" when none is set) beside the real name.
pub open spec fn reveal_line(running: &RunningGame, p: Player, tier: Seq<char>) -> Seq<char> {
    if running.anonymous_enabled {
        let alias = match name_for(running.anonymous_aliases@, p.user_id) {
            Some(a) => a,
            None => "익명"@,
        };
        let real_name = match name_for(running.anonymous_original_names@, p.user_id) {
            Some(n) => n,
            None => p.name@,
        };
        "- "@ + alias + " = "@ + real_name + ": "@ + role_detail(&running.game, p, tier)
    } else {
        "- "@ + p.name@ + ": "@ + role_detail(&running.game, p, tier)
    }
}

/// The lower-cased ordering keys of the players in the final reveal.
pub open spec fn reveal_keys(running: &RunningGame) -> Seq<Seq<char>> {
    running.game.players@.map_values(|p: Player| lowercase(reveal_key(running, p)))
}

/// The final reveal: one line per player, ordered by name; `tiers[i]` is the
/// result tier of the `i`-th player.
pub open spec fn final_reveal(running: &RunningGame, tiers: Seq<Seq<char>>) -> Seq<char> {
    let players = running.game.players@;
    join(
        stable_order(players.len(), reveal_keys(running)).map_values(
            |i: usize| reveal_line(running, players[i as int], tiers[i as int]),
        ),
        "\n"@,
    )
}

fn reveal_key_text(running: &RunningGame, p: &Player) -> (s: String)
    ensures
        s@ == reveal_key(running, *p),
{
    if running.anonymous_enabled {
        match entry_for(&running.anonymous_aliases, p.user_id) {
            Some(j) => running.anonymous_aliases[j].1.clone(),
            None => p.name.clone(),
        }
    } else {
        p.name.clone()
    }
}

fn reveal_line_text(running: &RunningGame, p: &Player, tier: &str) -> (s: String)
    ensures
        s@ == reveal_line(running, *p, tier@),
{
    let mut detail = String::from_str(p.role.value());
    if !p.alive {
        detail.append(" (사망)");
    }
    detail.append(" / 최종 진영: ");
    detail.append(final_team_text(&running.game, p));
    detail.append(" / ");
    detail.append(tier);
    assert(detail@ =~= role_detail(&running.game, *p, tier@));
    let mut line = String::from_str("- ");
    if running.anonymous_enabled {
        match entry_for(&running.anonymous_aliases, p.user_id) {
            Some(j) => line.append(running.anonymous_aliases[j].1.as_str()),
            None => line.append("익명"),
        }
        line.append(" = ");
        match entry_for(&running.anonymous_original_names, p.user_id) {
            Some(j) => line.append(running.anonymous_original_names[j].1.as_str()),
            None => line.append(p.name.as_str()),
        }
    } else {
        line.append(p.name.as_str());
    }
    line.append(": ");
    line.append(detail.as_str());
    line
}

/// The final reveal of every player's role (`final_role_reveal_text`).  The
/// result tier of each player, which the game engine computes, is handed in
/// by the caller in player order.
pub fn final_role_reveal_text(running: &RunningGame, tiers: &Vec<String>) -> (s: String)
    requires
        tiers@.len() == running.game.players@.len(),
    ensures
        s@ == final_reveal(running, views(tiers@)),
{
    let players = &running.game.players;
    let n = players.len();
    let ghost wanted = reveal_keys(running);
    let mut keys: Vec<Vec<char>> = Vec::new();
    let mut i: usize = 0;
    while i < n
        invariant
            n == players@.len(),
            players@ == running.game.players@,
            wanted == reveal_keys(running),
            i <= n,
            keys@.len() == i,
            forall|k: int| 0 <= k < i ==> (#[trigger] keys@[k])@ == wanted[k],
        decreases n - i,
    {
        let name = reveal_key_text(running, &players[i]);
        let lower = to_lower(name.as_str());
        keys.push(chars_of(lower.as_str()));
        i = i + 1;
    }
    assert(key_views(keys@) =~= wanted);
    let order = stable_order_by_keys(&keys);
    let ghost lines_spec = stable_order(n as nat, wanted).map_values(
        |i: usize| reveal_line(running, players@[i as int], views(tiers@)[i as int]),
    );
    let mut lines: Vec<String> = Vec::new();
    let mut k: usize = 0;
    while k < n
        invariant
            n == players@.len(),
            n == tiers@.len(),
            n == order@.len(),
            players@ == running.game.players@,
            order@ == stable_order(n as nat, wanted),
            forall|j: int| 0 <= j < n ==> (#[trigger] order@[j]) < n,
            lines_spec == stable_order(n as nat, wanted).map_values(
                |i: usize| reveal_line(running, players@[i as int], views(tiers@)[i as int]),
            ),
            k <= n,
            lines@.len() == k,
            forall|j: int| 0 <= j < k ==> (#[trigger] lines@[j])@ == lines_spec[j],
        decreases n - k,
    {
        let idx = order[k];
        assert(views(tiers@)[idx as int] == tiers@[idx as int]@);
        let line = reveal_line_text(running, &players[idx], tiers[idx].as_str());
        lines.push(line);
        k = k + 1;
    }
    assert(views(lines@) =~= lines_spec);
    join_strings(&lines, "\n")
}


/// The input channels of one role room, in list order.
pub open spec fn role_channels(entries: Seq<((u64, Role), u64)>, role: Role) -> Seq<((u64, Role), u64)>
    decreases entries.len(),
{
    if entries.len() == 0 {
        Seq::empty()
    } else if entries.last().0.1 == role {
        role_channels(entries.drop_last(), role).push(entries.last())
    } else {
        role_channels(entries.drop_last(), role)
    }
}

/// Position `a` goes before position `b` when its user id is smaller.
pub open spec fn id_before(entries: Seq<((u64, Role), u64)>) -> spec_fn(usize, usize) -> bool {
    |a: usize, b: usize| entries[a as int].0.0 < entries[b as int].0.0
}

/// The personal input channels that show a role room's status: in anonymous
/// games those of the role, ordered by user id; nothing otherwise.
pub open spec fn role_status_targets(running: &RunningGame, role: Role) -> Option<Seq<((u64, Role), u64)>> {
    if !running.anonymous_enabled {
        None
    } else {
        let m = role_channels(running.anonymous_role_input_channel_ids@, role);
        Some(order_by(m.len(), id_before(m)).map_values(|i: usize| m[i as int]))
    }
}

/// The personal input channels that show a role room's status
/// (`anonymous_role_status_targets`).
pub fn anonymous_role_status_targets(running: &RunningGame, role: Role) -> (r: Option<Vec<((u64, Role), u64)>>)
    ensures
        match r {
            Some(v) => role_status_targets(running, role) == Some(v@),
            None => role_status_targets(running, role) is None,
        },
{
    if !running.anonymous_enabled {
        return None;
    }
    let entries = &running.anonymous_role_input_channel_ids;
    let mut matching: Vec<((u64, Role), u64)> = Vec::new();
    let mut i: usize = 0;
    while i < entries.len()
        invariant
            i <= entries@.len(),
            matching@ == role_channels(entries@.take(i as int), role),
        decreases entries@.len() - i,
    {
        assert(entries@.take(i as int + 1).drop_last() =~= entries@.take(i as int));
        let entry = entries[i];
        if entry.0.1 == role {
            matching.push(entry);
        }
        i = i + 1;
    }
    assert(entries@.take(entries@.len() as int) =~= entries@);
    let n = matching.len();
    let goes_before = |a: usize, b: usize| -> (r: bool)
        requires
            a < matching@.len(),
            b < matching@.len(),
        ensures
            r == (matching@[a as int].0.0 < matching@[b as int].0.0),
    {
        matching[a].0.0 < matching[b].0.0
    };
    let order = sort_positions(n, &goes_before, Ghost(id_before(matching@)));
    let mut out: Vec<((u64, Role), u64)> = Vec::new();
    let mut k: usize = 0;
    while k < n
        invariant
            k <= n,
            n == matching@.len(),
            order@.len() == n,
            forall|j: int| 0 <= j < n ==> (#[trigger] order@[j]) < n,
            out@.len() == k,
            forall|j: int| 0 <= j < k ==> #[trigger] out@[j] == matching@[order@[j] as int],
        decreases n - k,
    {
        out.push(matching[order[k]]);
        k = k + 1;
    }
    assert(out@ =~= order@.map_values(|i: usize| matching@[i as int]));
    Some(out)
}

} // verus!
