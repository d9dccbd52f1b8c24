//! A game as the bot runs it: the game state plus the anonymous names, and
//! the rules that decide how players are named and picked.
use vstd::prelude::*;
use crate::game::{MafiaGame, Player, player_with_id};
use crate::role::Role;
use crate::permissions::{ChannelRoleIds, OverwriteTarget, PermissionOverwrite};
use crate::sort::{stable_order, stable_order_by_keys, key_views};
use crate::text::{trim, trimmed_chars, chars_of, contains_chars, contains_text, views};

verus! {

/// A running game with its anonymous-mode state.
pub struct RunningGame {
    pub game: MafiaGame,
    pub anonymous_enabled: bool,
    /// The anonymous name of each player, by user id.
    pub anonymous_aliases: Vec<(u64, String)>,
    /// The real name of each player, by user id, kept for the final reveal.
    pub anonymous_original_names: Vec<(u64, String)>,
    /// The personal anonymous input channel of each (player, role) room.
    pub anonymous_role_input_channel_ids: Vec<((u64, Role), u64)>,
    /// The role each player was dealt when the game started, by user id.
    pub initial_roles: Vec<(u64, Role)>,
    /// The game's main channel.
    pub channel_id: u64,
    /// The private team channel of each role.
    pub private_channel_ids: Vec<(Role, u64)>,
    /// The status message in each private team channel, and its text.
    pub private_role_status_message_ids: Vec<(Role, u64)>,
    pub private_role_status_texts: Vec<(Role, String)>,
    /// The game status message and its text.
    pub game_status_message_id: Option<u64>,
    pub game_status_text: Option<String>,
    /// The memo channel of each player.
    pub memo_channel_ids: Vec<(u64, u64)>,
    /// The anonymous general input channel of each player, and the owner of each such channel.
    pub anonymous_input_channel_ids: Vec<(u64, u64)>,
    pub anonymous_input_channel_owners: Vec<(u64, u64)>,
    /// The anonymous dead-chat input channel of each player, and the owner of each such channel.
    pub anonymous_dead_input_channel_ids: Vec<(u64, u64)>,
    pub anonymous_dead_input_channel_owners: Vec<(u64, u64)>,
    /// Players whose dead chat is open, and players waiting for it.
    pub dead_chat_unlocked_ids: Vec<u64>,
    pub pending_dead_chat_user_ids: Vec<u64>,
    /// From which day each dead player sees their old role chat.
    pub dead_role_chat_visible_from_days: Vec<(u64, u32)>,
    /// The anonymous shaman input channel of each player, and the owner of each such channel.
    pub anonymous_shaman_input_channel_ids: Vec<(u64, u64)>,
    pub anonymous_shaman_input_channel_owners: Vec<(u64, u64)>,
    /// The (player, role) room of each anonymous role input channel.
    pub anonymous_role_input_channels: Vec<(u64, (u64, Role))>,
    /// The status message in each anonymous role room, and its text.
    pub anonymous_role_input_status_message_ids: Vec<((u64, Role), u64)>,
    pub anonymous_role_status_texts: Vec<((u64, Role), String)>,
    /// The webhook used to relay into each channel.
    pub anonymous_webhooks: Vec<(u64, u64)>,
    /// The server roles used for channel permissions, once looked up.
    pub channel_role_ids: Option<ChannelRoleIds>,
    /// The category the game's channels are made in.
    pub source_category_id: Option<u64>,
    /// The last overwrite set on each (channel, target).
    pub permission_overwrite_cache: Vec<((u64, OverwriteTarget), PermissionOverwrite)>,
    /// Players confirmed to still be server members.
    pub verified_member_ids: Vec<u64>,
    /// The main channel's overwrites before the game, and those the game set, by role.
    pub original_game_channel_overwrites: Vec<(u64, PermissionOverwrite)>,
    pub game_channel_overwrites: Vec<(u64, PermissionOverwrite)>,
    /// The main channel's overwrites the game set, by member.
    pub member_channel_overwrites: Vec<(u64, PermissionOverwrite)>,
    /// Each channel's slow mode before the game, and the slow mode last set.
    pub original_slowmode_delays: Vec<(u64, u16)>,
    pub channel_slowmode_cache: Vec<(u64, u16)>,
    /// The shared shaman channel, its status message and that message's text.
    pub shaman_channel_id: Option<u64>,
    pub shaman_status_message_id: Option<u64>,
    pub shaman_status_text: Option<String>,
    /// The overwrites kept while a player is a frog or seduced, by member.
    pub frog_game_channel_overwrites: Vec<(u64, PermissionOverwrite)>,
    pub madam_seduction_channel_overwrites: Vec<(u64, PermissionOverwrite)>,
}

/// The name stored for `id` (the first entry for it).
pub open spec fn name_for(entries: Seq<(u64, String)>, id: u64) -> Option<Seq<char>>
    decreases entries.len(),
{
    if entries.len() == 0 {
        None
    } else if entries[0].0 == id {
        Some(entries[0].1@)
    } else {
        name_for(entries.drop_first(), id)
    }
}

/// Position of the first entry for `id`.
pub fn entry_for(entries: &Vec<(u64, String)>, id: u64) -> (r: Option<usize>)
    ensures
        match r {
            Some(i) => i < entries@.len() && name_for(entries@, id) == Some(entries@[i as int].1@),
            None => name_for(entries@, id) is None,
        },
{
    let mut i: usize = 0;
    assert(entries@.skip(0) =~= entries@);
    while i < entries.len()
        invariant
            i <= entries@.len(),
            name_for(entries@, id) == name_for(entries@.skip(i as int), id),
        decreases entries@.len() - i,
    {
        assert(entries@.skip(i as int).drop_first() =~= entries@.skip(i as int + 1));
        if entries[i].0 == id {
            return Some(i);
        }
        i = i + 1;
    }
    None
}

/// How a player is shown to others: the anonymous name in anonymous games
/// ("익명" when none is set), the real name otherwise.
pub open spec fn sender_label(running: &RunningGame, player: &Player) -> Seq<char> {
    if running.anonymous_enabled {
        match name_for(running.anonymous_aliases@, player.user_id) {
            Some(a) => a,
            None => "익명"@,
        }
    } else {
        player.name@
    }
}

/// The label on every message a player sends in a game
/// (`anonymous_sender_label`).
pub fn anonymous_sender_label(running: &RunningGame, sender: &Player) -> (s: String)
    ensures
        s@ == sender_label(running, sender),
{
    if running.anonymous_enabled {
        match entry_for(&running.anonymous_aliases, sender.user_id) {
            Some(i) => running.anonymous_aliases[i].1.clone(),
            None => String::from_str("익명"),
        }
    } else {
        sender.name.clone()
    }
}

/// The name shown for a player in status lists; the same rule as message labels.
pub fn status_display_name(running: &RunningGame, player: &Player) -> (s: String)
    ensures
        s@ == sender_label(running, player),
{
    anonymous_sender_label(running, player)
}

/// The guide given for a memo target that is not picked by anonymous name in
/// an anonymous game.
pub const MEMO_ANONYMOUS_TARGET_GUIDE: &'static str = "익명 게임에서는 메모 대상을 참가자 항목이 아닌 익명이름 항목에서 골라 주세요.";

/// The one answer to every memo target that is not picked by anonymous name
/// in an anonymous game; it names no player.
pub open spec fn memo_guide() -> Seq<char> {
    MEMO_ANONYMOUS_TARGET_GUIDE@
}

/// The answer to a memo target that is not in the game.
pub open spec fn memo_not_participant() -> Seq<char> {
    "메모 대상은 현재 게임 참가자여야 합니다."@
}

/// The answer when no memo target is given.
pub open spec fn memo_no_target() -> Seq<char> {
    "메모 대상 참가자를 선택하세요."@
}

/// The id of the first anonymous name equal to `alias`.
pub open spec fn id_for_alias(entries: Seq<(u64, String)>, alias: Seq<char>) -> Option<u64>
    decreases entries.len(),
{
    if entries.len() == 0 {
        None
    } else if entries[0].1@ == alias {
        Some(entries[0].0)
    } else {
        id_for_alias(entries.drop_first(), alias)
    }
}

/// The memo target picked by user or by anonymous name.  Anonymous games
/// accept only an anonymous name, and answer anything else with the same
/// guide; other games accept only a participant picked as a user.
pub open spec fn memo_target_spec(running: &RunningGame, user_id: Option<u64>, alias: Option<Seq<char>>) -> Result<Player, Seq<char>> {
    if running.anonymous_enabled {
        if user_id is Some {
            Err(memo_guide())
        } else {
            match alias {
                None => Err(memo_guide()),
                Some(a) => {
                    let t = trim(a);
                    if t.len() == 0 {
                        Err(memo_guide())
                    } else {
                        match id_for_alias(running.anonymous_aliases@, t) {
                            None => Err(memo_guide()),
                            Some(id) => match player_with_id(running.game.players@, id) {
                                Some(p) => Ok(p),
                                None => Err(memo_guide()),
                            },
                        }
                    }
                },
            }
        }
    } else {
        match user_id {
            None => Err(memo_no_target()),
            Some(id) => match player_with_id(running.game.players@, id) {
                Some(p) => Ok(p),
                None => Err(memo_not_participant()),
            },
        }
    }
}

fn alias_owner(entries: &Vec<(u64, String)>, alias: &Vec<char>) -> (r: Option<u64>)
    ensures
        r == id_for_alias(entries@, alias@),
{
    let mut i: usize = 0;
    assert(entries@.skip(0) =~= entries@);
    while i < entries.len()
        invariant
            i <= entries@.len(),
            id_for_alias(entries@, alias@) == id_for_alias(entries@.skip(i as int), alias@),
        decreases entries@.len() - i,
    {
        assert(entries@.skip(i as int).drop_first() =~= entries@.skip(i as int + 1));
        assert(entries@.skip(i as int)[0] == entries@[i as int]);
        let name = chars_of(entries[i].1.as_str());
        let same = name.len() == alias.len() && contains_chars(&name, alias);
        proof {
            if name@.len() == alias@.len() {
                if contains_text(name@, alias@) {
                    let k = choose|k: int| 0 <= k && k + alias@.len() <= name@.len() && #[trigger] name@.subrange(k, k + alias@.len()) == alias@;
                    assert(k == 0);
                    assert(name@.subrange(0, name@.len() as int) =~= name@);
                } else {
                    if name@ == alias@ {
                        assert(name@.subrange(0int, 0int + alias@.len()) =~= name@);
                    }
                }
            }
        }
        if same {
            return Some(entries[i].0);
        }
        i = i + 1;
    }
    None
}

/// The memo target picked by user or by anonymous name (`memo_target`).
pub fn memo_target(running: &RunningGame, user_id: Option<u64>, alias: Option<&str>) -> (r: Result<Player, String>)
    ensures
        match memo_target_spec(running, user_id, match alias { Some(a) => Some(a@), None => None }) {
            Ok(p) => r == Ok::<Player, String>(p),
            Err(e) => r matches Err(msg) && msg@ == e,
        },
{
    if running.anonymous_enabled {
        let guide = MEMO_ANONYMOUS_TARGET_GUIDE;
        if user_id.is_some() {
            return Err(String::from_str(guide));
        }
        let Some(a) = alias else {
            return Err(String::from_str(guide));
        };
        let t = trimmed_chars(a);
        if t.len() == 0 {
            return Err(String::from_str(guide));
        }
        match alias_owner(&running.anonymous_aliases, &t) {
            None => Err(String::from_str(guide)),
            Some(id) => match running.game.get_player(id) {
                Some(p) => Ok(p),
                None => Err(String::from_str(guide)),
            },
        }
    } else {
        match user_id {
            None => Err(String::from_str("메모 대상 참가자를 선택하세요.")),
            Some(id) => match running.game.get_player(id) {
                Some(p) => Ok(p),
                None => Err(String::from_str("메모 대상은 현재 게임 참가자여야 합니다.")),
            },
        }
    }
}

/// The anonymous names that contain `query`, in list order.
pub open spec fn matching_aliases(entries: Seq<(u64, String)>, query: Seq<char>) -> Seq<Seq<char>>
    decreases entries.len(),
{
    if entries.len() == 0 {
        Seq::empty()
    } else if contains_text(entries.last().1@, query) {
        matching_aliases(entries.drop_last(), query).push(entries.last().1@)
    } else {
        matching_aliases(entries.drop_last(), query)
    }
}

/// The anonymous names offered as memo targets: those containing the trimmed
/// query, sorted; none outside anonymous games.
pub open spec fn alias_choices(running: &RunningGame, query: Seq<char>) -> Seq<Seq<char>> {
    if !running.anonymous_enabled {
        Seq::empty()
    } else {
        let m = matching_aliases(running.anonymous_aliases@, trim(query));
        stable_order(m.len(), m).map_values(|i: usize| m[i as int])
    }
}

/// The anonymous names offered as memo targets (`memo_alias_choices`).
pub fn memo_alias_choices(running: &RunningGame, query: &str) -> (v: Vec<String>)
    ensures
        views(v@) == alias_choices(running, query@),
{
    if !running.anonymous_enabled {
        let v: Vec<String> = Vec::new();
        assert(views(v@) =~= alias_choices(running, query@));
        return v;
    }
    let q = trimmed_chars(query);
    let entries = &running.anonymous_aliases;
    let mut keys: Vec<Vec<char>> = Vec::new();
    let mut i: usize = 0;
    while i < entries.len()
        invariant
            i <= entries@.len(),
            q@ == trim(query@),
            key_views(keys@) == matching_aliases(entries@.take(i as int), q@),
        decreases entries@.len() - i,
    {
        assert(entries@.take(i as int + 1).drop_last() =~= entries@.take(i as int));
        let name = chars_of(entries[i].1.as_str());
        if contains_chars(&name, &q) {
            keys.push(name);
            assert(key_views(keys@) =~= matching_aliases(entries@.take(i as int + 1), q@));
        } else {
            assert(key_views(keys@) =~= matching_aliases(entries@.take(i as int + 1), q@));
        }
        i = i + 1;
    }
    assert(entries@.take(entries@.len() as int) =~= entries@);
    let ghost m = key_views(keys@);
    let order = stable_order_by_keys(&keys);
    let mut v: Vec<String> = Vec::new();
    let mut k: usize = 0;
    while k < order.len()
        invariant
            k <= order@.len(),
            order@.len() == keys@.len(),
            m == key_views(keys@),
            forall|j: int| 0 <= j < order@.len() ==> (#[trigger] order@[j]) < keys@.len(),
            v@.len() == k,
            forall|j: int| 0 <= j < k ==> (#[trigger] v@[j])@ == m[order@[j] as int],
        decreases order@.len() - k,
    {
        let idx = order[k];
        v.push(crate::text::string_of(&keys[idx]));
        k = k + 1;
    }
    assert(views(v@) =~= alias_choices(running, query@));
    v
}


/// In an anonymous game, picking a memo target by user never reveals
/// anything: every such pick, of a participant or of anyone else, with or
/// without an anonymous name beside it, gets the same guide.
pub proof fn law_anonymous_memo_reveals_nothing(running: &RunningGame, a: u64, b: u64, alias: Option<Seq<char>>)
    requires
        running.anonymous_enabled,
    ensures
        memo_target_spec(running, Some(a), alias) == Err::<Player, Seq<char>>(memo_guide()),
        memo_target_spec(running, Some(a), alias) == memo_target_spec(running, Some(b), None),
{
}

/// In an anonymous game a sender's label depends on nothing but the user id:
/// not on the role, the life state or the real name.
pub proof fn law_anonymous_label_only_by_id(running: &RunningGame, p: &Player, q: &Player)
    requires
        running.anonymous_enabled,
        p.user_id == q.user_id,
    ensures
        sender_label(running, p) == sender_label(running, q),
{
}


/// The positions' channel ids of a table of channels.
pub open spec fn channel_values<K>(s: Seq<(K, u64)>) -> Seq<u64> {
    s.map_values(|p: (K, u64)| p.1)
}

/// The channels a finished game deletes: the private team channels, the memo
/// channels, the anonymous general, dead-chat, shaman and role input
/// channels, and the shared shaman channel.
pub open spec fn cleanup_channels(r: RunningGame) -> Seq<u64> {
    channel_values(r.private_channel_ids@) + channel_values(r.memo_channel_ids@)
        + channel_values(r.anonymous_input_channel_ids@) + channel_values(r.anonymous_dead_input_channel_ids@)
        + channel_values(r.anonymous_shaman_input_channel_ids@) + channel_values(r.anonymous_role_input_channel_ids@)
        + match r.shaman_channel_id {
            Some(c) => seq![c],
            None => Seq::empty(),
        }
}

/// Every channel, message, overwrite, slow-mode and anonymous table of the
/// game is empty, and every such id is unset.
pub open spec fn channel_state_cleared(r: RunningGame) -> bool {
    &&& r.private_channel_ids@.len() == 0
    &&& r.private_role_status_message_ids@.len() == 0
    &&& r.private_role_status_texts@.len() == 0
    &&& r.memo_channel_ids@.len() == 0
    &&& r.anonymous_input_channel_ids@.len() == 0
    &&& r.anonymous_input_channel_owners@.len() == 0
    &&& r.anonymous_dead_input_channel_ids@.len() == 0
    &&& r.anonymous_dead_input_channel_owners@.len() == 0
    &&& r.dead_chat_unlocked_ids@.len() == 0
    &&& r.pending_dead_chat_user_ids@.len() == 0
    &&& r.dead_role_chat_visible_from_days@.len() == 0
    &&& r.anonymous_shaman_input_channel_ids@.len() == 0
    &&& r.anonymous_shaman_input_channel_owners@.len() == 0
    &&& r.anonymous_role_input_channel_ids@.len() == 0
    &&& r.anonymous_role_input_channels@.len() == 0
    &&& r.anonymous_role_input_status_message_ids@.len() == 0
    &&& r.anonymous_role_status_texts@.len() == 0
    &&& r.anonymous_aliases@.len() == 0
    &&& r.anonymous_original_names@.len() == 0
    &&& r.anonymous_webhooks@.len() == 0
    &&& r.permission_overwrite_cache@.len() == 0
    &&& r.verified_member_ids@.len() == 0
    &&& r.original_game_channel_overwrites@.len() == 0
    &&& r.game_channel_overwrites@.len() == 0
    &&& r.member_channel_overwrites@.len() == 0
    &&& r.original_slowmode_delays@.len() == 0
    &&& r.channel_slowmode_cache@.len() == 0
    &&& r.frog_game_channel_overwrites@.len() == 0
    &&& r.madam_seduction_channel_overwrites@.len() == 0
    &&& r.game_status_message_id is None
    &&& r.game_status_text is None
    &&& r.channel_role_ids is None
    &&& r.source_category_id is None
    &&& r.shaman_channel_id is None
    &&& r.shaman_status_message_id is None
    &&& r.shaman_status_text is None
}

/// `after` differs from `before` at most in the game and in the tables that
/// a finished game clears.
pub open spec fn only_game_and_tables_changed(before: RunningGame, after: RunningGame) -> bool {
    after == (RunningGame {
        game: after.game,
        private_channel_ids: after.private_channel_ids,
        private_role_status_message_ids: after.private_role_status_message_ids,
        private_role_status_texts: after.private_role_status_texts,
        memo_channel_ids: after.memo_channel_ids,
        anonymous_input_channel_ids: after.anonymous_input_channel_ids,
        anonymous_input_channel_owners: after.anonymous_input_channel_owners,
        anonymous_dead_input_channel_ids: after.anonymous_dead_input_channel_ids,
        anonymous_dead_input_channel_owners: after.anonymous_dead_input_channel_owners,
        dead_chat_unlocked_ids: after.dead_chat_unlocked_ids,
        pending_dead_chat_user_ids: after.pending_dead_chat_user_ids,
        dead_role_chat_visible_from_days: after.dead_role_chat_visible_from_days,
        anonymous_shaman_input_channel_ids: after.anonymous_shaman_input_channel_ids,
        anonymous_shaman_input_channel_owners: after.anonymous_shaman_input_channel_owners,
        anonymous_role_input_channel_ids: after.anonymous_role_input_channel_ids,
        anonymous_role_input_channels: after.anonymous_role_input_channels,
        anonymous_role_input_status_message_ids: after.anonymous_role_input_status_message_ids,
        anonymous_role_status_texts: after.anonymous_role_status_texts,
        anonymous_aliases: after.anonymous_aliases,
        anonymous_original_names: after.anonymous_original_names,
        anonymous_webhooks: after.anonymous_webhooks,
        permission_overwrite_cache: after.permission_overwrite_cache,
        verified_member_ids: after.verified_member_ids,
        original_game_channel_overwrites: after.original_game_channel_overwrites,
        game_channel_overwrites: after.game_channel_overwrites,
        member_channel_overwrites: after.member_channel_overwrites,
        original_slowmode_delays: after.original_slowmode_delays,
        channel_slowmode_cache: after.channel_slowmode_cache,
        frog_game_channel_overwrites: after.frog_game_channel_overwrites,
        madam_seduction_channel_overwrites: after.madam_seduction_channel_overwrites,
        game_status_message_id: after.game_status_message_id,
        game_status_text: after.game_status_text,
        channel_role_ids: after.channel_role_ids,
        source_category_id: after.source_category_id,
        shaman_channel_id: after.shaman_channel_id,
        shaman_status_message_id: after.shaman_status_message_id,
        shaman_status_text: after.shaman_status_text,
        ..before
    })
}

/// The game after it ends: the phase is over, every player whose real name
/// was kept has it back, every channel table is emptied, and nothing else
/// changes.
pub open spec fn finished(before: RunningGame, after: RunningGame) -> bool {
    &&& after.game.phase == crate::game::Phase::Ended
    &&& after.game.players@.len() == before.game.players@.len()
    &&& forall|i: int| 0 <= i < before.game.players@.len() ==> {
        let p = #[trigger] before.game.players@[i];
        let q = after.game.players@[i];
        &&& q.user_id == p.user_id
        &&& q.role == p.role
        &&& q.alive == p.alive
        &&& q.name@ == match name_for(before.anonymous_original_names@, p.user_id) {
            Some(n) => n,
            None => p.name@,
        }
    }
    &&& after.game == (MafiaGame { players: after.game.players, phase: crate::game::Phase::Ended, ..before.game })
    &&& channel_state_cleared(after)
    &&& only_game_and_tables_changed(before, after)
}

/// Empties the channel tables.
fn clear_channel_state(running: &mut RunningGame)
    ensures
        channel_state_cleared(*final(running)),
        only_game_and_tables_changed(*old(running), *final(running)),
        final(running).game == old(running).game,
{
    running.private_channel_ids = Vec::new();
    running.private_role_status_message_ids = Vec::new();
    running.private_role_status_texts = Vec::new();
    running.memo_channel_ids = Vec::new();
    running.anonymous_input_channel_ids = Vec::new();
    running.anonymous_input_channel_owners = Vec::new();
    running.anonymous_dead_input_channel_ids = Vec::new();
    running.anonymous_dead_input_channel_owners = Vec::new();
    running.dead_chat_unlocked_ids = Vec::new();
    running.pending_dead_chat_user_ids = Vec::new();
    running.dead_role_chat_visible_from_days = Vec::new();
    running.anonymous_shaman_input_channel_ids = Vec::new();
    running.anonymous_shaman_input_channel_owners = Vec::new();
    running.anonymous_role_input_channel_ids = Vec::new();
    running.anonymous_role_input_channels = Vec::new();
    running.anonymous_role_input_status_message_ids = Vec::new();
    running.anonymous_role_status_texts = Vec::new();
    running.anonymous_aliases = Vec::new();
    running.anonymous_original_names = Vec::new();
    running.anonymous_webhooks = Vec::new();
    running.permission_overwrite_cache = Vec::new();
    running.verified_member_ids = Vec::new();
    running.original_game_channel_overwrites = Vec::new();
    running.game_channel_overwrites = Vec::new();
    running.member_channel_overwrites = Vec::new();
    running.original_slowmode_delays = Vec::new();
    running.channel_slowmode_cache = Vec::new();
    running.frog_game_channel_overwrites = Vec::new();
    running.madam_seduction_channel_overwrites = Vec::new();
    running.game_status_message_id = None;
    running.game_status_text = None;
    running.channel_role_ids = None;
    running.source_category_id = None;
    running.shaman_channel_id = None;
    running.shaman_status_message_id = None;
    running.shaman_status_text = None;
}

/// Appends the channel ids of a table of channels.
fn push_channels<K: Copy>(out: &mut Vec<u64>, table: &Vec<(K, u64)>)
    ensures
        final(out)@ == old(out)@ + channel_values(table@),
{
    let ghost start = out@;
    let mut i: usize = 0;
    while i < table.len()
        invariant
            i <= table@.len(),
            out@ == start + channel_values(table@.take(i as int)),
        decreases table@.len() - i,
    {
        assert(channel_values(table@.take(i + 1)) =~= channel_values(table@.take(i as int)).push(table@[i as int].1));
        out.push(table[i].1);
        i = i + 1;
    }
    assert(table@.take(table@.len() as int) =~= table@);
}

/// The channels to delete when a game ends.
fn cleanup_channel_ids(running: &RunningGame) -> (v: Vec<u64>)
    ensures
        v@ == cleanup_channels(*running),
{
    let mut v: Vec<u64> = Vec::new();
    push_channels(&mut v, &running.private_channel_ids);
    push_channels(&mut v, &running.memo_channel_ids);
    push_channels(&mut v, &running.anonymous_input_channel_ids);
    push_channels(&mut v, &running.anonymous_dead_input_channel_ids);
    push_channels(&mut v, &running.anonymous_shaman_input_channel_ids);
    push_channels(&mut v, &running.anonymous_role_input_channel_ids);
    if let Some(c) = running.shaman_channel_id {
        v.push(c);
    }
    assert(v@ =~= cleanup_channels(*running));
    v
}

/// Ends the game state when a game is cleaned up: gives the channels to delete, ends the phase, puts the real
/// names back and empties every channel table.
pub fn finish_game(running: &mut RunningGame) -> (deleted: Vec<u64>)
    ensures
        finished(*old(running), *final(running)),
        deleted@ == cleanup_channels(*old(running)),
{
    let deleted = cleanup_channel_ids(running);
    let ghost before = *running;
    running.game.phase = crate::game::Phase::Ended;
    let mut i: usize = 0;
    while i < running.game.players.len()
        invariant
            i <= running.game.players@.len(),
            running.game.players@.len() == before.game.players@.len(),
            running.anonymous_original_names@ == before.anonymous_original_names@,
            running.game == (MafiaGame { players: running.game.players, phase: crate::game::Phase::Ended, ..before.game }),
            *running == (RunningGame { game: running.game, ..before }),
            forall|k: int| 0 <= k < before.game.players@.len() ==> {
                let p = #[trigger] before.game.players@[k];
                let q = running.game.players@[k];
                &&& q.user_id == p.user_id
                &&& q.role == p.role
                &&& q.alive == p.alive
                &&& q.name@ == if k < i {
                    match name_for(before.anonymous_original_names@, p.user_id) {
                        Some(n) => n,
                        None => p.name@,
                    }
                } else {
                    p.name@
                }
            },
        decreases running.game.players@.len() - i,
    {
        let id = running.game.players[i].user_id;
        match entry_for(&running.anonymous_original_names, id) {
            Some(j) => {
                let original = running.anonymous_original_names[j].1.clone();
                let mut player = running.game.players[i].duplicate();
                player.name = original;
                running.game.players.set(i, player);
            },
            None => {},
        }
        i = i + 1;
    }
    clear_channel_state(running);
    deleted
}

/// The role stored for `id` (the first entry for it).
pub open spec fn role_for(entries: Seq<(u64, Role)>, id: u64) -> Option<Role>
    decreases entries.len(),
{
    if entries.len() == 0 {
        None
    } else if entries[0].0 == id {
        Some(entries[0].1)
    } else {
        role_for(entries.drop_first(), id)
    }
}

fn find_role(entries: &Vec<(u64, Role)>, id: u64) -> (r: Option<Role>)
    ensures
        r == role_for(entries@, id),
{
    let mut i: usize = 0;
    assert(entries@.skip(0) =~= entries@);
    while i < entries.len()
        invariant
            i <= entries@.len(),
            role_for(entries@, id) == role_for(entries@.skip(i as int), id),
        decreases entries@.len() - i,
    {
        assert(entries@.skip(i as int).drop_first() =~= entries@.skip(i as int + 1));
        if entries[i].0 == id {
            return Some(entries[i].1);
        }
        i = i + 1;
    }
    None
}

/// The roles dealt at the start of a game: each player's role, in seat order.
pub fn initial_roles_of(game: &MafiaGame) -> (v: Vec<(u64, Role)>)
    ensures
        v@.len() == game.players@.len(),
        forall|i: int| 0 <= i < v@.len() ==> #[trigger] v@[i] == (game.players@[i].user_id, game.players@[i].role),
{
    let mut v: Vec<(u64, Role)> = Vec::new();
    let mut i: usize = 0;
    while i < game.players.len()
        invariant
            i <= game.players@.len(),
            v@.len() == i,
            forall|j: int| 0 <= j < i ==> #[trigger] v@[j] == (game.players@[j].user_id, game.players@[j].role),
        decreases game.players@.len() - i,
    {
        v.push((game.players[i].user_id, game.players[i].role));
        i = i + 1;
    }
    v
}

/// What a stopped game leaves in the role history: every player, in seat
/// order, with their name and the role they were dealt at the start (their
/// current role when none was recorded).
pub fn aborted_assignments(running: &RunningGame) -> (v: Vec<(u64, String, Role)>)
    ensures
        v@.len() == running.game.players@.len(),
        forall|i: int| 0 <= i < v@.len() ==> {
            let p = running.game.players@[i];
            &&& (#[trigger] v@[i]).0 == p.user_id
            &&& v@[i].1@ == p.name@
            &&& v@[i].2 == match role_for(running.initial_roles@, p.user_id) {
                Some(r) => r,
                None => p.role,
            }
        },
{
    let players = &running.game.players;
    let mut v: Vec<(u64, String, Role)> = Vec::new();
    let mut i: usize = 0;
    while i < players.len()
        invariant
            i <= players@.len(),
            players@ == running.game.players@,
            v@.len() == i,
            forall|j: int| 0 <= j < i ==> {
                let p = players@[j];
                &&& (#[trigger] v@[j]).0 == p.user_id
                &&& v@[j].1@ == p.name@
                &&& v@[j].2 == match role_for(running.initial_roles@, p.user_id) {
                    Some(r) => r,
                    None => p.role,
                }
            },
        decreases players@.len() - i,
    {
        let p = &players[i];
        let role = match find_role(&running.initial_roles, p.user_id) {
            Some(r) => r,
            None => p.role,
        };
        v.push((p.user_id, p.name.clone(), role));
        i = i + 1;
    }
    v
}

impl RunningGame {
    /// A game that has just started in `channel_id`: no names, channels or
    /// overwrites recorded yet.
    pub fn new(game: MafiaGame, anonymous_enabled: bool, channel_id: u64) -> (r: RunningGame)
        ensures
            r.game == game,
            r.anonymous_enabled == anonymous_enabled,
            r.channel_id == channel_id,
            r.initial_roles@.len() == 0,
            channel_state_cleared(r),
    {
        RunningGame {
            game,
            anonymous_enabled,
            initial_roles: Vec::new(),
            channel_id,
            private_channel_ids: Vec::new(),
            private_role_status_message_ids: Vec::new(),
            private_role_status_texts: Vec::new(),
            memo_channel_ids: Vec::new(),
            anonymous_input_channel_ids: Vec::new(),
            anonymous_input_channel_owners: Vec::new(),
            anonymous_dead_input_channel_ids: Vec::new(),
            anonymous_dead_input_channel_owners: Vec::new(),
            dead_chat_unlocked_ids: Vec::new(),
            pending_dead_chat_user_ids: Vec::new(),
            dead_role_chat_visible_from_days: Vec::new(),
            anonymous_shaman_input_channel_ids: Vec::new(),
            anonymous_shaman_input_channel_owners: Vec::new(),
            anonymous_role_input_channel_ids: Vec::new(),
            anonymous_role_input_channels: Vec::new(),
            anonymous_role_input_status_message_ids: Vec::new(),
            anonymous_role_status_texts: Vec::new(),
            anonymous_aliases: Vec::new(),
            anonymous_original_names: Vec::new(),
            anonymous_webhooks: Vec::new(),
            permission_overwrite_cache: Vec::new(),
            verified_member_ids: Vec::new(),
            original_game_channel_overwrites: Vec::new(),
            game_channel_overwrites: Vec::new(),
            member_channel_overwrites: Vec::new(),
            original_slowmode_delays: Vec::new(),
            channel_slowmode_cache: Vec::new(),
            frog_game_channel_overwrites: Vec::new(),
            madam_seduction_channel_overwrites: Vec::new(),
            game_status_message_id: None,
            game_status_text: None,
            channel_role_ids: None,
            source_category_id: None,
            shaman_channel_id: None,
            shaman_status_message_id: None,
            shaman_status_text: None,
        }
    }
}

} // verus!
