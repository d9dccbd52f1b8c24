//! The game's channels: where a message typed in one of them goes, and the
//! steps of opening a player's personal channel.
use vstd::prelude::*;
use crate::access::{can_chat_private, can_view_private, private_role_member_can_chat, private_role_member_can_view};
use crate::game::{Phase, player_with_id};
use crate::role::Role;
use crate::running::RunningGame;
use crate::permissions::{OverwriteTarget, PermissionOverwrite};

verus! {

/// The value stored for `k` (the first entry for it).
pub open spec fn lookup<V>(s: Seq<(u64, V)>, k: u64) -> Option<V>
    decreases s.len(),
{
    if s.len() == 0 {
        None
    } else if s[0].0 == k {
        Some(s[0].1)
    } else {
        lookup(s.drop_first(), k)
    }
}

/// The first role whose private channel is `c`.
pub open spec fn role_with_channel(s: Seq<(Role, u64)>, c: u64) -> Option<Role>
    decreases s.len(),
{
    if s.len() == 0 {
        None
    } else if s[0].1 == c {
        Some(s[0].0)
    } else {
        role_with_channel(s.drop_first(), c)
    }
}

fn lookup_id(table: &Vec<(u64, u64)>, k: u64) -> (r: Option<u64>)
    ensures
        r == lookup(table@, k),
{
    let mut i: usize = 0;
    assert(table@.skip(0) =~= table@);
    while i < table.len()
        invariant
            i <= table@.len(),
            lookup(table@, k) == lookup(table@.skip(i as int), k),
        decreases table@.len() - i,
    {
        assert(table@.skip(i as int).drop_first() =~= table@.skip(i as int + 1));
        if table[i].0 == k {
            return Some(table[i].1);
        }
        i = i + 1;
    }
    None
}

fn lookup_room(table: &Vec<(u64, (u64, Role))>, k: u64) -> (r: Option<(u64, Role)>)
    ensures
        r == lookup(table@, k),
{
    let mut i: usize = 0;
    assert(table@.skip(0) =~= table@);
    while i < table.len()
        invariant
            i <= table@.len(),
            lookup(table@, k) == lookup(table@.skip(i as int), k),
        decreases table@.len() - i,
    {
        assert(table@.skip(i as int).drop_first() =~= table@.skip(i as int + 1));
        if table[i].0 == k {
            return Some(table[i].1);
        }
        i = i + 1;
    }
    None
}

fn find_role_channel(table: &Vec<(Role, u64)>, c: u64) -> (r: Option<Role>)
    ensures
        r == role_with_channel(table@, c),
{
    let mut i: usize = 0;
    assert(table@.skip(0) =~= table@);
    while i < table.len()
        invariant
            i <= table@.len(),
            role_with_channel(table@, c) == role_with_channel(table@.skip(i as int), c),
        decreases table@.len() - i,
    {
        assert(table@.skip(i as int).drop_first() =~= table@.skip(i as int + 1));
        if table[i].1 == c {
            return Some(table[i].0);
        }
        i = i + 1;
    }
    None
}

/// Every by-id table of a running game holds each id at most once.
pub open spec fn tables_well_formed(r: &RunningGame) -> bool {
    &&& keys(r.anonymous_aliases@).no_duplicates()
    &&& keys(r.anonymous_original_names@).no_duplicates()
    &&& keys(r.initial_roles@).no_duplicates()
    &&& keys(r.anonymous_dead_input_channel_ids@).no_duplicates()
    &&& keys(r.anonymous_dead_input_channel_owners@).no_duplicates()
    &&& keys(r.anonymous_shaman_input_channel_ids@).no_duplicates()
    &&& keys(r.anonymous_shaman_input_channel_owners@).no_duplicates()
    &&& keys(r.anonymous_role_input_channel_ids@).no_duplicates()
    &&& keys(r.anonymous_role_input_channels@).no_duplicates()
}

/// The kinds of anonymous input channel.
#[derive(Clone, Copy, Debug, PartialEq, Eq, Structural)]
pub enum AnonymousChannel {
    Dead,
    Shaman,
    General,
    Role(Role),
}

/// What the game engine knows of a message's author: whether they are
/// silenced in the shaman channel, whether they hold the loudspeaker
/// ability, and whether it is still unused tonight.
#[derive(Clone, Copy, Debug, PartialEq, Eq, Structural)]
pub struct SpeakerFacts {
    pub shaman_silenced: bool,
    pub has_loudspeaker: bool,
    pub loudspeaker_active: bool,
}

/// What to do with a message typed in a channel of a running game.
#[derive(Clone, Copy, Debug, PartialEq, Eq, Structural)]
pub enum MessageAction {
    /// Leave it alone.
    Ignore,
    /// Relay it anonymously from the owner of the input channel.
    Relay { channel: AnonymousChannel, owner_id: u64 },
    /// The author may not chat in this private team channel: delete it and
    /// set their access to seeing only (`can_view`) or nothing.
    DeletePrivate { role: Role, can_view: bool },
    /// Copy it from the private team channel to the dead chat.
    MirrorToDead { role: Role },
    /// The author is silenced in the shaman channel: delete it and close
    /// their access.
    DeleteSilencedShaman,
    /// The first loudspeaker message of the night: mark the loudspeaker used
    /// and close the channel to the other holders.
    UseLoudspeaker,
    /// A loudspeaker message after tonight's use: delete it.
    DeleteUsedLoudspeaker,
    /// A frog wrote in the game channel: delete it.
    DeleteFrogMessage,
}

/// Where a message goes: bots are ignored; a
/// message in an anonymous input channel is relayed from its owner (dead
/// chat, then shaman, then general, then role channels); in a private team
/// channel a player who may chat there is mirrored to the dead chat and one
/// who may not is deleted; a silenced player's message in the shaman
/// channel is deleted; at night in a non-anonymous game channel the
/// loudspeaker holder's first message uses it up and later ones are
/// deleted; a frog's message in the game channel is deleted.
pub open spec fn message_route(r: &RunningGame, channel: u64, author: u64, bot: bool, f: SpeakerFacts) -> MessageAction {
    let player = player_with_id(r.game.players@, author);
    if bot {
        MessageAction::Ignore
    } else if let Some(o) = lookup(r.anonymous_dead_input_channel_owners@, channel) {
        MessageAction::Relay { channel: AnonymousChannel::Dead, owner_id: o }
    } else if let Some(o) = lookup(r.anonymous_shaman_input_channel_owners@, channel) {
        MessageAction::Relay { channel: AnonymousChannel::Shaman, owner_id: o }
    } else if let Some(o) = lookup(r.anonymous_input_channel_owners@, channel) {
        MessageAction::Relay { channel: AnonymousChannel::General, owner_id: o }
    } else if let Some(room) = lookup(r.anonymous_role_input_channels@, channel) {
        MessageAction::Relay { channel: AnonymousChannel::Role(room.1), owner_id: room.0 }
    } else if let Some(role) = role_with_channel(r.private_channel_ids@, channel) {
        match player {
            None => MessageAction::Ignore,
            Some(p) => if can_chat_private(&r.game, role, &p) {
                MessageAction::MirrorToDead { role }
            } else {
                MessageAction::DeletePrivate { role, can_view: can_view_private(&r.game, role, &p) }
            },
        }
    } else if r.shaman_channel_id == Some(channel) && player is Some && f.shaman_silenced {
        MessageAction::DeleteSilencedShaman
    } else if channel == r.channel_id && r.game.phase == Phase::Night && !r.anonymous_enabled
        && player is Some && f.has_loudspeaker {
        if f.loudspeaker_active { MessageAction::UseLoudspeaker } else { MessageAction::DeleteUsedLoudspeaker }
    } else if channel == r.channel_id && is_frog_author(r, author) {
        MessageAction::DeleteFrogMessage
    } else {
        MessageAction::Ignore
    }
}

/// The author is a player who was turned into a frog.
pub open spec fn is_frog_author(r: &RunningGame, author: u64) -> bool {
    match player_with_id(r.game.players@, author) {
        Some(p) => r.game.frog_user_ids@.contains(p.user_id),
        None => false,
    }
}

/// Where a message goes.
pub fn route_message(running: &RunningGame, channel_id: u64, author_id: u64, author_is_bot: bool, facts: SpeakerFacts) -> (a: MessageAction)
    ensures
        a == message_route(running, channel_id, author_id, author_is_bot, facts),
{
    if author_is_bot {
        return MessageAction::Ignore;
    }
    if let Some(o) = lookup_id(&running.anonymous_dead_input_channel_owners, channel_id) {
        return MessageAction::Relay { channel: AnonymousChannel::Dead, owner_id: o };
    }
    if let Some(o) = lookup_id(&running.anonymous_shaman_input_channel_owners, channel_id) {
        return MessageAction::Relay { channel: AnonymousChannel::Shaman, owner_id: o };
    }
    if let Some(o) = lookup_id(&running.anonymous_input_channel_owners, channel_id) {
        return MessageAction::Relay { channel: AnonymousChannel::General, owner_id: o };
    }
    if let Some(room) = lookup_room(&running.anonymous_role_input_channels, channel_id) {
        return MessageAction::Relay { channel: AnonymousChannel::Role(room.1), owner_id: room.0 };
    }
    let player = running.game.get_player(author_id);
    if let Some(role) = find_role_channel(&running.private_channel_ids, channel_id) {
        return match player {
            None => MessageAction::Ignore,
            Some(p) => if private_role_member_can_chat(&running.game, role, &p) {
                MessageAction::MirrorToDead { role }
            } else {
                MessageAction::DeletePrivate { role, can_view: private_role_member_can_view(&running.game, role, &p) }
            },
        };
    }
    let is_player = player.is_some();
    if running.shaman_channel_id == Some(channel_id) && is_player && facts.shaman_silenced {
        return MessageAction::DeleteSilencedShaman;
    }
    if channel_id == running.channel_id && running.game.phase == Phase::Night && !running.anonymous_enabled
        && is_player && facts.has_loudspeaker {
        return if facts.loudspeaker_active { MessageAction::UseLoudspeaker } else { MessageAction::DeleteUsedLoudspeaker };
    }
    if channel_id == running.channel_id {
        if let Some(p) = player {
            if running.game.is_frog(p.user_id) {
                return MessageAction::DeleteFrogMessage;
            }
        }
    }
    MessageAction::Ignore
}

/// The table with `k` mapped to `v`: the first entry for `k` takes the new
/// value, or an entry is added at the end.
pub open spec fn keyed_set<K, V>(s: Seq<(K, V)>, k: K, v: V) -> Seq<(K, V)>
    decreases s.len(),
{
    if s.len() == 0 {
        seq![(k, v)]
    } else if s[0].0 == k {
        s.update(0, (k, v))
    } else {
        seq![s[0]] + keyed_set(s.drop_first(), k, v)
    }
}

fn set_id(table: &mut Vec<(u64, u64)>, k: u64, v: u64)
    ensures
        final(table)@ == keyed_set(old(table)@, k, v),
{
    let ghost e = table@;
    let mut i: usize = 0;
    assert(e.skip(0) =~= e);
    assert(e.take(0) + e.skip(0) =~= e);
    while i < table.len()
        invariant
            table@ == e,
            e == old(table)@,
            i <= e.len(),
            keyed_set(e, k, v) == e.take(i as int) + keyed_set(e.skip(i as int), k, v),
        decreases e.len() - i,
    {
        if table[i].0 == k {
            assert(e.skip(i as int)[0] == e[i as int]);
            assert(keyed_set(e.skip(i as int), k, v) == e.skip(i as int).update(0, (k, v)));
            assert(e.take(i as int) + e.skip(i as int).update(0, (k, v)) =~= e.update(i as int, (k, v)));
            table.set(i, (k, v));
            return;
        }
        assert(e.skip(i as int).drop_first() =~= e.skip(i + 1));
        assert(e.take(i as int) + seq![e[i as int]] =~= e.take(i + 1));
        assert(e.take(i as int) + (seq![e[i as int]] + keyed_set(e.skip(i + 1), k, v))
            =~= e.take(i + 1) + keyed_set(e.skip(i + 1), k, v));
        i = i + 1;
    }
    assert(e.skip(i as int) =~= Seq::<(u64, u64)>::empty());
    assert(e.take(i as int) =~= e);
    table.push((k, v));
}

/// The value stored for `k` (the first entry for it), for any key type.
pub open spec fn lookup_key<K, V>(s: Seq<(K, V)>, k: K) -> Option<V>
    decreases s.len(),
{
    if s.len() == 0 {
        None
    } else if s[0].0 == k {
        Some(s[0].1)
    } else {
        lookup_key(s.drop_first(), k)
    }
}

/// The key of the permission cache: the channel and whom the overwrite is for.
pub fn permission_cache_key(channel_id: u64, target: OverwriteTarget) -> (k: (u64, OverwriteTarget))
    ensures
        k == (channel_id, target),
{
    (channel_id, target)
}

/// The permission cache after the overwrites of channel `c` are remembered,
/// one after the other: each is stored under (channel, its target).
pub open spec fn remembered(cache: Seq<((u64, OverwriteTarget), PermissionOverwrite)>, c: u64,
    overwrites: Seq<PermissionOverwrite>) -> Seq<((u64, OverwriteTarget), PermissionOverwrite)>
    decreases overwrites.len(),
{
    if overwrites.len() == 0 {
        cache
    } else {
        remembered(keyed_set(cache, (c, overwrites[0].kind), overwrites[0]), c, overwrites.drop_first())
    }
}

fn set_cached(table: &mut Vec<((u64, OverwriteTarget), PermissionOverwrite)>, c: u64, o: PermissionOverwrite)
    ensures
        final(table)@ == keyed_set(old(table)@, (c, o.kind), o),
{
    let ghost e = table@;
    let ghost k = (c, o.kind);
    let mut i: usize = 0;
    assert(e.skip(0) =~= e);
    assert(e.take(0) + e.skip(0) =~= e);
    while i < table.len()
        invariant
            table@ == e,
            e == old(table)@,
            k == (c, o.kind),
            i <= e.len(),
            keyed_set(e, k, o) == e.take(i as int) + keyed_set(e.skip(i as int), k, o),
        decreases e.len() - i,
    {
        let entry = table[i];
        if entry.0.0 == c && entry.0.1 == o.kind {
            assert(e.skip(i as int)[0] == e[i as int]);
            assert(keyed_set(e.skip(i as int), k, o) == e.skip(i as int).update(0, (k, o)));
            assert(e.take(i as int) + e.skip(i as int).update(0, (k, o)) =~= e.update(i as int, (k, o)));
            table.set(i, ((c, o.kind), o));
            return;
        }
        assert(e.skip(i as int).drop_first() =~= e.skip(i + 1));
        assert(e.take(i as int) + seq![e[i as int]] =~= e.take(i + 1));
        assert(e.take(i as int) + (seq![e[i as int]] + keyed_set(e.skip(i + 1), k, o))
            =~= e.take(i + 1) + keyed_set(e.skip(i + 1), k, o));
        i = i + 1;
    }
    assert(e.skip(i as int) =~= Seq::<((u64, OverwriteTarget), PermissionOverwrite)>::empty());
    assert(e.take(i as int) =~= e);
    table.push(((c, o.kind), o));
}

fn remember_in(table: &mut Vec<((u64, OverwriteTarget), PermissionOverwrite)>, c: u64, overwrites: &Vec<PermissionOverwrite>)
    ensures
        final(table)@ == remembered(old(table)@, c, overwrites@),
{
    let mut i: usize = 0;
    assert(overwrites@.skip(0) =~= overwrites@);
    while i < overwrites.len()
        invariant
            i <= overwrites@.len(),
            remembered(old(table)@, c, overwrites@) == remembered(table@, c, overwrites@.skip(i as int)),
        decreases overwrites@.len() - i,
    {
        assert(overwrites@.skip(i as int).drop_first() =~= overwrites@.skip(i + 1));
        set_cached(table, c, overwrites[i]);
        i = i + 1;
    }
}

/// Remembers a channel's overwrites in the permission cache
/// (`remember_channel_permissions`), each under (channel, its target).
pub fn remember_channel_permissions(running: &mut RunningGame, channel_id: u64, overwrites: &Vec<PermissionOverwrite>)
    ensures
        final(running).permission_overwrite_cache@ == remembered(old(running).permission_overwrite_cache@, channel_id, overwrites@),
        *final(running) == (RunningGame { permission_overwrite_cache: final(running).permission_overwrite_cache, ..*old(running) }),
{
    remember_in(&mut running.permission_overwrite_cache, channel_id, overwrites);
}

/// The overwrite last remembered for a target on a channel (`remembered_permission`).
pub fn remembered_permission(running: &RunningGame, channel_id: u64, target: OverwriteTarget) -> (r: Option<PermissionOverwrite>)
    ensures
        r == lookup_key(running.permission_overwrite_cache@, (channel_id, target)),
{
    let table = &running.permission_overwrite_cache;
    let mut i: usize = 0;
    assert(table@.skip(0) =~= table@);
    while i < table.len()
        invariant
            i <= table@.len(),
            table@ == running.permission_overwrite_cache@,
            lookup_key(table@, (channel_id, target)) == lookup_key(table@.skip(i as int), (channel_id, target)),
        decreases table@.len() - i,
    {
        assert(table@.skip(i as int).drop_first() =~= table@.skip(i as int + 1));
        let entry = table[i];
        assert(table@.skip(i as int)[0] == table@[i as int]);
        if entry.0.0 == channel_id && entry.0.1 == target {
            assert(entry.0 == (channel_id, target));
            return Some(entry.1);
        }
        i = i + 1;
    }
    None
}

/// Remembering overwrites makes each of them the one found for its target,
/// when no later overwrite in the list is for the same target.
pub proof fn law_remembered_overwrite_is_found(cache: Seq<((u64, OverwriteTarget), PermissionOverwrite)>, c: u64,
    o: PermissionOverwrite)
    ensures
        lookup_key(remembered(cache, c, seq![o]), (c, o.kind)) == Some(o),
{
    let once = keyed_set(cache, (c, o.kind), o);
    assert(seq![o].drop_first() =~= Seq::<PermissionOverwrite>::empty());
    assert(remembered(once, c, Seq::<PermissionOverwrite>::empty()) == once);
    assert(remembered(cache, c, seq![o]) == remembered(once, c, seq![o].drop_first()));
    lemma_keyed_set_found(cache, (c, o.kind), o);
}

proof fn lemma_keyed_set_found<K, V>(s: Seq<(K, V)>, k: K, v: V)
    ensures
        lookup_key(keyed_set(s, k, v), k) == Some(v),
    decreases s.len(),
{
    if s.len() > 0 && s[0].0 != k {
        lemma_keyed_set_found(s.drop_first(), k, v);
        assert((seq![s[0]] + keyed_set(s.drop_first(), k, v)).drop_first() =~= keyed_set(s.drop_first(), k, v));
    }
}

/// A player's personal anonymous input channel: for the dead chat or for
/// the shaman chat.
#[derive(Clone, Copy, Debug, PartialEq, Eq, Structural)]
pub enum PersonalChannelKind {
    Dead,
    Shaman,
}

/// What the caller learned since the last step of opening a personal channel.
#[derive(Clone, Copy, Debug, PartialEq, Eq, Structural)]
pub enum PersonalChannelEvent {
    /// The first look, before anything else.
    Begin,
    /// The player's creation lock is held; look again.
    Locked,
    /// Whether the player is still a member of the server.
    MemberChecked(bool),
    /// The channel of that name found in the category, if any.
    FoundByName(Option<u64>),
    /// The channel made, if Discord made one.
    Created(Option<u64>),
}

/// What to do next while opening a personal channel.
#[derive(Clone, Copy, Debug, PartialEq, Eq, Structural)]
pub enum PersonalChannelAction {
    /// Stop; there is no channel.
    Finish,
    /// Set the player's own overwrite on this channel and give it back.
    UseChannel(u64),
    /// Take the player's creation lock, then step with `Locked`.
    TakeLock,
    /// Check that the player is still a member, then step with `MemberChecked`.
    VerifyMember,
    /// Look for a channel with the player's channel name, then step with `FoundByName`.
    FindByName,
    /// Make the channel, then step with `Created`.
    Create,
    /// Post the welcome text in the new channel and give it back.
    Welcome(u64),
    /// The game ended meanwhile: delete the new channel and stop.
    Delete(u64),
}

/// Whether personal channels of this kind may still be made: the game has
/// not ended, and shaman input channels exist only in anonymous games.
pub open spec fn personal_allowed(r: &RunningGame, kind: PersonalChannelKind) -> bool {
    r.game.phase != Phase::Ended && (kind == PersonalChannelKind::Dead || r.anonymous_enabled)
}

/// The player's recorded personal channel of this kind.
pub open spec fn personal_recorded(r: &RunningGame, kind: PersonalChannelKind, user_id: u64) -> Option<u64> {
    match kind {
        PersonalChannelKind::Dead => lookup(r.anonymous_dead_input_channel_ids@, user_id),
        PersonalChannelKind::Shaman => lookup(r.anonymous_shaman_input_channel_ids@, user_id),
    }
}

/// The channel this step records for the player, if any: a found or new
/// channel, while such channels may still be made.
pub open spec fn personal_recording(r: &RunningGame, kind: PersonalChannelKind, e: PersonalChannelEvent) -> Option<u64> {
    match e {
        PersonalChannelEvent::FoundByName(Some(c)) => if personal_allowed(r, kind) { Some(c) } else { None },
        PersonalChannelEvent::Created(Some(c)) => if personal_allowed(r, kind) { Some(c) } else { None },
        _ => None,
    }
}

/// The next action of opening a personal dead-chat or shaman input channel:
/// a recorded channel is used; else,
/// under the lock, a member gets the channel found by name or a new one; a
/// new channel made after the game ended is deleted and not recorded.
pub open spec fn personal_channel_next(r: &RunningGame, kind: PersonalChannelKind, user_id: u64, e: PersonalChannelEvent) -> PersonalChannelAction {
    match e {
        PersonalChannelEvent::Begin => if !personal_allowed(r, kind) {
            PersonalChannelAction::Finish
        } else if let Some(c) = personal_recorded(r, kind, user_id) {
            PersonalChannelAction::UseChannel(c)
        } else {
            PersonalChannelAction::TakeLock
        },
        PersonalChannelEvent::Locked => if !personal_allowed(r, kind) {
            PersonalChannelAction::Finish
        } else if let Some(c) = personal_recorded(r, kind, user_id) {
            PersonalChannelAction::UseChannel(c)
        } else {
            PersonalChannelAction::VerifyMember
        },
        PersonalChannelEvent::MemberChecked(ok) => if ok { PersonalChannelAction::FindByName } else { PersonalChannelAction::Finish },
        PersonalChannelEvent::FoundByName(found) => match found {
            Some(c) => if personal_allowed(r, kind) { PersonalChannelAction::UseChannel(c) } else { PersonalChannelAction::Finish },
            None => PersonalChannelAction::Create,
        },
        PersonalChannelEvent::Created(made) => match made {
            Some(c) => if personal_allowed(r, kind) { PersonalChannelAction::Welcome(c) } else { PersonalChannelAction::Delete(c) },
            None => PersonalChannelAction::Finish,
        },
    }
}

/// The running game after a step records channel `c` for the player: the
/// player's entry and the channel's owner entry in the tables of that kind,
/// and the channel's overwrites `os` remembered in the permission cache.
pub open spec fn personal_recorded_after(before: &RunningGame, after: &RunningGame, kind: PersonalChannelKind, user_id: u64, c: u64,
    os: Seq<PermissionOverwrite>) -> bool
{
    &&& after.permission_overwrite_cache@ == remembered(before.permission_overwrite_cache@, c, os)
    &&& match kind {
        PersonalChannelKind::Dead => {
            &&& after.anonymous_dead_input_channel_ids@ == keyed_set(before.anonymous_dead_input_channel_ids@, user_id, c)
            &&& after.anonymous_dead_input_channel_owners@ == keyed_set(before.anonymous_dead_input_channel_owners@, c, user_id)
            &&& *after == (RunningGame {
                anonymous_dead_input_channel_ids: after.anonymous_dead_input_channel_ids,
                anonymous_dead_input_channel_owners: after.anonymous_dead_input_channel_owners,
                permission_overwrite_cache: after.permission_overwrite_cache,
                ..*before
            })
        },
        PersonalChannelKind::Shaman => {
            &&& after.anonymous_shaman_input_channel_ids@ == keyed_set(before.anonymous_shaman_input_channel_ids@, user_id, c)
            &&& after.anonymous_shaman_input_channel_owners@ == keyed_set(before.anonymous_shaman_input_channel_owners@, c, user_id)
            &&& *after == (RunningGame {
                anonymous_shaman_input_channel_ids: after.anonymous_shaman_input_channel_ids,
                anonymous_shaman_input_channel_owners: after.anonymous_shaman_input_channel_owners,
                permission_overwrite_cache: after.permission_overwrite_cache,
                ..*before
            })
        },
    }
}

fn personal_allowed_now(running: &RunningGame, kind: PersonalChannelKind) -> (b: bool)
    ensures
        b == personal_allowed(running, kind),
{
    running.game.phase != Phase::Ended && (kind == PersonalChannelKind::Dead || running.anonymous_enabled)
}

fn record_personal(running: &mut RunningGame, kind: PersonalChannelKind, user_id: u64, c: u64, os: &Vec<PermissionOverwrite>)
    ensures
        personal_recorded_after(&*old(running), &*final(running), kind, user_id, c, os@),
{
    match kind {
        PersonalChannelKind::Dead => {
            set_id(&mut running.anonymous_dead_input_channel_ids, user_id, c);
            set_id(&mut running.anonymous_dead_input_channel_owners, c, user_id);
        },
        PersonalChannelKind::Shaman => {
            set_id(&mut running.anonymous_shaman_input_channel_ids, user_id, c);
            set_id(&mut running.anonymous_shaman_input_channel_owners, c, user_id);
        },
    }
    remember_channel_permissions(running, c, os);
}

/// One step of opening a player's personal dead-chat or shaman input
/// channel: gives the next action, and records a found or new channel while
/// such channels may still be made, remembering its overwrites
/// `channel_overwrites` (those it was found with, or made with).
pub fn personal_channel_step(running: &mut RunningGame, kind: PersonalChannelKind, user_id: u64, event: PersonalChannelEvent,
    channel_overwrites: &Vec<PermissionOverwrite>) -> (a: PersonalChannelAction)
    ensures
        a == personal_channel_next(&*old(running), kind, user_id, event),
        match personal_recording(&*old(running), kind, event) {
            Some(c) => personal_recorded_after(&*old(running), &*final(running), kind, user_id, c, channel_overwrites@),
            None => *final(running) == *old(running),
        },
        tables_well_formed(&*old(running)) ==> tables_well_formed(&*final(running)),
{
    proof {
        if tables_well_formed(&*old(running)) {
            match personal_recording(&*old(running), kind, event) {
                Some(c) => {
                    law_keyed_set_keeps_keys_distinct(old(running).anonymous_dead_input_channel_ids@, user_id, c);
                    law_keyed_set_keeps_keys_distinct(old(running).anonymous_dead_input_channel_owners@, c, user_id);
                    law_keyed_set_keeps_keys_distinct(old(running).anonymous_shaman_input_channel_ids@, user_id, c);
                    law_keyed_set_keeps_keys_distinct(old(running).anonymous_shaman_input_channel_owners@, c, user_id);
                },
                None => {},
            }
        }
    }
    let allowed = personal_allowed_now(running, kind);
    match event {
        PersonalChannelEvent::Begin | PersonalChannelEvent::Locked => {
            if !allowed {
                return PersonalChannelAction::Finish;
            }
            let recorded = match kind {
                PersonalChannelKind::Dead => lookup_id(&running.anonymous_dead_input_channel_ids, user_id),
                PersonalChannelKind::Shaman => lookup_id(&running.anonymous_shaman_input_channel_ids, user_id),
            };
            match recorded {
                Some(c) => PersonalChannelAction::UseChannel(c),
                None => if event == PersonalChannelEvent::Begin {
                    PersonalChannelAction::TakeLock
                } else {
                    PersonalChannelAction::VerifyMember
                },
            }
        },
        PersonalChannelEvent::MemberChecked(ok) => if ok { PersonalChannelAction::FindByName } else { PersonalChannelAction::Finish },
        PersonalChannelEvent::FoundByName(found) => match found {
            Some(c) => if allowed {
                record_personal(running, kind, user_id, c, channel_overwrites);
                PersonalChannelAction::UseChannel(c)
            } else {
                PersonalChannelAction::Finish
            },
            None => PersonalChannelAction::Create,
        },
        PersonalChannelEvent::Created(made) => match made {
            Some(c) => if allowed {
                record_personal(running, kind, user_id, c, channel_overwrites);
                PersonalChannelAction::Welcome(c)
            } else {
                PersonalChannelAction::Delete(c)
            },
            None => PersonalChannelAction::Finish,
        },
    }
}

/// A new personal channel made after the game ended is deleted and nothing
/// is recorded for it.
pub proof fn law_late_personal_channel_is_deleted(r: &RunningGame, kind: PersonalChannelKind, user_id: u64, c: u64)
    requires
        r.game.phase == Phase::Ended,
    ensures
        personal_channel_next(r, kind, user_id, PersonalChannelEvent::Created(Some(c))) == PersonalChannelAction::Delete(c),
        personal_recording(r, kind, PersonalChannelEvent::Created(Some(c))) is None,
{
}

/// The name part of a player's personal channel, before the caller makes it
/// safe for a channel name: in the dead chat the anonymous name in anonymous
/// games (else the real name); in the shaman chat the anonymous name, else
/// the user id.
pub open spec fn personal_channel_label(r: &RunningGame, kind: PersonalChannelKind, user_id: u64, name: Seq<char>) -> Seq<char> {
    match kind {
        PersonalChannelKind::Dead => if r.anonymous_enabled {
            match crate::running::name_for(r.anonymous_aliases@, user_id) {
                Some(a) => a,
                None => name,
            }
        } else {
            name
        },
        PersonalChannelKind::Shaman => match crate::running::name_for(r.anonymous_aliases@, user_id) {
            Some(a) => a,
            None => crate::text::dec(user_id as nat),
        },
    }
}

/// The name part of a player's personal channel.
pub fn personal_channel_label_text(running: &RunningGame, kind: PersonalChannelKind, user_id: u64, name: &str) -> (s: String)
    ensures
        s@ == personal_channel_label(running, kind, user_id, name@),
{
    let alias = crate::running::entry_for(&running.anonymous_aliases, user_id);
    match kind {
        PersonalChannelKind::Dead => if running.anonymous_enabled {
            match alias {
                Some(i) => running.anonymous_aliases[i].1.clone(),
                None => String::from_str(name),
            }
        } else {
            String::from_str(name)
        },
        PersonalChannelKind::Shaman => match alias {
            Some(i) => running.anonymous_aliases[i].1.clone(),
            None => crate::text::u64_text(user_id),
        },
    }
}

/// The end of a personal channel's name, after the name part.
pub open spec fn personal_channel_suffix(kind: PersonalChannelKind) -> Seq<char> {
    match kind {
        PersonalChannelKind::Dead => "-사망자-채팅"@,
        PersonalChannelKind::Shaman => "-영매-채팅"@,
    }
}

/// The welcome text and title posted in a new personal channel.
pub fn personal_channel_welcome(kind: PersonalChannelKind) -> (w: (&'static str, &'static str))
    ensures
        w.0@ == (match kind {
            PersonalChannelKind::Dead => "사망자 개인 채팅 채널입니다.\n여기에 쓰면 사망자 채팅을 볼 수 있는 사람들의 사망자 개인 채널로만 전달됩니다."@,
            PersonalChannelKind::Shaman => "영매 익명 채팅 개인 채널입니다.\n여기에 쓰면 영매 채팅을 볼 수 있는 사람들의 영매 개인 채널로만 전달됩니다."@,
        }),
        w.1@ == (match kind {
            PersonalChannelKind::Dead => "사망자 개인 채팅"@,
            PersonalChannelKind::Shaman => "익명 영매 채팅"@,
        }),
{
    match kind {
        PersonalChannelKind::Dead => ("사망자 개인 채팅 채널입니다.\n여기에 쓰면 사망자 채팅을 볼 수 있는 사람들의 사망자 개인 채널로만 전달됩니다.", "사망자 개인 채팅"),
        PersonalChannelKind::Shaman => ("영매 익명 채팅 개인 채널입니다.\n여기에 쓰면 영매 채팅을 볼 수 있는 사람들의 영매 개인 채널로만 전달됩니다.", "익명 영매 채팅"),
    }
}

/// The channel recorded for a (player, role) room.
pub open spec fn room_channel(s: Seq<((u64, Role), u64)>, user_id: u64, role: Role) -> Option<u64>
    decreases s.len(),
{
    if s.len() == 0 {
        None
    } else if s[0].0 == (user_id, role) {
        Some(s[0].1)
    } else {
        room_channel(s.drop_first(), user_id, role)
    }
}

fn find_room_channel(table: &Vec<((u64, Role), u64)>, user_id: u64, role: Role) -> (r: Option<u64>)
    ensures
        r == room_channel(table@, user_id, role),
{
    let mut i: usize = 0;
    assert(table@.skip(0) =~= table@);
    while i < table.len()
        invariant
            i <= table@.len(),
            room_channel(table@, user_id, role) == room_channel(table@.skip(i as int), user_id, role),
        decreases table@.len() - i,
    {
        assert(table@.skip(i as int).drop_first() =~= table@.skip(i as int + 1));
        let entry = table[i];
        if entry.0.0 == user_id && entry.0.1 == role {
            return Some(entry.1);
        }
        i = i + 1;
    }
    None
}

/// What the caller learned since the last step of setting a player's access
/// to their anonymous role room.
#[derive(Clone, Copy, Debug, PartialEq, Eq, Structural)]
pub enum RoomEvent {
    /// The first look.
    Begin,
    /// Looked again, under the player's creation lock when one was taken.
    Rechecked,
    /// Whether the player is still a member of the server.
    MemberChecked(bool),
    /// The channel made, if Discord made one.
    Created(Option<u64>),
}

/// What to do next while setting a player's access to their role room.
#[derive(Clone, Copy, Debug, PartialEq, Eq, Structural)]
pub enum RoomAction {
    /// Stop; nothing to set.
    Finish,
    /// Set the player's overwrite on this channel (seeing and chatting as
    /// asked) and stop.
    SetAccess(u64),
    /// Take the player's creation lock, then step with `Rechecked`.
    TakeLock,
    /// Look again without a lock, then step with `Rechecked`.
    Recheck,
    /// Check that the player is still a member, then step with `MemberChecked`.
    VerifyMember,
    /// Make the room channel, then step with `Created`.
    Create,
    /// Post the room's welcome text and status in the new channel, record a
    /// posted status with `record_room_status`, then set the player's
    /// overwrite on it.
    Welcome(u64),
    /// The game ended or left anonymous mode meanwhile: delete the new channel and stop.
    Delete(u64),
}

/// Whether role rooms may still be made: an anonymous game that has not ended.
pub open spec fn room_allowed(r: &RunningGame) -> bool {
    r.anonymous_enabled && r.game.phase != Phase::Ended
}

/// The next action of setting a player's access to their role room: a
/// recorded room gets the access at once; a player who may not see the
/// room and has none gets nothing; otherwise, under the lock, a member gets a
/// new room, which is deleted and not recorded when the game ended or left
/// anonymous mode meanwhile.
pub open spec fn room_next(r: &RunningGame, user_id: u64, role: Role, can_view: bool, e: RoomEvent) -> RoomAction {
    match e {
        RoomEvent::Begin => if let Some(c) = room_channel(r.anonymous_role_input_channel_ids@, user_id, role) {
            RoomAction::SetAccess(c)
        } else if can_view {
            RoomAction::TakeLock
        } else {
            RoomAction::Recheck
        },
        RoomEvent::Rechecked => if let Some(c) = room_channel(r.anonymous_role_input_channel_ids@, user_id, role) {
            RoomAction::SetAccess(c)
        } else if can_view {
            RoomAction::VerifyMember
        } else {
            RoomAction::Finish
        },
        RoomEvent::MemberChecked(ok) => if ok { RoomAction::Create } else { RoomAction::Finish },
        RoomEvent::Created(made) => match made {
            Some(c) => if room_allowed(r) { RoomAction::Welcome(c) } else { RoomAction::Delete(c) },
            None => RoomAction::Finish,
        },
    }
}

/// The running game after a new room `c` is recorded for (player, role),
/// with its overwrites `os` remembered in the permission cache.
pub open spec fn room_recorded_after(before: &RunningGame, after: &RunningGame, user_id: u64, role: Role, c: u64,
    os: Seq<PermissionOverwrite>) -> bool
{
    &&& after.permission_overwrite_cache@ == remembered(before.permission_overwrite_cache@, c, os)
    &&& after.anonymous_role_input_channel_ids@ == keyed_set(before.anonymous_role_input_channel_ids@, (user_id, role), c)
    &&& after.anonymous_role_input_channels@ == keyed_set(before.anonymous_role_input_channels@, c, (user_id, role))
    &&& *after == (RunningGame {
        anonymous_role_input_channel_ids: after.anonymous_role_input_channel_ids,
        anonymous_role_input_channels: after.anonymous_role_input_channels,
        permission_overwrite_cache: after.permission_overwrite_cache,
        ..*before
    })
}

fn set_room(table: &mut Vec<((u64, Role), u64)>, user_id: u64, role: Role, c: u64)
    ensures
        final(table)@ == keyed_set(old(table)@, (user_id, role), c),
{
    let ghost e = table@;
    let ghost k = (user_id, role);
    let mut i: usize = 0;
    assert(e.skip(0) =~= e);
    assert(e.take(0) + e.skip(0) =~= e);
    while i < table.len()
        invariant
            table@ == e,
            e == old(table)@,
            k == (user_id, role),
            i <= e.len(),
            keyed_set(e, k, c) == e.take(i as int) + keyed_set(e.skip(i as int), k, c),
        decreases e.len() - i,
    {
        let entry = table[i];
        if entry.0.0 == user_id && entry.0.1 == role {
            assert(e.skip(i as int)[0] == e[i as int]);
            assert(keyed_set(e.skip(i as int), k, c) == e.skip(i as int).update(0, (k, c)));
            assert(e.take(i as int) + e.skip(i as int).update(0, (k, c)) =~= e.update(i as int, (k, c)));
            table.set(i, ((user_id, role), c));
            return;
        }
        assert(e.skip(i as int).drop_first() =~= e.skip(i + 1));
        assert(e.take(i as int) + seq![e[i as int]] =~= e.take(i + 1));
        assert(e.take(i as int) + (seq![e[i as int]] + keyed_set(e.skip(i + 1), k, c))
            =~= e.take(i + 1) + keyed_set(e.skip(i + 1), k, c));
        i = i + 1;
    }
    assert(e.skip(i as int) =~= Seq::<((u64, Role), u64)>::empty());
    assert(e.take(i as int) =~= e);
    table.push(((user_id, role), c));
}

fn set_room_owner(table: &mut Vec<(u64, (u64, Role))>, c: u64, user_id: u64, role: Role)
    ensures
        final(table)@ == keyed_set(old(table)@, c, (user_id, role)),
{
    let ghost e = table@;
    let ghost v = (user_id, role);
    let mut i: usize = 0;
    assert(e.skip(0) =~= e);
    assert(e.take(0) + e.skip(0) =~= e);
    while i < table.len()
        invariant
            table@ == e,
            e == old(table)@,
            v == (user_id, role),
            i <= e.len(),
            keyed_set(e, c, v) == e.take(i as int) + keyed_set(e.skip(i as int), c, v),
        decreases e.len() - i,
    {
        if table[i].0 == c {
            assert(e.skip(i as int)[0] == e[i as int]);
            assert(keyed_set(e.skip(i as int), c, v) == e.skip(i as int).update(0, (c, v)));
            assert(e.take(i as int) + e.skip(i as int).update(0, (c, v)) =~= e.update(i as int, (c, v)));
            table.set(i, (c, (user_id, role)));
            return;
        }
        assert(e.skip(i as int).drop_first() =~= e.skip(i + 1));
        assert(e.take(i as int) + seq![e[i as int]] =~= e.take(i + 1));
        assert(e.take(i as int) + (seq![e[i as int]] + keyed_set(e.skip(i + 1), c, v))
            =~= e.take(i + 1) + keyed_set(e.skip(i + 1), c, v));
        i = i + 1;
    }
    assert(e.skip(i as int) =~= Seq::<(u64, (u64, Role))>::empty());
    assert(e.take(i as int) =~= e);
    table.push((c, (user_id, role)));
}

/// One step of setting a player's access to their anonymous role room:
/// gives the next action, and records a new room while rooms may still be
/// made, remembering the overwrites `channel_overwrites` it was made with.
pub fn room_access_step(running: &mut RunningGame, user_id: u64, role: Role, can_view: bool, event: RoomEvent,
    channel_overwrites: &Vec<PermissionOverwrite>) -> (a: RoomAction)
    ensures
        a == room_next(&*old(running), user_id, role, can_view, event),
        match event {
            RoomEvent::Created(Some(c)) => if room_allowed(&*old(running)) {
                room_recorded_after(&*old(running), &*final(running), user_id, role, c, channel_overwrites@)
            } else {
                *final(running) == *old(running)
            },
            _ => *final(running) == *old(running),
        },
        tables_well_formed(&*old(running)) ==> tables_well_formed(&*final(running)),
{
    proof {
        if tables_well_formed(&*old(running)) {
            if let RoomEvent::Created(Some(c)) = event {
                law_keyed_set_keeps_keys_distinct(old(running).anonymous_role_input_channel_ids@, (user_id, role), c);
                law_keyed_set_keeps_keys_distinct(old(running).anonymous_role_input_channels@, c, (user_id, role));
            }
        }
    }
    match event {
        RoomEvent::Begin | RoomEvent::Rechecked => {
            match find_room_channel(&running.anonymous_role_input_channel_ids, user_id, role) {
                Some(c) => RoomAction::SetAccess(c),
                None => if event == RoomEvent::Begin {
                    if can_view { RoomAction::TakeLock } else { RoomAction::Recheck }
                } else {
                    if can_view { RoomAction::VerifyMember } else { RoomAction::Finish }
                },
            }
        },
        RoomEvent::MemberChecked(ok) => if ok { RoomAction::Create } else { RoomAction::Finish },
        RoomEvent::Created(made) => match made {
            Some(c) => if running.anonymous_enabled && running.game.phase != Phase::Ended {
                set_room(&mut running.anonymous_role_input_channel_ids, user_id, role, c);
                set_room_owner(&mut running.anonymous_role_input_channels, c, user_id, role);
                remember_channel_permissions(running, c, channel_overwrites);
                RoomAction::Welcome(c)
            } else {
                RoomAction::Delete(c)
            },
            None => RoomAction::Finish,
        },
    }
}

/// The welcome text of a new role room and its title: a chatting room
/// relays what is written; a watching room only shows the talk.
pub open spec fn room_welcome(role: Role, can_chat: bool) -> (Seq<char>, Seq<char>) {
    if can_chat {
        (role.name_spec() + " 역할 개인 채팅 채널입니다.\n여기에 쓰면 같은 역할의 개인 채팅방에 익명으로 전달됩니다.\n이 채널 하나에서 역할 대화와 밤 행동을 처리하세요."@,
            "익명 역할 입력"@)
    } else {
        (role.name_spec() + " 역할 보기 전용 채널입니다.\n이 채널에서 역할 대화를 확인할 수 있습니다."@, "익명 역할 채팅"@)
    }
}

/// The welcome text of a new role room and its title.
pub fn room_welcome_text(role: Role, can_chat: bool) -> (w: (String, &'static str))
    ensures
        w.0@ == room_welcome(role, can_chat).0,
        w.1@ == room_welcome(role, can_chat).1,
{
    let mut text = String::from_str(role.value());
    if can_chat {
        text.append(" 역할 개인 채팅 채널입니다.\n여기에 쓰면 같은 역할의 개인 채팅방에 익명으로 전달됩니다.\n이 채널 하나에서 역할 대화와 밤 행동을 처리하세요.");
        (text, "익명 역할 입력")
    } else {
        text.append(" 역할 보기 전용 채널입니다.\n이 채널에서 역할 대화를 확인할 수 있습니다.");
        (text, "익명 역할 채팅")
    }
}

/// The name part of a player's role room: the anonymous name, else the real name.
pub fn room_label_text(running: &RunningGame, user_id: u64, name: &str) -> (s: String)
    ensures
        s@ == (match crate::running::name_for(running.anonymous_aliases@, user_id) {
            Some(a) => a,
            None => name@,
        }),
{
    match crate::running::entry_for(&running.anonymous_aliases, user_id) {
        Some(i) => running.anonymous_aliases[i].1.clone(),
        None => String::from_str(name),
    }
}

/// The keys of a table, in order.
pub open spec fn keys<K, V>(s: Seq<(K, V)>) -> Seq<K> {
    s.map_values(|p: (K, V)| p.0)
}

/// Setting a key keeps the keys of a table distinct, and the keys are the
/// old ones plus the set key.
pub proof fn law_keyed_set_keeps_keys_distinct<K, V>(s: Seq<(K, V)>, k: K, v: V)
    requires
        keys(s).no_duplicates(),
    ensures
        keys(keyed_set(s, k, v)).no_duplicates(),
        forall|x: K| #[trigger] keys(keyed_set(s, k, v)).contains(x) <==> (keys(s).contains(x) || x == k),
    decreases s.len(),
{
    let t = keyed_set(s, k, v);
    if s.len() == 0 {
        assert(keys(t) =~= seq![k]);
        assert forall|x: K| #[trigger] keys(t).contains(x) <==> (keys(s).contains(x) || x == k) by {
            if keys(t).contains(x) {
                assert(keys(t)[0] == x);
            }
            if x == k {
                assert(keys(t)[0] == x);
            }
        }
    } else if s[0].0 == k {
        assert(keys(t) =~= keys(s));
        assert forall|x: K| #[trigger] keys(t).contains(x) <==> (keys(s).contains(x) || x == k) by {
            if x == k {
                assert(keys(s)[0] == x);
            }
        }
    } else {
        let rest = s.drop_first();
        assert(keys(rest) =~= keys(s).drop_first());
        assert(keys(rest).no_duplicates());
        law_keyed_set_keeps_keys_distinct(rest, k, v);
        let tr = keyed_set(rest, k, v);
        assert(keys(t) =~= seq![s[0].0] + keys(tr));
        assert forall|x: K| #[trigger] keys(t).contains(x) <==> (keys(s).contains(x) || x == k) by {
            if keys(t).contains(x) {
                let i = choose|i: int| 0 <= i < keys(t).len() && keys(t)[i] == x;
                if i == 0 {
                    assert(keys(s)[0] == x);
                } else {
                    assert(keys(tr)[i - 1] == x);
                    assert(keys(tr).contains(x));
                    if keys(rest).contains(x) {
                        let j = choose|j: int| 0 <= j < keys(rest).len() && keys(rest)[j] == x;
                        assert(keys(s)[j + 1] == x);
                    }
                }
            }
            if keys(s).contains(x) {
                let i = choose|i: int| 0 <= i < keys(s).len() && keys(s)[i] == x;
                if i == 0 {
                    assert(keys(t)[0] == x);
                } else {
                    assert(keys(rest)[i - 1] == x);
                    assert(keys(rest).contains(x));
                    assert(keys(tr).contains(x));
                    let j = choose|j: int| 0 <= j < keys(tr).len() && keys(tr)[j] == x;
                    assert(keys(t)[j + 1] == x);
                }
            }
            if x == k {
                assert(keys(tr).contains(x));
                let j = choose|j: int| 0 <= j < keys(tr).len() && keys(tr)[j] == x;
                assert(keys(t)[j + 1] == x);
            }
        }
        assert forall|i: int, j: int| 0 <= i < keys(t).len() && 0 <= j < keys(t).len() && i != j
            implies keys(t)[i] != keys(t)[j] by {
            if i == 0 && j > 0 {
                assert(keys(tr).contains(keys(t)[j]));
                if keys(t)[j] == s[0].0 {
                    assert(keys(rest).contains(s[0].0));
                    let m = choose|m: int| 0 <= m < keys(rest).len() && keys(rest)[m] == s[0].0;
                    assert(keys(s)[m + 1] == keys(s)[0]);
                }
            } else if j == 0 && i > 0 {
                assert(keys(tr).contains(keys(t)[i]));
                if keys(t)[i] == s[0].0 {
                    assert(keys(rest).contains(s[0].0));
                    let m = choose|m: int| 0 <= m < keys(rest).len() && keys(rest)[m] == s[0].0;
                    assert(keys(s)[m + 1] == keys(s)[0]);
                }
            } else if i > 0 && j > 0 {
                assert(keys(t)[i] == keys(tr)[i - 1]);
                assert(keys(t)[j] == keys(tr)[j - 1]);
            }
        }
    }
}

fn set_room_message(table: &mut Vec<((u64, Role), u64)>, user_id: u64, role: Role, id: u64)
    ensures
        final(table)@ == keyed_set(old(table)@, (user_id, role), id),
{
    set_room(table, user_id, role, id);
}

fn set_room_text(table: &mut Vec<((u64, Role), String)>, user_id: u64, role: Role, text: String)
    ensures
        final(table)@ == keyed_set(old(table)@, (user_id, role), text),
{
    let ghost e = table@;
    let ghost k = (user_id, role);
    let mut i: usize = 0;
    assert(e.skip(0) =~= e);
    assert(e.take(0) + e.skip(0) =~= e);
    while i < table.len()
        invariant
            table@ == e,
            e == old(table)@,
            k == (user_id, role),
            i <= e.len(),
            keyed_set(e, k, text) == e.take(i as int) + keyed_set(e.skip(i as int), k, text),
        decreases e.len() - i,
    {
        if table[i].0.0 == user_id && table[i].0.1 == role {
            assert(e.skip(i as int)[0] == e[i as int]);
            assert(keyed_set(e.skip(i as int), k, text) == e.skip(i as int).update(0, (k, text)));
            assert(e.take(i as int) + e.skip(i as int).update(0, (k, text)) =~= e.update(i as int, (k, text)));
            table.set(i, ((user_id, role), text));
            return;
        }
        assert(e.skip(i as int).drop_first() =~= e.skip(i + 1));
        assert(e.take(i as int) + seq![e[i as int]] =~= e.take(i + 1));
        assert(e.take(i as int) + (seq![e[i as int]] + keyed_set(e.skip(i + 1), k, text))
            =~= e.take(i + 1) + keyed_set(e.skip(i + 1), k, text));
        i = i + 1;
    }
    assert(e.skip(i as int) =~= Seq::<((u64, Role), String)>::empty());
    assert(e.take(i as int) =~= e);
    table.push(((user_id, role), text));
}

/// Records the status message posted in a new role room and the text it
/// shows, so that later changes can edit it.
pub fn record_room_status(running: &mut RunningGame, user_id: u64, role: Role, message_id: u64, text: String)
    ensures
        final(running).anonymous_role_input_status_message_ids@
            == keyed_set(old(running).anonymous_role_input_status_message_ids@, (user_id, role), message_id),
        final(running).anonymous_role_status_texts@
            == keyed_set(old(running).anonymous_role_status_texts@, (user_id, role), text),
        *final(running) == (RunningGame {
            anonymous_role_input_status_message_ids: final(running).anonymous_role_input_status_message_ids,
            anonymous_role_status_texts: final(running).anonymous_role_status_texts,
            ..*old(running)
        }),
{
    set_room_message(&mut running.anonymous_role_input_status_message_ids, user_id, role, message_id);
    set_room_text(&mut running.anonymous_role_status_texts, user_id, role, text);
}

} // verus!
