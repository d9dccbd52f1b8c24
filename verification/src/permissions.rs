//! Discord permission bits of game channels, and the server roles of members.
use vstd::prelude::*;

verus! {

/// Permission to add reactions.
pub const ADD_REACTIONS: u64 = 0x40;
/// Permission to see a channel.
pub const VIEW_CHANNEL: u64 = 0x400;
/// Permission to send messages.
pub const SEND_MESSAGES: u64 = 0x800;
/// Permission to manage messages.
pub const MANAGE_MESSAGES: u64 = 0x2000;
/// Permission to read the message history.
pub const READ_MESSAGE_HISTORY: u64 = 0x10000;
/// Permission to create public threads.
pub const CREATE_PUBLIC_THREADS: u64 = 0x8_0000_0000;
/// Permission to create private threads.
pub const CREATE_PRIVATE_THREADS: u64 = 0x10_0000_0000;
/// Permission to send messages in threads.
pub const SEND_MESSAGES_IN_THREADS: u64 = 0x40_0000_0000;

/// Who a permission overwrite applies to.
#[derive(Clone, Copy, Debug, PartialEq, Eq, Structural)]
pub enum OverwriteTarget {
    Member(u64),
    Role(u64),
}

/// The server roles and the bot account that channel permissions are set for.
#[derive(Clone, Copy, Debug, PartialEq, Eq, Structural)]
pub struct ChannelRoleIds {
    pub everyone: u64,
    pub participant: Option<u64>,
    pub dead: Option<u64>,
    pub spectator: Option<u64>,
    pub manager: Option<u64>,
    /// The bot's own user id.
    pub bot: u64,
}

/// A channel permission overwrite: the bits it allows and denies.
#[derive(Clone, Copy, Debug, PartialEq, Eq, Structural)]
pub struct PermissionOverwrite {
    pub allow: u64,
    pub deny: u64,
    pub kind: OverwriteTarget,
}

/// The bits the game manages: chatting, reacting and threads, and with
/// `clear_view` also seeing the channel and its history.
pub open spec fn game_bits(clear_view: bool) -> u64 {
    let chat = SEND_MESSAGES | SEND_MESSAGES_IN_THREADS | ADD_REACTIONS | CREATE_PUBLIC_THREADS
        | CREATE_PRIVATE_THREADS;
    if clear_view { chat | VIEW_CHANNEL | READ_MESSAGE_HISTORY } else { chat }
}

/// An overwrite without the game's bits, or nothing when no bit is left.
pub open spec fn stripped(o: PermissionOverwrite, clear_view: bool) -> Option<PermissionOverwrite> {
    let mask = game_bits(clear_view);
    let allow = o.allow & !mask;
    let deny = o.deny & !mask;
    if allow != 0 || deny != 0 {
        Some(PermissionOverwrite { allow, deny, kind: o.kind })
    } else {
        None
    }
}

/// Removes the game's bits from an overwrite (`stripped_game_permission_overwrite`);
/// every other bit stays as it was.
pub fn stripped_game_permission_overwrite(overwrite: PermissionOverwrite, clear_view: bool) -> (r: Option<PermissionOverwrite>)
    ensures
        r == stripped(overwrite, clear_view),
        r matches Some(c) ==> c.allow & game_bits(clear_view) == 0 && c.deny & game_bits(clear_view) == 0
            && c.allow | game_bits(clear_view) == overwrite.allow | game_bits(clear_view)
            && c.deny | game_bits(clear_view) == overwrite.deny | game_bits(clear_view),
{
    let mut bits = SEND_MESSAGES | SEND_MESSAGES_IN_THREADS | ADD_REACTIONS | CREATE_PUBLIC_THREADS
        | CREATE_PRIVATE_THREADS;
    if clear_view {
        bits = bits | VIEW_CHANNEL | READ_MESSAGE_HISTORY;
    }
    let old_allow = overwrite.allow;
    let old_deny = overwrite.deny;
    let allow = old_allow & !bits;
    let deny = old_deny & !bits;
    assert(allow & bits == 0 && allow | bits == old_allow | bits) by (bit_vector)
        requires
            allow == old_allow & !bits,
    ;
    assert(deny & bits == 0 && deny | bits == old_deny | bits) by (bit_vector)
        requires
            deny == old_deny & !bits,
    ;
    if allow != 0 || deny != 0 {
        Some(PermissionOverwrite { allow, deny, kind: overwrite.kind })
    } else {
        None
    }
}

/// `roles` without every `remove`.
pub open spec fn without(roles: Seq<u64>, remove: Option<u64>) -> Seq<u64>
    decreases roles.len(),
{
    if roles.len() == 0 {
        roles
    } else if remove == Some(roles.last()) {
        without(roles.drop_last(), remove)
    } else {
        without(roles.drop_last(), remove).push(roles.last())
    }
}

/// A member's roles after the swap: `remove` taken away, `add` put at the
/// end unless the member still has it.
pub open spec fn swapped(roles: Seq<u64>, remove: Option<u64>, add: Option<u64>) -> Seq<u64> {
    let kept = without(roles, remove);
    match add {
        Some(a) => if kept.contains(a) { kept } else { kept.push(a) },
        None => kept,
    }
}

/// The member's new roles, or nothing when the swap changes nothing
/// (`swapped_member_roles`).
pub fn swapped_member_roles(member_roles: &[u64], remove_role: Option<u64>, add_role: Option<u64>) -> (r: Option<Vec<u64>>)
    ensures
        match r {
            Some(v) => v@ == swapped(member_roles@, remove_role, add_role) && v@ != member_roles@,
            None => swapped(member_roles@, remove_role, add_role) == member_roles@,
        },
{
    let mut roles: Vec<u64> = Vec::new();
    let mut i: usize = 0;
    while i < member_roles.len()
        invariant
            i <= member_roles@.len(),
            roles@ == without(member_roles@.take(i as int), remove_role),
        decreases member_roles@.len() - i,
    {
        let role_id = member_roles[i];
        assert(member_roles@.take(i as int + 1).drop_last() =~= member_roles@.take(i as int));
        if remove_role != Some(role_id) {
            roles.push(role_id);
        }
        i = i + 1;
    }
    assert(member_roles@.take(member_roles@.len() as int) =~= member_roles@);
    if let Some(role_id) = add_role {
        let mut present = false;
        let mut k: usize = 0;
        while k < roles.len()
            invariant
                k <= roles@.len(),
                present == exists|j: int| 0 <= j < k && roles@[j] == role_id,
            decreases roles@.len() - k,
        {
            if roles[k] == role_id {
                present = true;
            }
            k = k + 1;
        }
        if !present {
            roles.push(role_id);
        }
    }
    let mut same = roles.len() == member_roles.len();
    let mut k: usize = 0;
    while same && k < roles.len()
        invariant
            k <= roles@.len(),
            same ==> roles@.len() == member_roles@.len(),
            same ==> forall|j: int| 0 <= j < k ==> roles@[j] == member_roles@[j],
            !same ==> roles@ != member_roles@,
        decreases roles@.len() - k,
    {
        if roles[k] != member_roles[k] {
            same = false;
        }
        k = k + 1;
    }
    if same {
        assert(roles@ =~= member_roles@);
        None
    } else {
        Some(roles)
    }
}


proof fn lemma_without(roles: Seq<u64>, remove: Option<u64>, x: u64)
    ensures
        without(roles, remove).contains(x) == (roles.contains(x) && remove != Some(x)),
    decreases roles.len(),
{
    if roles.len() > 0 {
        let init = roles.drop_last();
        lemma_without(init, remove, x);
        assert(roles =~= init.push(roles.last()));
        assert(roles.contains(x) == (init.contains(x) || roles.last() == x)) by {
            if roles.contains(x) && roles.last() != x {
                let k = choose|k: int| 0 <= k < roles.len() && roles[k] == x;
                assert(init[k] == x);
            }
            if init.contains(x) {
                let k = choose|k: int| 0 <= k < init.len() && init[k] == x;
                assert(roles[k] == x);
            }
        }
        let w = without(init, remove);
        if remove != Some(roles.last()) {
            assert(w.push(roles.last()).contains(x) == (w.contains(x) || roles.last() == x)) by {
                if w.push(roles.last()).contains(x) && roles.last() != x {
                    let k = choose|k: int| 0 <= k < w.len() + 1 && w.push(roles.last())[k] == x;
                    assert(w[k] == x);
                }
                if w.contains(x) {
                    let k = choose|k: int| 0 <= k < w.len() && w[k] == x;
                    assert(w.push(roles.last())[k] == x);
                }
                if roles.last() == x {
                    assert(w.push(roles.last())[w.len() as int] == x);
                }
            }
        }
    }
}

/// Swapping game roles leaves a member's other roles alone: every role the
/// member had, except the one taken away, is kept; the added role is held
/// afterwards; the removed role is gone unless it is the one added.
pub proof fn law_swap_keeps_unrelated_roles(roles: Seq<u64>, remove: Option<u64>, add: Option<u64>, x: u64)
    ensures
        roles.contains(x) && remove != Some(x) ==> swapped(roles, remove, add).contains(x),
        add is Some ==> swapped(roles, remove, add).contains(add->Some_0),
        (remove matches Some(r) && add != Some(r)) ==> !swapped(roles, remove, add).contains(remove->Some_0),
{
    lemma_without(roles, remove, x);
    let kept = without(roles, remove);
    if let Some(a) = add {
        if !kept.contains(a) {
            assert(kept.push(a)[kept.len() as int] == a);
            assert(kept.push(a).contains(x) == (kept.contains(x) || a == x)) by {
                if kept.contains(x) {
                    let k = choose|k: int| 0 <= k < kept.len() && kept[k] == x;
                    assert(kept.push(a)[k] == x);
                }
                if kept.push(a).contains(x) && a != x {
                    let k = choose|k: int| 0 <= k < kept.len() + 1 && kept.push(a)[k] == x;
                    assert(kept[k] == x);
                }
            }
        }
    }
    if let Some(r) = remove {
        lemma_without(roles, remove, r);
        if let Some(a) = add {
            if !kept.contains(a) && a != r {
                assert(!kept.push(a).contains(r)) by {
                    if kept.push(a).contains(r) {
                        let k = choose|k: int| 0 <= k < kept.len() + 1 && kept.push(a)[k] == r;
                        assert(kept[k] == r);
                    }
                }
            }
        }
    }
}

} // verus!
