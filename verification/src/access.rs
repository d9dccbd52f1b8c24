//! Who may see and speak in the game's private channels.
use vstd::prelude::*;
use crate::game::{MafiaGame, Phase, Player};
use crate::role::Role;
use crate::running::RunningGame;
use crate::text::text_lt;

verus! {

/// Member access to the shared shaman channel: none in anonymous games, where
/// every shaman uses a personal relay channel instead.
pub fn shared_shaman_member_access(anonymous_enabled: bool, can_view: bool, can_chat: bool) -> (r: (bool, bool))
    ensures
        r == (if anonymous_enabled { (false, false) } else { (can_view, can_chat) }),
{
    if anonymous_enabled {
        (false, false)
    } else {
        (can_view, can_chat)
    }
}

/// Temporary channels may still be created while the game has not ended.
pub fn is_game_channel_creation_allowed(phase: Phase) -> (b: bool)
    ensures
        b == (phase != Phase::Ended),
{
    phase != Phase::Ended
}

/// Roles with a private team channel.
pub open spec fn private_chat_pool() -> Seq<Role> {
    seq![Role::Mafia, Role::Doctor, Role::Police, Role::Lover, Role::CultLeader]
}

/// Roles with a private team channel.
pub fn private_chat_roles() -> (v: Vec<Role>)
    ensures
        v@ == private_chat_pool(),
{
    let v = vec![Role::Mafia, Role::Doctor, Role::Police, Role::Lover, Role::CultLeader];
    assert(v@ =~= private_chat_pool());
    v
}

/// A player belongs to the private channel of `role`: by holding the role,
/// as a known mafia-team member for the mafia room, or as a cult-team member
/// for the cult room.
pub open spec fn private_member(game: &MafiaGame, role: Role, player: &Player) -> bool {
    ||| player.role == role
    ||| (role == Role::Mafia && game.known_mafia_team_ids@.contains(player.user_id))
    ||| (role == Role::CultLeader && game.cult_team_ids@.contains(player.user_id))
}

/// Living members that are not frogs see their private channel in every phase.
pub open spec fn can_view_private(game: &MafiaGame, role: Role, player: &Player) -> bool {
    player.alive && !game.frog_user_ids@.contains(player.user_id) && private_member(game, role, player)
}

/// Members speak in their private channel only at night, and not while seduced.
pub open spec fn can_chat_private(game: &MafiaGame, role: Role, player: &Player) -> bool {
    can_view_private(game, role, player) && game.phase == Phase::Night
        && !game.madam_seduced_ids@.contains(player.user_id)
}

/// Whether the player sees the private channel of `role`.
pub fn private_role_member_can_view(game: &MafiaGame, role: Role, player: &Player) -> (b: bool)
    ensures
        b == can_view_private(game, role, player),
{
    player.alive && !game.is_frog(player.user_id) && (player.role == role
        || (role == Role::Mafia && game.is_known_mafia_team(player.user_id))
        || (role == Role::CultLeader && game.is_cult_team(player.user_id)))
}

/// Whether the player may speak in the private channel of `role`.
pub fn private_role_member_can_chat(game: &MafiaGame, role: Role, player: &Player) -> (b: bool)
    ensures
        b == can_chat_private(game, role, player),
{
    private_role_member_can_view(game, role, player) && game.phase == Phase::Night
        && !game.is_madam_seduced(player.user_id)
}

/// The private channels to give back to a player whose curse ended: the
/// channel of their own role (the lover room only while it is open) and the
/// mafia room for known mafia-team members, ordered by role name, without
/// repeats; none for dead, frog or seduced players.
pub open spec fn roles_to_restore(game: &MafiaGame, player: &Player) -> Seq<Role> {
    if !player.alive || game.frog_user_ids@.contains(player.user_id) || game.madam_seduced_ids@.contains(player.user_id) {
        Seq::empty()
    } else {
        let own = private_chat_pool().contains(player.role) && (player.role != Role::Lover || game.lover_chat_open);
        let mafia = game.known_mafia_team_ids@.contains(player.user_id);
        if own && mafia {
            if player.role == Role::Mafia {
                seq![Role::Mafia]
            } else if text_lt(Role::Mafia.name_spec(), player.role.name_spec()) {
                seq![Role::Mafia, player.role]
            } else {
                seq![player.role, Role::Mafia]
            }
        } else if own {
            seq![player.role]
        } else if mafia {
            seq![Role::Mafia]
        } else {
            Seq::empty()
        }
    }
}

proof fn lemma_text_lt_asymmetric(a: Seq<char>, b: Seq<char>)
    requires
        text_lt(a, b),
    ensures
        !text_lt(b, a),
    decreases a.len(),
{
    if a.len() > 0 && b.len() > 0 && a[0] == b[0] {
        lemma_text_lt_asymmetric(a.drop_first(), b.drop_first());
    }
}

/// The rooms given back to a player are exactly these: none for a dead, frog
/// or seduced player; otherwise the room of their own role when that role has
/// a private channel (the mafia, doctor, police and cult rooms, and the lover
/// room while it is open), and the mafia room for a known mafia-team member.
/// No room comes twice, and they come in order of role name.
pub proof fn law_restored_rooms(game: &MafiaGame, player: &Player)
    ensures
        !player.alive || game.frog_user_ids@.contains(player.user_id)
            || game.madam_seduced_ids@.contains(player.user_id) ==> roles_to_restore(game, player).len() == 0,
        forall|x: Role| #[trigger] roles_to_restore(game, player).contains(x) <==> {
            &&& player.alive
            &&& !game.frog_user_ids@.contains(player.user_id)
            &&& !game.madam_seduced_ids@.contains(player.user_id)
            &&& {
                ||| x == player.role && (player.role == Role::Mafia || player.role == Role::Doctor
                    || player.role == Role::Police || player.role == Role::CultLeader
                    || (player.role == Role::Lover && game.lover_chat_open))
                ||| x == Role::Mafia && game.known_mafia_team_ids@.contains(player.user_id)
            }
        },
        roles_to_restore(game, player).no_duplicates(),
        forall|i: int, j: int| 0 <= i < j < roles_to_restore(game, player).len() ==> !text_lt(
            (#[trigger] roles_to_restore(game, player)[j]).name_spec(),
            (#[trigger] roles_to_restore(game, player)[i]).name_spec(),
        ),
{
    let r = roles_to_restore(game, player);
    let own_role = player.role == Role::Mafia || player.role == Role::Doctor || player.role == Role::Police
        || player.role == Role::CultLeader || player.role == Role::Lover;
    assert(private_chat_pool().contains(player.role) <==> own_role) by {
        if own_role {
            if player.role == Role::Mafia { assert(private_chat_pool()[0] == player.role); }
            if player.role == Role::Doctor { assert(private_chat_pool()[1] == player.role); }
            if player.role == Role::Police { assert(private_chat_pool()[2] == player.role); }
            if player.role == Role::Lover { assert(private_chat_pool()[3] == player.role); }
            if player.role == Role::CultLeader { assert(private_chat_pool()[4] == player.role); }
        }
    }
    if r.len() == 2 {
        if text_lt(r[0].name_spec(), r[1].name_spec()) {
            lemma_text_lt_asymmetric(r[0].name_spec(), r[1].name_spec());
        }
    }
    let live = player.alive && !game.frog_user_ids@.contains(player.user_id)
        && !game.madam_seduced_ids@.contains(player.user_id);
    let own = own_role && (player.role != Role::Lover || game.lover_chat_open);
    let mafia = game.known_mafia_team_ids@.contains(player.user_id);
    assert forall|x: Role| #[trigger] r.contains(x) <==> (live && ((x == player.role && own) || (x == Role::Mafia && mafia))) by {
        if live && own && mafia && player.role != Role::Mafia {
            assert(r.len() == 2);
            assert(r[0] == player.role || r[1] == player.role);
            assert(r[0] == Role::Mafia || r[1] == Role::Mafia);
            if x == r[0] { assert(r.contains(x)); }
            if x == r[1] { assert(r.contains(x)); }
            if r.contains(x) {
                let i = choose|i: int| 0 <= i < r.len() && r[i] == x;
                assert(i == 0 || i == 1);
            }
        } else if live && (own || mafia) {
            assert(r.len() == 1);
            assert(r[0] == if own { player.role } else { Role::Mafia });
            if x == r[0] { assert(r.contains(x)); }
            if r.contains(x) {
                let i = choose|i: int| 0 <= i < r.len() && r[i] == x;
                assert(i == 0);
            }
        } else {
            assert(r.len() == 0);
        }
    }
}

fn in_private_pool(role: Role) -> (b: bool)
    ensures
        b == private_chat_pool().contains(role),
{
    let pool = private_chat_roles();
    let mut i: usize = 0;
    while i < pool.len()
        invariant
            pool@ == private_chat_pool(),
            i <= pool@.len(),
            forall|k: int| 0 <= k < i ==> pool@[k] != role,
        decreases pool@.len() - i,
    {
        if pool[i] == role {
            return true;
        }
        i = i + 1;
    }
    false
}

/// The private channels to give back to a player (`private_roles_to_restore`).
pub fn private_roles_to_restore(running: &RunningGame, player: &Player) -> (v: Vec<Role>)
    ensures
        v@ == roles_to_restore(&running.game, player),
{
    let game = &running.game;
    if !player.alive || game.is_frog(player.user_id) || game.is_madam_seduced(player.user_id) {
        return Vec::new();
    }
    let own = in_private_pool(player.role) && (player.role != Role::Lover || game.lover_chat_open);
    let mafia = game.is_known_mafia_team(player.user_id);
    let mut v: Vec<Role> = Vec::new();
    if own && mafia {
        if player.role == Role::Mafia {
            v.push(Role::Mafia);
        } else {
            let a = crate::text::chars_of(Role::Mafia.value());
            let b = crate::text::chars_of(player.role.value());
            if crate::text::text_less(&a, &b) {
                v.push(Role::Mafia);
                v.push(player.role);
            } else {
                v.push(player.role);
                v.push(Role::Mafia);
            }
        }
    } else if own {
        v.push(player.role);
    } else if mafia {
        v.push(Role::Mafia);
    }
    assert(v@ =~= roles_to_restore(&running.game, player));
    v
}


/// Seeing a private channel does not follow the chat phase: a member sees
/// it by day and by night alike, while speaking there is for the night only.
pub proof fn law_private_view_ignores_phase(game: &MafiaGame, role: Role, player: &Player, phase: Phase)
    ensures
        can_view_private(&MafiaGame { phase, ..*game }, role, player) == can_view_private(game, role, player),
        can_chat_private(game, role, player) ==> game.phase == Phase::Night && can_view_private(game, role, player),
{
}

} // verus!
