//! The reply to a night-action choice, decided from what the game engine
//! answered about the actor.
use vstd::prelude::*;
use crate::role::Role;
use crate::text::{join, views, join_strings};

verus! {

/// What the game engine says about the actor after it took a night choice.
#[derive(Clone, Copy, Debug, PartialEq, Eq, Structural)]
pub struct NightFacts {
    /// The actor's own role, or `None` when they are not a player.
    pub actor_role: Option<Role>,
    /// The role the actor acts as tonight.
    pub effective_role: Role,
    pub actor_alive: bool,
    /// Whether the actor was in the known mafia team before the choice, and is now.
    pub was_known_mafia_team: bool,
    pub known_mafia_team_now: bool,
    /// Whether the actor may still change tonight's choice.
    pub can_change: bool,
    /// Whether a spy may use the bonus action.
    pub spy_bonus: bool,
    /// Whether every night action is in, so the night may end early.
    pub night_done: bool,
    /// The cult bells rung by this choice.
    pub cult_bells: u32,
}

/// Which menu the reply shows.
#[derive(Clone, Copy, Debug, PartialEq, Eq, Structural)]
pub enum NightView {
    /// The mafia target menu, with the mafia's current choices.
    Mafia,
    /// The spy's menu again, for the bonus action.
    SpyBonus,
    /// The menu of this role again, to change the choice.
    Changeable(Role),
    /// No menu: the action is done.
    Done,
}

/// The reply to a night choice and what follows from it.
pub struct NightReply {
    pub view: NightView,
    pub text: String,
    pub title: &'static str,
    /// The actor just joined the known mafia team: open the mafia room to them.
    pub grant_mafia_room: bool,
    /// The shaman's purified target, whose dead-chat access is settled at once.
    pub purified_target: Option<u64>,
    /// Wake the night loop so the night ends early.
    pub end_night: bool,
    /// The cult-bell announcement for the game channel.
    pub bells: Option<String>,
}

/// The reply text before the view's note: the engine's message, with the
/// police result on its own line when there is one.
pub open spec fn night_message(message: Seq<char>, police_result: Option<Seq<char>>) -> Seq<char> {
    match police_result {
        Some(r) => message + "\n"@ + r,
        None => message,
    }
}

/// The view of the reply: the mafia menu for a mafia member or a thief
/// acting as mafia; else the spy's bonus menu; else the menu again while
/// the choice may change (not for mafia); else none.
pub open spec fn night_view(f: NightFacts) -> NightView {
    match f.actor_role {
        None => NightView::Done,
        Some(role) => if role == Role::Mafia || (role == Role::Thief && f.effective_role == Role::Mafia) {
            NightView::Mafia
        } else if role == Role::Spy && f.spy_bonus {
            NightView::SpyBonus
        } else if f.can_change && f.effective_role != Role::Mafia {
            NightView::Changeable(f.effective_role)
        } else {
            NightView::Done
        },
    }
}

/// The cult-bell announcement: one line per bell.
pub open spec fn bells_text(n: nat) -> Seq<char> {
    join(Seq::new(n, |i: int| "교주의 종소리가 울렸습니다."@), "\n"@)
}

/// The reply to a night-action choice: the text and title of each view,
/// the mafia room for a living actor who just joined the known mafia team,
/// the shaman's purified target, and, when no menu follows, the early end
/// of the night and the cult bells.
pub fn night_action_reply(message: &str, police_result: Option<&str>, mafia_status: &str, facts: NightFacts,
    target_id: Option<u64>) -> (r: NightReply)
    ensures
        r.view == night_view(facts),
        r.text@ == (match night_view(facts) {
            NightView::Mafia => night_message(message@, match police_result { Some(p) => Some(p@), None => None })
                + "\n\n"@ + mafia_status@,
            NightView::SpyBonus => night_message(message@, match police_result { Some(p) => Some(p@), None => None })
                + "\n\n추가 첩보를 한 번 더 사용할 수 있습니다."@,
            NightView::Changeable(_) => night_message(message@, match police_result { Some(p) => Some(p@), None => None })
                + "\n\n밤이 끝나기 전 다시 선택하면 대상을 변경할 수 있습니다."@,
            NightView::Done => night_message(message@, match police_result { Some(p) => Some(p@), None => None }),
        }),
        r.title@ == (match night_view(facts) {
            NightView::Mafia => "마피아 처치 선택"@,
            NightView::SpyBonus => "접선 성공"@,
            _ => "밤 행동 완료"@,
        }),
        r.grant_mafia_room == (facts.actor_role is Some && facts.actor_alive && !facts.was_known_mafia_team
            && facts.known_mafia_team_now),
        r.purified_target == (if facts.actor_role is Some && facts.effective_role == Role::Shaman { target_id } else { None }),
        r.end_night == (night_view(facts) == NightView::Done && facts.night_done),
        match r.bells {
            Some(b) => night_view(facts) == NightView::Done && facts.cult_bells > 0 && b@ == bells_text(facts.cult_bells as nat),
            None => !(night_view(facts) == NightView::Done && facts.cult_bells > 0),
        },
{
    let mut text = String::from_str(message);
    match police_result {
        Some(p) => {
            text.append("\n");
            text.append(p);
        },
        None => {},
    }
    let view = match facts.actor_role {
        None => NightView::Done,
        Some(role) => if role == Role::Mafia || (role == Role::Thief && facts.effective_role == Role::Mafia) {
            NightView::Mafia
        } else if role == Role::Spy && facts.spy_bonus {
            NightView::SpyBonus
        } else if facts.can_change && facts.effective_role != Role::Mafia {
            NightView::Changeable(facts.effective_role)
        } else {
            NightView::Done
        },
    };
    let title = match view {
        NightView::Mafia => {
            text.append("\n\n");
            text.append(mafia_status);
            "마피아 처치 선택"
        },
        NightView::SpyBonus => {
            text.append("\n\n추가 첩보를 한 번 더 사용할 수 있습니다.");
            "접선 성공"
        },
        NightView::Changeable(_) => {
            text.append("\n\n밤이 끝나기 전 다시 선택하면 대상을 변경할 수 있습니다.");
            "밤 행동 완료"
        },
        NightView::Done => "밤 행동 완료",
    };
    let is_player = facts.actor_role.is_some();
    let done = view == NightView::Done;
    let bells = if done && facts.cult_bells > 0 {
        let mut lines: Vec<String> = Vec::new();
        let mut k: u32 = 0;
        while k < facts.cult_bells
            invariant
                k <= facts.cult_bells,
                lines@.len() == k,
                forall|j: int| 0 <= j < k ==> #[trigger] lines@[j]@ == "교주의 종소리가 울렸습니다."@,
            decreases facts.cult_bells - k,
        {
            lines.push(String::from_str("교주의 종소리가 울렸습니다."));
            k = k + 1;
        }
        assert(views(lines@) =~= Seq::new(facts.cult_bells as nat, |i: int| "교주의 종소리가 울렸습니다."@));
        Some(join_strings(&lines, "\n"))
    } else {
        None
    };
    NightReply {
        view,
        text,
        title,
        grant_mafia_room: is_player && facts.actor_alive && !facts.was_known_mafia_team && facts.known_mafia_team_now,
        purified_target: if is_player && facts.effective_role == Role::Shaman { target_id } else { None },
        end_night: done && facts.night_done,
        bells,
    }
}

} // verus!
