//! The contractor's night contract: two target players and a role guess for each.
use vstd::prelude::*;
use crate::game::has_id;
use crate::role::Role;

verus! {

/// A contract being filled in: a target and a guessed role per slot.
pub struct ContractorContractDraft {
    pub target_ids: [Option<u64>; 2],
    pub guessed_roles: [Option<Role>; 2],
}

impl Default for ContractorContractDraft {
    /// An empty draft.
    fn default() -> (d: Self)
        ensures
            d.target_ids@ == seq![None::<u64>, None::<u64>],
            d.guessed_roles@ == seq![None::<Role>, None::<Role>],
    {
        let d = ContractorContractDraft { target_ids: [None, None], guessed_roles: [None, None] };
        assert(d.target_ids@ =~= seq![None::<u64>, None::<u64>]);
        assert(d.guessed_roles@ =~= seq![None::<Role>, None::<Role>]);
        d
    }
}

/// The message for a slot that does not exist.
pub open spec fn bad_slot_message() -> Seq<char> {
    "잘못된 청부 선택입니다."@
}

/// The draft after `target_id` is put in `slot`: the slot keeps its role
/// guess, and the other slot is cleared, guess and all, when it held the
/// same target.
pub open spec fn with_target(d: ContractorContractDraft, slot: int, target_id: u64) -> (Seq<Option<u64>>, Seq<Option<Role>>) {
    let other = 1 - slot;
    let (targets, roles) = if d.target_ids@[other] == Some(target_id) {
        (d.target_ids@.update(other, None), d.guessed_roles@.update(other, None))
    } else {
        (d.target_ids@, d.guessed_roles@)
    };
    (targets.update(slot, Some(target_id)), roles)
}

/// Puts a target in a slot of the draft (`set_contractor_draft_target`).
/// A slot other than 0 or 1 is refused and leaves the draft as it was.
pub fn set_contractor_draft_target(draft: &mut ContractorContractDraft, slot: usize, target_id: u64) -> (r: Result<(), String>)
    ensures
        slot >= 2 ==> (r matches Err(e) && e@ == bad_slot_message()) && *final(draft) == *old(draft),
        slot < 2 ==> r is Ok && (final(draft).target_ids@, final(draft).guessed_roles@)
            == with_target(*old(draft), slot as int, target_id),
        slot < 2 ==> final(draft).target_ids@[0] != final(draft).target_ids@[1],
{
    if slot >= 2 {
        return Err(String::from_str("잘못된 청부 선택입니다."));
    }
    let ghost before = *draft;
    let other: usize = 1 - slot;
    let mut targets = draft.target_ids;
    let mut roles = draft.guessed_roles;
    if targets[other] == Some(target_id) {
        targets[other] = None;
        roles[other] = None;
    }
    targets[slot] = Some(target_id);
    draft.target_ids = targets;
    draft.guessed_roles = roles;
    proof {
        let w = with_target(before, slot as int, target_id);
        assert(draft.target_ids@ =~= w.0);
        assert(draft.guessed_roles@ =~= w.1);
    }
    Ok(())
}

/// The contract to submit: both targets and both guesses, once all four are chosen.
pub open spec fn submission(d: ContractorContractDraft) -> Option<(u64, u64, Role, Role)> {
    match (d.target_ids@[0], d.target_ids@[1], d.guessed_roles@[0], d.guessed_roles@[1]) {
        (Some(a), Some(b), Some(x), Some(y)) => Some((a, b, x, y)),
        _ => None,
    }
}

/// The contract to submit, once it is complete (`contractor_draft_submission`).
pub fn contractor_draft_submission(draft: &ContractorContractDraft) -> (r: Option<(u64, u64, Role, Role)>)
    ensures
        r == submission(*draft),
{
    match (draft.target_ids[0], draft.target_ids[1], draft.guessed_roles[0], draft.guessed_roles[1]) {
        (Some(a), Some(b), Some(x), Some(y)) => Some((a, b, x, y)),
        _ => None,
    }
}


/// A slot's target after checking it against the current targets: kept when
/// it may still be picked, dropped otherwise.
pub open spec fn checked_target(d: ContractorContractDraft, slot: int, targets: Seq<u64>) -> Option<u64> {
    match d.target_ids@[slot] {
        Some(t) => if targets.contains(t) { Some(t) } else { None },
        None => None,
    }
}

/// A slot's guess after the check: dropped when the guess is not a role the
/// contractor may guess, or when the slot's target was dropped.
pub open spec fn checked_guess(d: ContractorContractDraft, slot: int, targets: Seq<u64>, guesses: Seq<Role>) -> Option<Role> {
    if d.target_ids@[slot] is Some && checked_target(d, slot, targets) is None {
        None
    } else {
        match d.guessed_roles@[slot] {
            Some(r) => if guesses.contains(r) { Some(r) } else { None },
            None => None,
        }
    }
}

/// The draft brought up to date with the targets that may be picked now and
/// the roles that may be guessed; when both slots name the same target, the
/// second slot is cleared.
pub open spec fn checked_draft(d: ContractorContractDraft, targets: Seq<u64>, guesses: Seq<Role>) -> (Seq<Option<u64>>, Seq<Option<Role>>) {
    let t0 = checked_target(d, 0, targets);
    let t1 = checked_target(d, 1, targets);
    let g0 = checked_guess(d, 0, targets, guesses);
    let g1 = checked_guess(d, 1, targets, guesses);
    if t0 is Some && t0 == t1 {
        (seq![t0, None], seq![g0, None])
    } else {
        (seq![t0, t1], seq![g0, g1])
    }
}

fn holds_role(roles: &Vec<Role>, x: Role) -> (b: bool)
    ensures
        b == roles@.contains(x),
{
    let mut i: usize = 0;
    while i < roles.len()
        invariant
            i <= roles@.len(),
            forall|k: int| 0 <= k < i ==> roles@[k] != x,
        decreases roles@.len() - i,
    {
        if roles[i] == x {
            return true;
        }
        i = i + 1;
    }
    false
}

/// Brings a contract draft up to date before it is shown: `target_ids` are the players the contractor may
/// pick now and `guess_roles` the roles the contractor may guess, both as
/// the game engine gives them.
pub fn refresh_contractor_draft(draft: &mut ContractorContractDraft, target_ids: &Vec<u64>, guess_roles: &Vec<Role>)
    ensures
        (final(draft).target_ids@, final(draft).guessed_roles@) == checked_draft(*old(draft), target_ids@, guess_roles@),
        final(draft).target_ids@[0] is Some ==> final(draft).target_ids@[0] != final(draft).target_ids@[1],
        forall|s: int| 0 <= s < 2 && (#[trigger] final(draft).target_ids@[s]) is Some
            ==> target_ids@.contains(final(draft).target_ids@[s]->Some_0),
        forall|s: int| 0 <= s < 2 && (#[trigger] final(draft).guessed_roles@[s]) is Some
            ==> guess_roles@.contains(final(draft).guessed_roles@[s]->Some_0),
{
    let ghost before = *draft;
    let mut targets = draft.target_ids;
    let mut roles = draft.guessed_roles;
    let mut slot: usize = 0;
    while slot < 2
        invariant
            slot <= 2,
            forall|s: int| 0 <= s < slot ==> targets@[s] == checked_target(before, s, target_ids@)
                && roles@[s] == checked_guess(before, s, target_ids@, guess_roles@),
            forall|s: int| slot <= s < 2 ==> targets@[s] == before.target_ids@[s] && roles@[s] == before.guessed_roles@[s],
        decreases 2 - slot,
    {
        if let Some(role) = roles[slot] {
            if !holds_role(guess_roles, role) {
                roles[slot] = None;
            }
        }
        if let Some(target_id) = targets[slot] {
            if !has_id(target_ids, target_id) {
                targets[slot] = None;
                roles[slot] = None;
            }
        }
        slot = slot + 1;
    }
    if targets[0].is_some() && targets[0] == targets[1] {
        targets[1] = None;
        roles[1] = None;
    }
    draft.target_ids = targets;
    draft.guessed_roles = roles;
    proof {
        let w = checked_draft(before, target_ids@, guess_roles@);
        assert(draft.target_ids@ =~= w.0);
        assert(draft.guessed_roles@ =~= w.1);
    }
}

} // verus!
