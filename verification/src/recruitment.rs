//! Recruiting players for a game: the recruitment message, automatic start,
//! and the server roles to take back when recruitment is cancelled.
use vstd::prelude::*;
use std::collections::{HashMap, HashSet};
use vstd::std_specs::iter::IteratorSpec;
use crate::config::BotConfig;
use crate::role::{Role, public_citizen_special_pool};
use crate::role_map::{RoleMap, group_sum};
use crate::settings::{shown, shown_text};
use crate::sort::{sorted_by_lowercase, sort_by_lowercase};
use crate::summary::{role_summary, non_citizen_seats, public_role_count_text_from_counts};
use crate::text::{dec, join, views, push_dec, join_strings};

verus! {

broadcast use vstd::seq_lib::group_to_multiset_ensures, vstd::multiset::group_multiset_properties;

/// Status line of an open recruitment.
pub const RECRUITMENT_STATUS_OPEN: &'static str = "모집 중입니다.";

/// Status line of a cancelled recruitment.
pub const RECRUITMENT_STATUS_CANCELLED: &'static str = "모집이 취소되었습니다.";

/// Name of the server role given to spectators.
pub const SPECTATOR_ROLE: &'static str = "관전자";

/// A recruitment in progress.
pub struct Recruitment {
    pub host_user_id: u64,
    pub participant_role_id: u64,
    pub spectator_role_id: Option<u64>,
    pub role_counts: RoleMap<usize>,
    pub special_roles: Vec<Role>,
    pub max_players: usize,
    pub minimum_players: usize,
    pub joined_ids: HashSet<u64>,
    /// The names of the participants, by user id.
    pub joined_names: Vec<(u64, String)>,
    pub spectator_ids: HashSet<u64>,
    /// The names of the spectators, by user id.
    pub spectator_names: Vec<(u64, String)>,
    pub accepting: bool,
    pub cancelled: bool,
    pub auto_start_players: Option<usize>,
    pub recruitment_seconds: u64,
}

/// Whether the automatic start head count is set and reached.
pub open spec fn auto_start_due(r: &Recruitment) -> bool {
    match r.auto_start_players {
        Some(count) => r.joined_ids@.len() >= count,
        None => false,
    }
}

/// Whether the automatic start head count is set and reached (`auto_start_reached`).
pub fn auto_start_reached(recruitment: &Recruitment) -> (b: bool)
    ensures
        b == auto_start_due(recruitment),
{
    match recruitment.auto_start_players {
        Some(count) => recruitment.joined_ids.len() >= count,
        None => false,
    }
}

/// `a` is not after `b`: by user id, then by role id.
pub open spec fn pair_le(a: (u64, u64), b: (u64, u64)) -> bool {
    a.0 < b.0 || (a.0 == b.0 && a.1 <= b.1)
}

/// A list of (user, role) pairs in ascending order.
pub open spec fn pairs_sorted(s: Seq<(u64, u64)>) -> bool {
    forall|i: int, j: int| 0 <= i < j < s.len() ==> pair_le(#[trigger] s[i], #[trigger] s[j])
}

/// How often a (user, role) pair is to be removed: once for a participant
/// with the participant role, once for a spectator with the spectator role
/// when the server has one.
pub open spec fn removal_count(r: &Recruitment, x: (u64, u64)) -> nat {
    (if x.1 == r.participant_role_id && r.joined_ids@.contains(x.0) { 1nat } else { 0nat })
        + match r.spectator_role_id {
            Some(s) => if x.1 == s && r.spectator_ids@.contains(x.0) { 1nat } else { 0nat },
            None => 0nat,
        }
}

/// The ids paired with one role, in list order.
pub open spec fn with_role(ids: Seq<u64>, role: u64) -> Seq<(u64, u64)> {
    ids.map_values(|id: u64| (id, role))
}

proof fn lemma_with_role_count(ids: Seq<u64>, role: u64, x: (u64, u64))
    requires
        ids.no_duplicates(),
    ensures
        with_role(ids, role).to_multiset().count(x) == if x.1 == role && ids.contains(x.0) { 1nat } else { 0nat },
    decreases ids.len(),
{
    if ids.len() == 0 {
        assert(with_role(ids, role) =~= Seq::<(u64, u64)>::empty());
    } else {
        let init = ids.drop_last();
        assert(init.no_duplicates()) by {
            assert forall|i: int, j: int| 0 <= i < init.len() && 0 <= j < init.len() && i != j
                implies init[i] != init[j] by {
                assert(init[i] == ids[i] && init[j] == ids[j]);
            }
        }
        lemma_with_role_count(init, role, x);
        assert(with_role(ids, role) =~= with_role(init, role).push((ids.last(), role)));
        assert(ids.contains(x.0) == (init.contains(x.0) || ids.last() == x.0)) by {
            if ids.contains(x.0) && ids.last() != x.0 {
                let k = choose|k: int| 0 <= k < ids.len() && ids[k] == x.0;
                assert(k != ids.len() - 1);
                assert(init[k] == x.0);
            }
            if init.contains(x.0) {
                let k = choose|k: int| 0 <= k < init.len() && init[k] == x.0;
                assert(ids[k] == x.0);
            }
        }
        if ids.last() == x.0 {
            assert(!init.contains(x.0)) by {
                if init.contains(x.0) {
                    let k = choose|k: int| 0 <= k < init.len() && init[k] == x.0;
                    assert(ids[k] == ids[ids.len() - 1]);
                }
            }
        }
    }
}

/// The ids of a set, each once, in the set's iteration order.
fn set_ids(s: &HashSet<u64>) -> (v: Vec<u64>)
    ensures
        v@.to_set() == s@,
        v@.no_duplicates(),
{
    broadcast use vstd::std_specs::hash::group_hash_axioms;

    let ghost keys = vstd::std_specs::hash::spec_hash_keys_iter(s).remaining().unref();
    let mut v: Vec<u64> = Vec::new();
    for id in it: s.iter()
        invariant
            it.seq().unref() == keys,
            v@ == keys.take(it.index() as int),
    {
        v.push(*id);
    }
    assert(v@ =~= keys);
    v
}

/// Sorts (user, role) pairs in ascending order, keeping every pair.
fn sort_pairs(v: &mut Vec<(u64, u64)>)
    ensures
        final(v)@.to_multiset() == old(v)@.to_multiset(),
        pairs_sorted(final(v)@),
{
    let n = v.len();
    if n == 0 {
        return;
    }
    let mut i: usize = 1;
    while i < n
        invariant
            1 <= i <= n,
            n == v@.len(),
            v@.to_multiset() == old(v)@.to_multiset(),
            forall|a: int, b: int| 0 <= a < b < i ==> pair_le(#[trigger] v@[a], #[trigger] v@[b]),
        decreases n - i,
    {
        let mut j: usize = i;
        let mut done = false;
        while j > 0 && !done
            invariant
                0 <= j <= i < n,
                n == v@.len(),
                v@.to_multiset() == old(v)@.to_multiset(),
                forall|a: int, b: int| 0 <= a < b <= i && a != j && b != j ==> pair_le(#[trigger] v@[a], #[trigger] v@[b]),
                forall|b: int| j < b <= i ==> pair_le(v@[j as int], #[trigger] v@[b]),
                done ==> j > 0 && pair_le(v@[j - 1], v@[j as int]),
            decreases j, (if done { 0int } else { 1int }),
        {
            let left = v[j - 1];
            let right = v[j];
            if left.0 < right.0 || (left.0 == right.0 && left.1 <= right.1) {
                done = true;
            } else {
                let ghost before = v@;
                v.set(j - 1, right);
                v.set(j, left);
                proof {
                    assert(before.update(j - 1, right).update(j as int, left) == v@);
                    assert(before.update(j - 1, right).to_multiset() == before.to_multiset().insert(right).remove(left));
                    assert(before.update(j - 1, right)[j as int] == right);
                    assert(v@.to_multiset() == before.to_multiset().insert(right).remove(left).insert(left).remove(right));
                    assert(v@.to_multiset() =~= before.to_multiset());
                    assert forall|b: int| 0 <= b < n && b != j - 1 && b != j implies v@[b] == before[b] by {}
                    let jj = j - 1;
                    assert forall|b: int| jj < b <= i implies pair_le(v@[jj], #[trigger] v@[b]) by {
                        if b > j {
                            assert(pair_le(before[j as int], before[b]));
                        }
                    }
                    assert forall|a: int, b: int| 0 <= a < b <= i && a != jj && b != jj implies pair_le(#[trigger] v@[a], #[trigger] v@[b]) by {
                        if a == j as int {
                            assert(pair_le(before[jj], before[b]));
                        } else if b == j as int {
                            assert(pair_le(before[a], before[jj]));
                        } else {
                            assert(pair_le(before[a], before[b]));
                        }
                    }
                }
                j = j - 1;
            }
        }
        proof {
            assert forall|a: int, b: int| 0 <= a < b < i + 1 implies pair_le(#[trigger] v@[a], #[trigger] v@[b]) by {
                if a == j as int {
                } else if b == j as int {
                    assert(j > 0);
                    assert(done);
                    if a < j - 1 {
                        assert(pair_le(v@[a], v@[j - 1]));
                    }
                }
            }
        }
        i = i + 1;
    }
}

/// The (user, role) pairs to take back when recruitment is cancelled, in
/// ascending order (`recruitment_role_removals`): the participant role from
/// every participant, and the spectator role from every spectator when the
/// server has that role.
pub fn recruitment_role_removals(recruitment: &Recruitment) -> (v: Vec<(u64, u64)>)
    ensures
        pairs_sorted(v@),
        forall|x: (u64, u64)| #[trigger] v@.to_multiset().count(x) == removal_count(recruitment, x),
{
    broadcast use vstd::std_specs::hash::group_hash_axioms;

    let joined = set_ids(&recruitment.joined_ids);
    let mut v: Vec<(u64, u64)> = Vec::new();
    let mut i: usize = 0;
    while i < joined.len()
        invariant
            i <= joined@.len(),
            v@ == with_role(joined@.take(i as int), recruitment.participant_role_id),
        decreases joined@.len() - i,
    {
        v.push((joined[i], recruitment.participant_role_id));
        assert(with_role(joined@.take(i as int + 1), recruitment.participant_role_id)
            =~= with_role(joined@.take(i as int), recruitment.participant_role_id).push((joined@[i as int], recruitment.participant_role_id)));
        i = i + 1;
    }
    assert(joined@.take(joined@.len() as int) =~= joined@);
    let ghost first = v@;
    let mut spectators: Vec<u64> = Vec::new();
    let spectator_role = recruitment.spectator_role_id;
    match spectator_role {
        Some(role) => {
            spectators = set_ids(&recruitment.spectator_ids);
            let mut k: usize = 0;
            while k < spectators.len()
                invariant
                    k <= spectators@.len(),
                    v@ == first + with_role(spectators@.take(k as int), role),
                decreases spectators@.len() - k,
            {
                v.push((spectators[k], role));
                assert(with_role(spectators@.take(k as int + 1), role)
                    =~= with_role(spectators@.take(k as int), role).push((spectators@[k as int], role)));
                k = k + 1;
            }
            assert(spectators@.take(spectators@.len() as int) =~= spectators@);
        },
        None => {},
    }
    let ghost unsorted = v@;
    proof {
        assert forall|x: (u64, u64)| #[trigger] unsorted.to_multiset().count(x) == removal_count(recruitment, x) by {
            lemma_with_role_count(joined@, recruitment.participant_role_id, x);
            assert(joined@.contains(x.0) == recruitment.joined_ids@.contains(x.0)) by {
                if joined@.contains(x.0) {
                    assert(joined@.to_set().contains(x.0));
                }
                if recruitment.joined_ids@.contains(x.0) {
                    assert(joined@.to_set().contains(x.0));
                }
            }
            match spectator_role {
                Some(role) => {
                    lemma_with_role_count(spectators@, role, x);
                    vstd::seq_lib::lemma_multiset_commutative(first, with_role(spectators@, role));
                    assert(spectators@.contains(x.0) == recruitment.spectator_ids@.contains(x.0)) by {
                        if spectators@.contains(x.0) {
                            assert(spectators@.to_set().contains(x.0));
                        }
                        if recruitment.spectator_ids@.contains(x.0) {
                            assert(spectators@.to_set().contains(x.0));
                        }
                    }
                },
                None => {},
            }
        }
    }
    sort_pairs(&mut v);
    v
}

/// A numbered list: "1. name" lines.
pub open spec fn numbered(names: Seq<Seq<char>>) -> Seq<char> {
    join(Seq::new(names.len(), |i: int| dec((i + 1) as nat) + ". "@ + names[i]), "\n"@)
}

/// The names of a name list, sorted by their lower-case form and numbered,
/// or `none` when there are none.
pub open spec fn name_list(entries: Seq<(u64, String)>, none: Seq<char>) -> Seq<char> {
    let names = entries.map_values(|e: (u64, String)| e.1@);
    if names.len() == 0 { none } else { numbered(sorted_by_lowercase(names)) }
}

/// How many more are needed to reach `target`, never below zero.
pub open spec fn shortfall(target: usize, have: nat) -> nat {
    if target >= have { (target - have) as nat } else { 0 }
}

/// The recruiting rules at the top of the recruitment message.
pub open spec fn recruitment_rules(r: &Recruitment, config: &BotConfig) -> Seq<char> {
    let auto_start = match r.auto_start_players {
        Some(count) => "자동시작: **"@ + dec(count as nat) + "명**이 모이면 즉시 시작합니다."@,
        None => "자동시작: 설정되지 않았습니다. 주최자는 `자동시작` 버튼으로 인원을 정할 수 있습니다."@,
    };
    "최대 "@ + dec(r.recruitment_seconds as nat) + "초 동안 참가자를 모집합니다.\n참가 버튼을 누르면 게임 참가자로 등록되고, '"@
        + config.participant_role@ + "' 역할이 부여됩니다.\n관전 버튼을 누르면 '"@ + SPECTATOR_ROLE@
        + "' 역할이 부여되고 게임 채널을 읽을 수 있습니다.\n주최자는 `시작` 버튼으로 즉시 시작하거나 `취소` 버튼으로 모집을 취소할 수 있습니다.\n"@
        + auto_start
}

/// The game settings part of the recruitment message.
pub open spec fn recruitment_settings(r: &Recruitment, config: &BotConfig) -> Seq<char> {
    let shortage = shortfall(r.minimum_players, r.joined_ids@.len());
    let minimum = if shortage == 0 {
        "최소 시작 인원 **"@ + dec(r.minimum_players as nat) + "명** 충족"@
    } else {
        "최소 시작 인원 **"@ + dec(r.minimum_players as nat) + "명**까지 **"@ + dec(shortage) + "명** 더 필요"@
    };
    "\n\n역할 구성: "@ + role_summary(r.role_counts@, None)
        + "\n사망 시 직업 공개: "@ + shown(config.reveal_death_roles)
        + "\n경찰 조사 성공 여부 공개: "@ + shown(config.reveal_public_police_status)
        + "\n아침 생존 마피아 수 공개: "@ + shown(config.reveal_morning_mafia_count)
        + "\n"@ + minimum
}

/// The head counts and name lists of the recruitment message.
pub open spec fn recruitment_people(r: &Recruitment) -> Seq<char> {
    let joined = r.joined_ids@.len();
    "\n\n최대 참가 인원 **"@ + dec(r.max_players as nat) + "명**까지 **"@
        + dec(shortfall(r.max_players, joined)) + "명** 더 참가 가능\n\n현재 참가자 **"@ + dec(joined) + "/"@
        + dec(r.max_players as nat) + "명**\n"@ + name_list(r.joined_names@, "아직 참가자가 없습니다."@)
        + "\n\n현재 관전자 **"@ + dec(r.spectator_ids@.len()) + "명**\n"@
        + name_list(r.spectator_names@, "아직 관전자가 없습니다."@)
}

/// The recruitment message: the recruiting rules, the role line-up, the
/// head counts, the lists of participants and spectators, and the status.
pub open spec fn recruitment_text(r: &Recruitment, config: &BotConfig, status: Seq<char>) -> Seq<char> {
    recruitment_rules(r, config) + recruitment_settings(r, config) + recruitment_people(r) + "\n\n"@ + status
}

fn name_list_text(entries: &Vec<(u64, String)>, none: &str) -> (s: String)
    ensures
        s@ == name_list(entries@, none@),
{
    let ghost names_spec = entries@.map_values(|e: (u64, String)| e.1@);
    let mut names: Vec<String> = Vec::new();
    let mut i: usize = 0;
    while i < entries.len()
        invariant
            i <= entries@.len(),
            names@.len() == i,
            forall|k: int| 0 <= k < i ==> (#[trigger] names@[k])@ == entries@[k].1@,
        decreases entries@.len() - i,
    {
        names.push(entries[i].1.clone());
        i = i + 1;
    }
    assert(views(names@) =~= names_spec);
    if names.len() == 0 {
        return String::from_str(none);
    }
    let sorted = sort_by_lowercase(&names);
    let ghost sorted_spec = views(sorted@);
    let mut lines: Vec<String> = Vec::new();
    let mut k: usize = 0;
    while k < sorted.len()
        invariant
            k <= sorted@.len(),
            sorted_spec == views(sorted@),
            lines@.len() == k,
            forall|j: int| 0 <= j < k ==> (#[trigger] lines@[j])@ == dec((j + 1) as nat) + ". "@ + sorted_spec[j],
        decreases sorted@.len() - k,
    {
        let mut line = String::new();
        push_dec(&mut line, (k + 1) as u64);
        line.append(". ");
        line.append(sorted[k].as_str());
        lines.push(line);
        k = k + 1;
    }
    assert(views(lines@) =~= Seq::new(sorted_spec.len(), |i: int| dec((i + 1) as nat) + ". "@ + sorted_spec[i]));
    join_strings(&lines, "\n")
}

fn recruitment_rules_text(recruitment: &Recruitment, config: &BotConfig) -> (s: String)
    ensures
        s@ == recruitment_rules(recruitment, config),
{
    let mut s = String::from_str("최대 ");
    push_dec(&mut s, recruitment.recruitment_seconds);
    s.append("초 동안 참가자를 모집합니다.\n참가 버튼을 누르면 게임 참가자로 등록되고, '");
    s.append(config.participant_role.as_str());
    s.append("' 역할이 부여됩니다.\n관전 버튼을 누르면 '");
    s.append(SPECTATOR_ROLE);
    s.append("' 역할이 부여되고 게임 채널을 읽을 수 있습니다.\n주최자는 `시작` 버튼으로 즉시 시작하거나 `취소` 버튼으로 모집을 취소할 수 있습니다.\n");
    match recruitment.auto_start_players {
        Some(count) => {
            s.append("자동시작: **");
            push_dec(&mut s, count as u64);
            s.append("명**이 모이면 즉시 시작합니다.");
        },
        None => {
            s.append("자동시작: 설정되지 않았습니다. 주최자는 `자동시작` 버튼으로 인원을 정할 수 있습니다.");
        },
    }
    s
}

fn recruitment_settings_text(recruitment: &Recruitment, config: &BotConfig) -> (s: String)
    requires
        non_citizen_seats(recruitment.role_counts@) <= usize::MAX,
        group_sum(recruitment.role_counts@, public_citizen_special_pool()) <= usize::MAX,
    ensures
        s@ == recruitment_settings(recruitment, config),
{
    let joined = recruitment.joined_ids.len();
    let shortage = if recruitment.minimum_players >= joined { recruitment.minimum_players - joined } else { 0 };
    let mut s = String::from_str("\n\n역할 구성: ");
    let summary = public_role_count_text_from_counts(&recruitment.role_counts, None);
    s.append(summary.as_str());
    s.append("\n사망 시 직업 공개: ");
    s.append(shown_text(config.reveal_death_roles));
    s.append("\n경찰 조사 성공 여부 공개: ");
    s.append(shown_text(config.reveal_public_police_status));
    s.append("\n아침 생존 마피아 수 공개: ");
    s.append(shown_text(config.reveal_morning_mafia_count));
    s.append("\n");
    s.append("최소 시작 인원 **");
    push_dec(&mut s, recruitment.minimum_players as u64);
    if shortage == 0 {
        s.append("명** 충족");
    } else {
        s.append("명**까지 **");
        push_dec(&mut s, shortage as u64);
        s.append("명** 더 필요");
    }
    s
}

fn recruitment_people_text(recruitment: &Recruitment) -> (s: String)
    ensures
        s@ == recruitment_people(recruitment),
{
    let joined = recruitment.joined_ids.len();
    let remaining = if recruitment.max_players >= joined { recruitment.max_players - joined } else { 0 };
    let mut s = String::from_str("\n\n최대 참가 인원 **");
    push_dec(&mut s, recruitment.max_players as u64);
    s.append("명**까지 **");
    push_dec(&mut s, remaining as u64);
    s.append("명** 더 참가 가능\n\n현재 참가자 **");
    push_dec(&mut s, joined as u64);
    s.append("/");
    push_dec(&mut s, recruitment.max_players as u64);
    s.append("명**\n");
    let joined_list = name_list_text(&recruitment.joined_names, "아직 참가자가 없습니다.");
    s.append(joined_list.as_str());
    s.append("\n\n현재 관전자 **");
    push_dec(&mut s, recruitment.spectator_ids.len() as u64);
    s.append("명**\n");
    let spectator_list = name_list_text(&recruitment.spectator_names, "아직 관전자가 없습니다.");
    s.append(spectator_list.as_str());
    s
}

/// The text of the recruitment message.
pub fn recruitment_embed_text(recruitment: &Recruitment, config: &BotConfig, status: &str) -> (s: String)
    requires
        non_citizen_seats(recruitment.role_counts@) <= usize::MAX,
        group_sum(recruitment.role_counts@, public_citizen_special_pool()) <= usize::MAX,
    ensures
        s@ == recruitment_text(recruitment, config, status@),
{
    let mut s = recruitment_rules_text(recruitment, config);
    let settings = recruitment_settings_text(recruitment, config);
    s.append(settings.as_str());
    let people = recruitment_people_text(recruitment);
    s.append(people.as_str());
    s.append("\n\n");
    s.append(status);
    s
}


/// Once the automatic start head count is reached it stays reached while
/// more players join: a recruitment with the same setting and at least the
/// same participants is due as well.
pub proof fn law_auto_start_stays_reached(before: &Recruitment, after: &Recruitment)
    requires
        before.auto_start_players == after.auto_start_players,
        before.joined_ids@.subset_of(after.joined_ids@),
        after.joined_ids@.finite(),
    ensures
        auto_start_due(before) ==> auto_start_due(after),
{
    vstd::set_lib::lemma_len_subset(before.joined_ids@, after.joined_ids@);
}

} // verus!
