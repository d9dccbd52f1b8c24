//! How many players hold each role in a game, and the smallest game that
//! such a role line-up needs.
use vstd::prelude::*;
use crate::config::BotConfig;
use crate::random::{shuffle_roles, choose_role};
use crate::role::Role;
use crate::role_map::{RoleMap, count_of, group_sum, count_group, all_roles, all_roles_vec};
use crate::selection::sort_by_history;
use crate::slots::{seen, seats};
use crate::text::{dec, push_dec};

verus! {

broadcast use vstd::seq_lib::group_to_multiset_ensures, vstd::multiset::group_multiset_properties;

/// The investigation roles that may fill the police slots: the police
/// always, the others when switched on (`investigation_role_candidates`).
pub open spec fn investigation_candidates(config: &BotConfig) -> Seq<Role> {
    let a = seq![Role::Police];
    let b = if config.use_agent { a.push(Role::Agent) } else { a };
    let c = if config.use_vigilante { b.push(Role::Vigilante) } else { b };
    if config.enable_inspector { c.push(Role::Inspector) } else { c }
}

/// The investigation roles that may fill the police slots.
pub fn investigation_role_candidates(config: &BotConfig) -> (v: Vec<Role>)
    ensures
        v@ == investigation_candidates(config),
{
    let mut v = vec![Role::Police];
    if config.use_agent {
        v.push(Role::Agent);
    }
    if config.use_vigilante {
        v.push(Role::Vigilante);
    }
    if config.enable_inspector {
        v.push(Role::Inspector);
    }
    assert(v@ =~= investigation_candidates(config));
    v
}

/// A least-seen investigation role, ties broken by chance
/// (`balanced_investigation_role`).
pub fn balanced_investigation_role(config: &BotConfig, role_history: &RoleMap<i64>) -> (r: Role)
    ensures
        investigation_candidates(config).contains(r),
        forall|c: Role| investigation_candidates(config).contains(c) ==> seen(role_history@, r) <= seen(role_history@, c),
{
    let mut candidates = investigation_role_candidates(config);
    let ghost before = candidates@;
    shuffle_roles(&mut candidates);
    sort_by_history(&mut candidates, role_history);
    proof {
        assert(candidates@.to_multiset() == before.to_multiset());
        assert(before.to_multiset().count(Role::Police) > 0) by {
            assert(before[0] == Role::Police);
        }
        assert(candidates@.len() > 0);
        assert forall|c: Role| investigation_candidates(config).contains(c) implies seen(role_history@, candidates@[0]) <= seen(role_history@, c) by {
            assert(before.to_multiset().count(c) > 0);
            assert(candidates@.contains(c));
            let k = choose|k: int| 0 <= k < candidates@.len() && candidates@[k] == c;
            if k > 0 {
                assert(seen(role_history@, candidates@[0]) <= seen(role_history@, candidates@[k]));
            }
        }
        assert(candidates@.to_multiset().count(candidates@[0]) > 0);
    }
    candidates[0]
}

/// A random investigation role (`random_investigation_role`).
pub fn random_investigation_role(config: &BotConfig) -> (r: Role)
    ensures
        investigation_candidates(config).contains(r),
{
    let candidates = investigation_role_candidates(config);
    match choose_role(&candidates) {
        Some(r) => r,
        None => Role::Police,
    }
}

/// Number of mafia-side roles in a list.
pub open spec fn mafia_specials(s: Seq<Role>) -> nat
    decreases s.len(),
{
    if s.len() == 0 {
        0
    } else {
        mafia_specials(s.drop_last()) + if s.last().mafia_team_spec() { 1nat } else { 0nat }
    }
}

/// Number of times `r` occurs in a list.
pub open spec fn occurrences(s: Seq<Role>, r: Role) -> nat
    decreases s.len(),
{
    if s.len() == 0 {
        0
    } else {
        occurrences(s.drop_last(), r) + if s.last() == r { 1nat } else { 0nat }
    }
}

/// The reason a special-role line-up is refused, if it is.
pub open spec fn count_error(config: &BotConfig, specials: Seq<Role>) -> Option<Seq<char>> {
    let ms = mafia_specials(specials);
    if ms > config.default_mafia_count as nat {
        Some(
            "마피아 특수룰 수는 전체 마피아 수보다 많을 수 없습니다. 현재 마피아 "@
                + dec(config.default_mafia_count as nat) + "명, 마피아 특수 "@ + dec(ms)
                + "명입니다."@,
        )
    } else if config.default_mafia_count as nat - ms < 1 {
        Some("접선 전 특수 마피아만으로는 게임을 진행할 수 없습니다. 일반 마피아가 최소 1명 필요합니다."@)
    } else {
        None
    }
}

/// Whether the base jokers take part.
pub open spec fn base_jokers(config: &BotConfig) -> bool {
    config.enable_joker && config.default_joker_count > 0
}

/// Whether the fixed part of the line-up (before special roles) lists `r`.
pub open spec fn base_present(config: &BotConfig, inv: Role, r: Role) -> bool {
    ||| r == Role::Mafia
    ||| r == Role::Doctor
    ||| (r == Role::Joker && base_jokers(config))
    ||| (config.default_police_count > 0 && r == inv)
}

/// Players of the fixed part holding `r`: the plain mafia left after `ms`
/// mafia specials, the doctors, the base jokers and the police slots.
pub open spec fn base_count(config: &BotConfig, ms: nat, inv: Role, r: Role) -> nat {
    if r == Role::Mafia {
        (config.default_mafia_count as nat - ms) as nat
    } else if r == Role::Doctor {
        config.default_doctor_count as nat
    } else if r == Role::Joker && base_jokers(config) {
        config.default_joker_count as nat
    } else if config.default_police_count > 0 && r == inv {
        config.default_police_count as nat
    } else {
        0
    }
}

/// One cult leader and one fanatic when the cult team plays.
pub open spec fn cult_extra(config: &BotConfig, r: Role) -> nat {
    if config.enable_cult_team && r.cult_spec() { 1 } else { 0 }
}

/// Whether the role line-up lists `r`.
pub open spec fn role_present(config: &BotConfig, specials: Seq<Role>, inv: Role, r: Role) -> bool {
    base_present(config, inv, r) || specials.contains(r) || (config.enable_cult_team && r.cult_spec())
}

/// How many players hold `r`: the fixed part, the seats of the special
/// roles, and the cult pair.
pub open spec fn role_count(config: &BotConfig, specials: Seq<Role>, inv: Role, r: Role) -> nat {
    base_count(config, mafia_specials(specials), inv, r) + occurrences(specials, r) * seats(r) + cult_extra(config, r)
}

/// The counts map holds exactly the role line-up.
pub open spec fn counts_match(m: Map<Role, usize>, config: &BotConfig, specials: Seq<Role>, inv: Role) -> bool {
    forall|r: Role| {
        &&& #[trigger] m.contains_key(r) == role_present(config, specials, inv, r)
        &&& count_of(m, r) == role_count(config, specials, inv, r)
    }
}

/// A role occurs at most as often as the list is long, and occurs when it is listed.
pub proof fn lemma_occurrences_bound(s: Seq<Role>, r: Role)
    ensures
        occurrences(s, r) <= s.len(),
        mafia_specials(s) <= s.len(),
        occurrences(s, r) > 0 <==> s.contains(r),
    decreases s.len(),
{
    if s.len() > 0 {
        lemma_occurrences_bound(s.drop_last(), r);
        if s.drop_last().contains(r) {
            let k = choose|k: int| 0 <= k < s.drop_last().len() && s.drop_last()[k] == r;
            assert(s[k] == r);
        }
        if s.contains(r) && s.last() != r {
            let k = choose|k: int| 0 <= k < s.len() && s[k] == r;
            assert(k < s.len() - 1);
            assert(s.drop_last()[k] == r);
        }
    }
}

fn add_seats(counts: &mut RoleMap<usize>, r: Role, k: usize)
    requires
        count_of(old(counts)@, r) + k <= usize::MAX,
    ensures
        final(counts)@ == old(counts)@.insert(r, (count_of(old(counts)@, r) + k) as usize),
{
    let current = match counts.get(r) {
        Some(c) => c,
        None => 0,
    };
    counts.insert(r, current + k);
}

/// The role counts for a given investigation role (the random part of
/// `selected_role_counts_with_history`), or the reason the special roles are
/// refused.
pub fn role_counts_with_investigation(
    config: &BotConfig,
    special_roles: &[Role],
    investigation: Role,
) -> (r: Result<RoleMap<usize>, String>)
    requires
        investigation.investigation_spec(),
        (u32::MAX as int) + 2 * special_roles@.len() + 1 <= usize::MAX,
    ensures
        match count_error(config, special_roles@) {
            Some(e) => r matches Err(msg) && msg@ == e,
            None => r matches Ok(m) && counts_match(m@, config, special_roles@, investigation),
        },
{
    let ghost s = special_roles@;
    let mut mafia_special_count: usize = 0;
    let mut i: usize = 0;
    while i < special_roles.len()
        invariant
            i <= s.len(),
            s == special_roles@,
            mafia_special_count == mafia_specials(s.take(i as int)),
            mafia_special_count <= i,
        decreases s.len() - i,
    {
        assert(s.take(i as int + 1).drop_last() =~= s.take(i as int));
        if special_roles[i].is_mafia_team() {
            mafia_special_count = mafia_special_count + 1;
        }
        i = i + 1;
    }
    assert(s.take(s.len() as int) =~= s);
    let mafia_total = config.default_mafia_count as usize;
    if mafia_special_count > mafia_total {
        let mut msg = String::from_str("마피아 특수룰 수는 전체 마피아 수보다 많을 수 없습니다. 현재 마피아 ");
        push_dec(&mut msg, config.default_mafia_count as u64);
        msg.append("명, 마피아 특수 ");
        push_dec(&mut msg, mafia_special_count as u64);
        msg.append("명입니다.");
        return Err(msg);
    }
    if mafia_total - mafia_special_count < 1 {
        return Err(String::from_str("접선 전 특수 마피아만으로는 게임을 진행할 수 없습니다. 일반 마피아가 최소 1명 필요합니다."));
    }
    let mut counts: RoleMap<usize> = RoleMap::new();
    counts.insert(Role::Mafia, mafia_total - mafia_special_count);
    counts.insert(Role::Doctor, config.default_doctor_count as usize);
    if config.enable_joker && config.default_joker_count > 0 {
        counts.insert(Role::Joker, config.default_joker_count as usize);
    }
    if config.default_police_count > 0 {
        counts.insert(investigation, config.default_police_count as usize);
    }
    let ghost base = counts@;
    assert forall|q: Role| #[trigger] base.contains_key(q) == base_present(config, investigation, q)
        && count_of(base, q) == base_count(config, mafia_special_count as nat, investigation, q) by {
    }
    let mut j: usize = 0;
    assert(s.take(0) =~= Seq::<Role>::empty());
    assert forall|q: Role| {
        &&& #[trigger] counts@.contains_key(q) == (base_present(config, investigation, q) || s.take(0).contains(q))
        &&& count_of(counts@, q) == count_of(base, q) + occurrences(s.take(0), q) * seats(q)
    } by {
        assert(occurrences(s.take(0), q) == 0);
        assert(!s.take(0).contains(q));
        assert(base.contains_key(q) == base_present(config, investigation, q));
    }
    while j < special_roles.len()
        invariant
            j <= s.len(),
            s == special_roles@,
            investigation.investigation_spec(),
            (u32::MAX as int) + 2 * s.len() + 1 <= usize::MAX,
            mafia_special_count == mafia_specials(s),
            mafia_special_count <= mafia_total,
            mafia_total == config.default_mafia_count,
            forall|q: Role| {
                &&& #[trigger] counts@.contains_key(q) == (base_present(config, investigation, q) || s.take(j as int).contains(q))
                &&& count_of(counts@, q) == count_of(base, q) + occurrences(s.take(j as int), q) * seats(q)
            },
            forall|q: Role| #[trigger] base.contains_key(q) == base_present(config, investigation, q)
                && count_of(base, q) == base_count(config, mafia_special_count as nat, investigation, q),
        decreases s.len() - j,
    {
        let r = special_roles[j];
        let k = if r == Role::Lover { 2 } else { 1 };
        proof {
            lemma_occurrences_bound(s.take(j as int), r);
            assert(count_of(base, r) <= u32::MAX) by {
                assert(mafia_total - mafia_special_count <= u32::MAX);
            }
            assert(occurrences(s.take(j as int), r) * seats(r) <= 2 * j) by (nonlinear_arith)
                requires occurrences(s.take(j as int), r) <= j, seats(r) <= 2;
        }
        add_seats(&mut counts, r, k);
        proof {
            let t = s.take(j as int + 1);
            assert(t.drop_last() =~= s.take(j as int));
            assert forall|q: Role| #[trigger] counts@.contains_key(q) == (base_present(config, investigation, q) || t.contains(q))
                && count_of(counts@, q) == count_of(base, q) + occurrences(t, q) * seats(q) by {
                lemma_occurrences_bound(t, q);
                lemma_occurrences_bound(s.take(j as int), q);
                if q == r {
                    assert(t.contains(q)) by { assert(t[j as int] == r); }
                    assert(occurrences(t, q) * seats(q) == occurrences(s.take(j as int), q) * seats(q) + seats(q)) by (nonlinear_arith)
                        requires occurrences(t, q) == occurrences(s.take(j as int), q) + 1;
                } else {
                    assert(occurrences(t, q) == occurrences(s.take(j as int), q));
                    if t.contains(q) {
                        let kk = choose|kk: int| 0 <= kk < t.len() && t[kk] == q;
                        assert(kk < j);
                        assert(s.take(j as int)[kk] == q);
                    }
                    if s.take(j as int).contains(q) {
                        let kk = choose|kk: int| 0 <= kk < j && s.take(j as int)[kk] == q;
                        assert(t[kk] == q);
                    }
                }
            }
        }
        j = j + 1;
    }
    assert(s.take(s.len() as int) =~= s);
    proof {
        lemma_occurrences_bound(s, Role::CultLeader);
        lemma_occurrences_bound(s, Role::Fanatic);
        let _ = counts@.contains_key(Role::CultLeader);
        let _ = counts@.contains_key(Role::Fanatic);
        let _ = base.contains_key(Role::CultLeader);
        let _ = base.contains_key(Role::Fanatic);
        assert(count_of(counts@, Role::CultLeader) <= s.len());
        assert(count_of(counts@, Role::Fanatic) <= s.len());
    }
    if config.enable_cult_team {
        add_seats(&mut counts, Role::CultLeader, 1);
        add_seats(&mut counts, Role::Fanatic, 1);
    }
    proof {
        assert forall|q: Role| #[trigger] counts@.contains_key(q) == role_present(config, s, investigation, q)
            && count_of(counts@, q) == role_count(config, s, investigation, q) by {
        }
    }
    Ok(counts)
}

/// The role counts of a game with the given special roles; the police slots
/// go to a least-seen investigation role when a history is given, to a random
/// one otherwise (`selected_role_counts_with_history`).
pub fn selected_role_counts_with_history(
    config: &BotConfig,
    special_roles: &[Role],
    role_history: Option<&RoleMap<i64>>,
) -> (r: Result<RoleMap<usize>, String>)
    requires
        (u32::MAX as int) + 2 * special_roles@.len() + 1 <= usize::MAX,
    ensures
        exists|inv: Role| {
            &&& #[trigger] investigation_candidates(config).contains(inv)
            &&& (role_history matches Some(h) ==> forall|c: Role| investigation_candidates(config).contains(c) ==> seen(h@, inv) <= seen(h@, c))
            &&& match count_error(config, special_roles@) {
                Some(e) => r matches Err(msg) && msg@ == e,
                None => r matches Ok(m) && counts_match(m@, config, special_roles@, inv),
            }
        },
{
    let investigation = match role_history {
        Some(history) => balanced_investigation_role(config, history),
        None => random_investigation_role(config),
    };
    proof {
        assert(investigation_candidates(config).contains(investigation));
        let k = choose|k: int| 0 <= k < investigation_candidates(config).len() && investigation_candidates(config)[k] == investigation;
        assert(investigation.investigation_spec());
    }
    role_counts_with_investigation(config, special_roles, investigation)
}

/// The role counts, police slots filled at random (`selected_role_counts`).
pub fn selected_role_counts(config: &BotConfig, special_roles: &[Role]) -> (r: Result<RoleMap<usize>, String>)
    requires
        (u32::MAX as int) + 2 * special_roles@.len() + 1 <= usize::MAX,
    ensures
        exists|inv: Role| {
            &&& #[trigger] investigation_candidates(config).contains(inv)
            &&& match count_error(config, special_roles@) {
                Some(e) => r matches Err(msg) && msg@ == e,
                None => r matches Ok(m) && counts_match(m@, config, special_roles@, inv),
            }
        },
{
    selected_role_counts_with_history(config, special_roles, None)
}

/// The role counts, police slots filled by a least-seen investigation role
/// (`selected_role_counts_balanced`).
pub fn selected_role_counts_balanced(
    config: &BotConfig,
    special_roles: &[Role],
    role_history: &RoleMap<i64>,
) -> (r: Result<RoleMap<usize>, String>)
    requires
        (u32::MAX as int) + 2 * special_roles@.len() + 1 <= usize::MAX,
    ensures
        exists|inv: Role| {
            &&& #[trigger] investigation_candidates(config).contains(inv)
            &&& forall|c: Role| investigation_candidates(config).contains(c) ==> seen(role_history@, inv) <= seen(role_history@, c)
            &&& match count_error(config, special_roles@) {
                Some(e) => r matches Err(msg) && msg@ == e,
                None => r matches Ok(m) && counts_match(m@, config, special_roles@, inv),
            }
        },
{
    selected_role_counts_with_history(config, special_roles, Some(role_history))
}

/// The mafia-side roles.
pub open spec fn mafia_team_roles() -> Seq<Role> {
    seq![Role::Mafia, Role::Spy, Role::Contractor, Role::Fraudster, Role::Thief, Role::Witch, Role::Scientist, Role::Madam, Role::Godfather]
}

/// The smallest game for a role line-up: at least three players, a seat for
/// every counted role, and more non-mafia than mafia players.
pub open spec fn minimum_players(m: Map<Role, usize>) -> nat {
    let total = group_sum(m, all_roles());
    let mafia = group_sum(m, mafia_team_roles());
    let a: nat = if 3 >= total { 3 } else { total };
    if a >= 2 * mafia + 1 { a } else { 2 * mafia + 1 }
}

/// The minimum game size is the least number that is at least three, at least
/// the number of role seats of the line-up, and more than twice its mafia-team
/// seats: it bounds all three from above and equals one of them.
pub proof fn law_minimum_players_is_least_bound(m: Map<Role, usize>)
    ensures
        minimum_players(m) >= 3,
        minimum_players(m) >= group_sum(m, all_roles()),
        minimum_players(m) >= 2 * group_sum(m, mafia_team_roles()) + 1,
        minimum_players(m) == 3 || minimum_players(m) == group_sum(m, all_roles())
            || minimum_players(m) == 2 * group_sum(m, mafia_team_roles()) + 1,
{
}

/// The smallest game for a role line-up (`minimum_player_count`).
pub fn minimum_player_count(role_counts: &RoleMap<usize>) -> (n: usize)
    requires
        group_sum(role_counts@, all_roles()) <= usize::MAX,
        2 * group_sum(role_counts@, mafia_team_roles()) + 1 <= usize::MAX,
    ensures
        n == minimum_players(role_counts@),
        n >= 3,
        n >= group_sum(role_counts@, all_roles()),
        n >= 2 * group_sum(role_counts@, mafia_team_roles()) + 1,
        n == 3 || n == group_sum(role_counts@, all_roles())
            || n == 2 * group_sum(role_counts@, mafia_team_roles()) + 1,
{
    proof {
        law_minimum_players_is_least_bound(role_counts@);
    }
    let total = count_group(role_counts, &all_roles_vec());
    let mafia_roles = vec![Role::Mafia, Role::Spy, Role::Contractor, Role::Fraudster, Role::Thief, Role::Witch, Role::Scientist, Role::Madam, Role::Godfather];
    assert(mafia_roles@ =~= mafia_team_roles());
    let mafia = count_group(role_counts, &mafia_roles);
    let a = if 3 >= total { 3 } else { total };
    if a >= 2 * mafia + 1 { a } else { 2 * mafia + 1 }
}


proof fn lemma_mafia_occurrences(s: Seq<Role>)
    ensures
        occurrences(s, Role::Mafia) + occurrences(s, Role::Spy) + occurrences(s, Role::Contractor)
            + occurrences(s, Role::Fraudster) + occurrences(s, Role::Thief) + occurrences(s, Role::Witch)
            + occurrences(s, Role::Scientist) + occurrences(s, Role::Madam) + occurrences(s, Role::Godfather)
            == mafia_specials(s),
    decreases s.len(),
{
    if s.len() > 0 {
        lemma_mafia_occurrences(s.drop_last());
    }
}

/// Every configured mafia seat goes to a mafia-team player: in an accepted
/// line-up the mafia-team roles together hold exactly the configured number
/// of mafia, plain mafia making up what the mafia specials leave.
pub proof fn law_mafia_head_count(m: Map<Role, usize>, config: &BotConfig, specials: Seq<Role>, inv: Role)
    requires
        inv.investigation_spec(),
        count_error(config, specials) is None,
        counts_match(m, config, specials, inv),
    ensures
        group_sum(m, mafia_team_roles()) == config.default_mafia_count,
{
    lemma_mafia_occurrences(specials);
    let l = mafia_team_roles();
    assert(count_of(m, Role::Mafia) == role_count(config, specials, inv, Role::Mafia));
    assert(count_of(m, Role::Spy) == role_count(config, specials, inv, Role::Spy));
    assert(count_of(m, Role::Contractor) == role_count(config, specials, inv, Role::Contractor));
    assert(count_of(m, Role::Fraudster) == role_count(config, specials, inv, Role::Fraudster));
    assert(count_of(m, Role::Thief) == role_count(config, specials, inv, Role::Thief));
    assert(count_of(m, Role::Witch) == role_count(config, specials, inv, Role::Witch));
    assert(count_of(m, Role::Scientist) == role_count(config, specials, inv, Role::Scientist));
    assert(count_of(m, Role::Madam) == role_count(config, specials, inv, Role::Madam));
    assert(count_of(m, Role::Godfather) == role_count(config, specials, inv, Role::Godfather));
    assert(group_sum(m, l) == count_of(m, Role::Mafia) + count_of(m, Role::Spy) + count_of(m, Role::Contractor)
        + count_of(m, Role::Fraudster) + count_of(m, Role::Thief) + count_of(m, Role::Witch)
        + count_of(m, Role::Scientist) + count_of(m, Role::Madam) + count_of(m, Role::Godfather)) by {
        reveal_with_fuel(group_sum, 10);
        assert(l.drop_last().drop_last().drop_last().drop_last().drop_last().drop_last().drop_last()
            .drop_last().drop_last() =~= Seq::<Role>::empty());
    }
}

proof fn lemma_absent_occurrences(s: Seq<Role>, r: Role)
    requires
        forall|i: int| 0 <= i < s.len() ==> !(#[trigger] s[i]).investigation_spec(),
        r.investigation_spec(),
    ensures
        occurrences(s, r) == 0,
    decreases s.len(),
{
    if s.len() > 0 {
        assert(s.last() == s[s.len() - 1]);
        lemma_absent_occurrences(s.drop_last(), r);
    }
}

/// The police slots are filled exactly: when no special role is itself an
/// investigation role, the investigation roles together hold the configured
/// number of police slots, all of them the one chosen investigation role.
pub proof fn law_police_slots(m: Map<Role, usize>, config: &BotConfig, specials: Seq<Role>, inv: Role)
    requires
        inv.investigation_spec(),
        count_error(config, specials) is None,
        counts_match(m, config, specials, inv),
        forall|i: int| 0 <= i < specials.len() ==> !(#[trigger] specials[i]).investigation_spec(),
    ensures
        group_sum(m, seq![Role::Police, Role::Agent, Role::Vigilante, Role::Inspector]) == config.default_police_count,
        config.default_police_count > 0 ==> count_of(m, inv) == config.default_police_count,
{
    let l = seq![Role::Police, Role::Agent, Role::Vigilante, Role::Inspector];
    lemma_absent_occurrences(specials, Role::Police);
    lemma_absent_occurrences(specials, Role::Agent);
    lemma_absent_occurrences(specials, Role::Vigilante);
    lemma_absent_occurrences(specials, Role::Inspector);
    assert(count_of(m, Role::Police) == role_count(config, specials, inv, Role::Police));
    assert(count_of(m, Role::Agent) == role_count(config, specials, inv, Role::Agent));
    assert(count_of(m, Role::Vigilante) == role_count(config, specials, inv, Role::Vigilante));
    assert(count_of(m, Role::Inspector) == role_count(config, specials, inv, Role::Inspector));
    assert(count_of(m, inv) == role_count(config, specials, inv, inv));
    lemma_absent_occurrences(specials, inv);
    assert(group_sum(m, l) == count_of(m, Role::Police) + count_of(m, Role::Agent)
        + count_of(m, Role::Vigilante) + count_of(m, Role::Inspector)) by {
        reveal_with_fuel(group_sum, 5);
        assert(l.drop_last().drop_last().drop_last().drop_last() =~= Seq::<Role>::empty());
    }
}

} // verus!
