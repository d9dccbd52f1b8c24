//! Which special roles a game gets, and how many players hold each role.
use vstd::prelude::*;
use crate::config::{BotConfig, special_enabled, is_special_enabled};
use crate::random::{shuffle_roles, choose_roles};
use crate::role::{Role, citizen_special_pool, mafia_special_pool, neutral_special_pool, citizen_special_roles, mafia_special_roles, neutral_special_roles};
use crate::role_map::RoleMap;
use crate::slots::{seen, best_fit, first_fit, lemma_subseq_contains, select_balanced_special_roles_for_slots, select_special_roles_for_slots};
use crate::text::{join, views, join_strings};

verus! {

broadcast use vstd::seq_lib::group_to_multiset_ensures, vstd::multiset::group_multiset_properties;

/// Whether a role of a pool is kept: switched on, and, when `skip_investigation`
/// holds, not an investigation role.
pub open spec fn kept_role(config: &BotConfig, r: Role, skip_investigation: bool) -> bool {
    special_enabled(config, r) && !(skip_investigation && r.investigation_spec())
}

/// The kept roles of `pool`, in pool order.
pub open spec fn kept(config: &BotConfig, pool: Seq<Role>, skip_investigation: bool) -> Seq<Role>
    decreases pool.len(),
{
    if pool.len() == 0 {
        Seq::empty()
    } else if kept_role(config, pool.last(), skip_investigation) {
        kept(config, pool.drop_last(), skip_investigation).push(pool.last())
    } else {
        kept(config, pool.drop_last(), skip_investigation)
    }
}

/// Roles of `pool` whose switch is on (`enabled_special_roles`).
pub open spec fn enabled(config: &BotConfig, pool: Seq<Role>) -> Seq<Role> {
    kept(config, pool, false)
}

/// Roles of `pool` that may be drawn: switched on, and not an investigation
/// role when the police slots already hold one (`assignable_special_roles`).
pub open spec fn assignable(config: &BotConfig, pool: Seq<Role>) -> Seq<Role> {
    kept(config, pool, config.default_police_count > 0)
}

fn filter_roles(config: &BotConfig, pool: &[Role], skip_investigation: bool) -> (v: Vec<Role>)
    ensures
        v@ == kept(config, pool@, skip_investigation),
{
    let mut v: Vec<Role> = Vec::new();
    let mut i: usize = 0;
    while i < pool.len()
        invariant
            i <= pool@.len(),
            v@ == kept(config, pool@.take(i as int), skip_investigation),
        decreases pool@.len() - i,
    {
        let r = pool[i];
        proof {
            assert(pool@.take(i as int + 1).drop_last() =~= pool@.take(i as int));
        }
        if is_special_enabled(config, r) && !(skip_investigation && r.is_investigation_role()) {
            v.push(r);
        }
        i = i + 1;
    }
    assert(pool@.take(pool@.len() as int) =~= pool@);
    v
}

/// Roles of `pool` whose switch is on, in pool order.
pub fn enabled_special_roles(config: &BotConfig, pool: &[Role]) -> (v: Vec<Role>)
    ensures
        v@ == enabled(config, pool@),
{
    filter_roles(config, pool, false)
}

/// Roles of `pool` that may be drawn, in pool order.
pub fn assignable_special_roles(config: &BotConfig, pool: &[Role]) -> (v: Vec<Role>)
    ensures
        v@ == assignable(config, pool@),
{
    let skip = config.default_police_count > 0;
    filter_roles(config, pool, skip)
}

/// Roles ordered from least to most seen.
pub open spec fn sorted_by_seen(s: Seq<Role>, h: Map<Role, i64>) -> bool {
    forall|i: int, j: int| 0 <= i < j < s.len() ==> seen(h, #[trigger] s[i]) <= seen(h, #[trigger] s[j])
}

fn seen_count(history: &RoleMap<i64>, r: Role) -> (v: i64)
    ensures
        v == seen(history@, r),
{
    match history.get(r) {
        Some(v) => v,
        None => 0,
    }
}

/// `after` is `before` reordered by `perm` (`after[i]` is `before[perm[i]]`,
/// every position used once), with equally seen roles in their old order.
pub open spec fn stable_reorder(before: Seq<Role>, after: Seq<Role>, perm: Seq<int>, h: Map<Role, i64>) -> bool {
    &&& perm.len() == after.len()
    &&& after.len() == before.len()
    &&& forall|i: int| 0 <= i < after.len() ==> 0 <= #[trigger] perm[i] < before.len() && after[i] == before[perm[i]]
    &&& forall|a: int, b: int| 0 <= a < b < after.len() ==> #[trigger] perm[a] != #[trigger] perm[b]
    &&& forall|a: int, b: int| 0 <= a < b < after.len() && seen(h, after[a]) == seen(h, after[b])
        ==> #[trigger] perm[a] < #[trigger] perm[b]
}

/// Reorders the roles from least to most seen, keeping the order of equally
/// seen roles (a stable sort on the history).
pub fn sort_by_history(v: &mut Vec<Role>, history: &RoleMap<i64>)
    ensures
        final(v)@.len() == old(v)@.len(),
        final(v)@.to_multiset() == old(v)@.to_multiset(),
        sorted_by_seen(final(v)@, history@),
        exists|perm: Seq<int>| stable_reorder(old(v)@, final(v)@, perm, history@),
{
    let ghost h = history@;
    let ghost start = v@;
    let ghost mut perm: Seq<int> = Seq::new(v@.len(), |i: int| i);
    let n = v.len();
    let mut i: usize = 1;
    if n == 0 {
        assert(stable_reorder(start, v@, perm, h));
        return;
    }
    while i < n
        invariant
            1 <= i <= n,
            n == v@.len(),
            h == history@,
            start == old(v)@,
            stable_reorder(start, v@, perm, h),
            v@.to_multiset() == old(v)@.to_multiset(),
            forall|a: int, b: int| 0 <= a < b < i ==> seen(h, #[trigger] v@[a]) <= seen(h, #[trigger] v@[b]),
        decreases n - i,
    {
        let mut j: usize = i;
        let mut done = false;
        while j > 0 && !done
            invariant
                0 <= j <= i < n,
                n == v@.len(),
                h == history@,
                start == old(v)@,
                stable_reorder(start, v@, perm, h),
                v@.to_multiset() == old(v)@.to_multiset(),
                forall|a: int, b: int| 0 <= a < b <= i && a != j && b != j ==> seen(h, #[trigger] v@[a]) <= seen(h, #[trigger] v@[b]),
                forall|b: int| j < b <= i ==> seen(h, v@[j as int]) <= seen(h, #[trigger] v@[b]),
                done ==> j > 0 && seen(h, v@[j - 1]) <= seen(h, v@[j as int]),
            decreases j, (if done { 0int } else { 1int }),
        {
            let left = seen_count(history, v[j - 1]);
            let right = seen_count(history, v[j]);
            if left <= right {
                done = true;
            } else {
                let x = v[j - 1];
                let y = v[j];
                let ghost before = v@;
                let ghost pb = perm;
                v.set(j - 1, y);
                v.set(j, x);
                proof {
                    perm = pb.update(j - 1, pb[j as int]).update(j as int, pb[j - 1]);
                    assert(seen(h, before[j - 1]) > seen(h, before[j as int]));
                    assert forall|k: int| 0 <= k < n implies 0 <= #[trigger] perm[k] < start.len() && v@[k] == start[perm[k]] by {
                        if k != j - 1 && k != j {
                            assert(v@[k] == before[k]);
                        }
                    }
                    assert forall|a: int, b: int| 0 <= a < b < n implies #[trigger] perm[a] != #[trigger] perm[b] by {
                        let oa = if a == j - 1 { j as int } else if a == j { j - 1 } else { a };
                        let ob = if b == j - 1 { j as int } else if b == j { j - 1 } else { b };
                        assert(perm[a] == pb[oa] && perm[b] == pb[ob]);
                        assert(oa != ob);
                        if oa < ob { assert(pb[oa] != pb[ob]); } else { assert(pb[ob] != pb[oa]); }
                    }
                    assert forall|a: int, b: int| 0 <= a < b < n && seen(h, v@[a]) == seen(h, v@[b])
                        implies #[trigger] perm[a] < #[trigger] perm[b] by {
                        let oa = if a == j - 1 { j as int } else if a == j { j - 1 } else { a };
                        let ob = if b == j - 1 { j as int } else if b == j { j - 1 } else { b };
                        assert(perm[a] == pb[oa] && perm[b] == pb[ob]);
                        assert(v@[a] == before[oa] && v@[b] == before[ob]);
                        assert(oa < ob);
                        assert(pb[oa] < pb[ob]);
                    }
                    assert(stable_reorder(start, v@, perm, h));
                    assert(before.update(j - 1, y).update(j as int, x) == v@);
                    assert(before.update(j - 1, y).to_multiset() == before.to_multiset().insert(y).remove(x));
                    assert(before.update(j - 1, y)[j as int] == y);
                    assert(v@.to_multiset() == before.to_multiset().insert(y).remove(x).insert(x).remove(y));
                    assert(v@.to_multiset() =~= before.to_multiset());
                    assert forall|b: int| 0 <= b < n && b != j - 1 && b != j implies v@[b] == before[b] by {}
                    let jj = j - 1;
                    assert forall|b: int| jj < b <= i implies seen(h, v@[jj]) <= seen(h, #[trigger] v@[b]) by {
                        if b > j {
                            assert(seen(h, before[j as int]) <= seen(h, before[b]));
                        }
                    }
                    assert forall|a: int, b: int| 0 <= a < b <= i && a != jj && b != jj implies seen(h, #[trigger] v@[a]) <= seen(h, #[trigger] v@[b]) by {
                        if a == j as int {
                            assert(seen(h, before[jj]) <= seen(h, before[b]));
                        } else if b == j as int {
                            assert(seen(h, before[a]) <= seen(h, before[jj]));
                        } else {
                            assert(seen(h, before[a]) <= seen(h, before[b]));
                        }
                    }
                }
                j = j - 1;
            }
        }
        proof {
            assert forall|a: int, b: int| 0 <= a < b < i + 1 implies seen(h, #[trigger] v@[a]) <= seen(h, #[trigger] v@[b]) by {
                if a == j as int {
                } else if b == j as int {
                    assert(j > 0);
                    assert(done);
                    if a < j - 1 {
                        assert(seen(h, v@[a]) <= seen(h, v@[j - 1]));
                    }
                }
            }
        }
        i = i + 1;
    }
    assert(stable_reorder(start, v@, perm, h));
}

/// `c` holds the same roles as `pool`, ordered from least to most seen.
pub open spec fn candidates_for(c: Seq<Role>, pool: Seq<Role>, h: Map<Role, i64>) -> bool {
    &&& c.to_multiset() == pool.to_multiset()
    &&& sorted_by_seen(c, h)
}

/// The drawable roles of `pool` in random order, then ordered from least to
/// most seen (`balanced_special_candidates`).
pub fn balanced_special_candidates(config: &BotConfig, pool: &[Role], role_history: &RoleMap<i64>) -> (c: Vec<Role>)
    ensures
        candidates_for(c@, assignable(config, pool@), role_history@),
{
    let mut c = assignable_special_roles(config, pool);
    shuffle_roles(&mut c);
    sort_by_history(&mut c, role_history);
    c
}

/// The message when the citizen specials cannot fill their seats.
pub open spec fn citizen_fill_error() -> Seq<char> {
    "활성화된 시민 특수 역할로 설정된 인원 수를 구성할 수 없습니다. 연인은 2명으로 계산합니다."@
}

/// The message when a pool has fewer drawable roles than seats.
pub open spec fn pool_error(pool: Seq<Role>) -> Seq<char> {
    join(pool.map_values(|r: Role| r.name_spec()), ", "@) + " 중 활성화된 역할보다 선택할 특수룰 수가 많습니다."@
}

/// The special roles chosen from ordered candidate lists: the least-seen fill
/// of the citizen seats, then the first roles of the mafia and neutral lists.
pub open spec fn balanced_choice(
    config: &BotConfig,
    citizen: Seq<Role>,
    mafia: Seq<Role>,
    neutral: Seq<Role>,
    h: Map<Role, i64>,
) -> Result<Seq<Role>, Seq<char>> {
    match best_fit(citizen, config.citizen_special_count as nat, h) {
        None => Err(citizen_fill_error()),
        Some(s) => if config.mafia_special_count as nat > mafia.len() {
            Err(pool_error(mafia_special_pool()))
        } else if config.neutral_special_count as nat > neutral.len() {
            Err(pool_error(neutral_special_pool()))
        } else {
            Ok(s + mafia.take(config.mafia_special_count as int) + neutral.take(config.neutral_special_count as int))
        },
    }
}

fn role_names(pool: &Vec<Role>) -> (v: Vec<String>)
    ensures
        views(v@) == pool@.map_values(|r: Role| r.name_spec()),
{
    let mut v: Vec<String> = Vec::new();
    let mut i: usize = 0;
    while i < pool.len()
        invariant
            i <= pool@.len(),
            v@.len() == i,
            forall|k: int| 0 <= k < i ==> (#[trigger] v@[k])@ == pool@[k].name_spec(),
        decreases pool@.len() - i,
    {
        v.push(String::from_str(pool[i].value()));
        i = i + 1;
    }
    assert(views(v@) =~= pool@.map_values(|r: Role| r.name_spec()));
    v
}

fn pool_error_text(pool: &Vec<Role>) -> (s: String)
    ensures
        s@ == pool_error(pool@),
{
    let names = role_names(pool);
    let mut s = join_strings(&names, ", ");
    s.append(" 중 활성화된 역할보다 선택할 특수룰 수가 많습니다.");
    s
}

fn append_prefix(out: &mut Vec<Role>, src: &Vec<Role>, count: usize)
    requires
        count <= src@.len(),
    ensures
        final(out)@ == old(out)@ + src@.take(count as int),
{
    let mut i: usize = 0;
    while i < count
        invariant
            i <= count <= src@.len(),
            out@ == old(out)@ + src@.take(i as int),
        decreases count - i,
    {
        out.push(src[i]);
        i = i + 1;
        assert(out@ =~= old(out)@ + src@.take(i as int));
    }
}

/// The special roles chosen from already ordered candidate lists.
pub fn choose_special_roles_from_candidates(
    config: &BotConfig,
    citizen: &Vec<Role>,
    mafia: &Vec<Role>,
    neutral: &Vec<Role>,
    role_history: &RoleMap<i64>,
) -> (r: Result<Vec<Role>, String>)
    ensures
        match r {
            Ok(v) => balanced_choice(config, citizen@, mafia@, neutral@, role_history@) == Ok::<Seq<Role>, Seq<char>>(v@),
            Err(e) => balanced_choice(config, citizen@, mafia@, neutral@, role_history@) == Err::<Seq<Role>, Seq<char>>(e@),
        },
{
    let Some(citizen_selected) = select_balanced_special_roles_for_slots(
        citizen.as_slice(),
        config.citizen_special_count as usize,
        role_history,
    ) else {
        return Err(String::from_str("활성화된 시민 특수 역할로 설정된 인원 수를 구성할 수 없습니다. 연인은 2명으로 계산합니다."));
    };
    let mafia_count = config.mafia_special_count as usize;
    let neutral_count = config.neutral_special_count as usize;
    if mafia_count > mafia.len() {
        return Err(pool_error_text(&mafia_special_roles()));
    }
    if neutral_count > neutral.len() {
        return Err(pool_error_text(&neutral_special_roles()));
    }
    let mut selected = citizen_selected;
    append_prefix(&mut selected, mafia, mafia_count);
    append_prefix(&mut selected, neutral, neutral_count);
    Ok(selected)
}

/// Chooses the special roles of a game, preferring the roles seen least
/// (`choose_special_roles_balanced`).  Equally seen roles are ordered by
/// chance first, so the result is the choice for some such ordering.
pub fn choose_special_roles_balanced(config: &BotConfig, role_history: &RoleMap<i64>) -> (r: Result<Vec<Role>, String>)
    ensures
        exists|c: Seq<Role>, m: Seq<Role>, n: Seq<Role>| {
            &&& candidates_for(c, assignable(config, citizen_special_pool()), role_history@)
            &&& candidates_for(m, assignable(config, mafia_special_pool()), role_history@)
            &&& candidates_for(n, assignable(config, neutral_special_pool()), role_history@)
            &&& match r {
                Ok(v) => #[trigger] balanced_choice(config, c, m, n, role_history@) == Ok::<Seq<Role>, Seq<char>>(v@),
                Err(e) => balanced_choice(config, c, m, n, role_history@) == Err::<Seq<Role>, Seq<char>>(e@),
            }
        },
{
    let citizen = balanced_special_candidates(config, citizen_special_roles().as_slice(), role_history);
    let mafia = balanced_special_candidates(config, mafia_special_roles().as_slice(), role_history);
    let neutral = balanced_special_candidates(config, neutral_special_roles().as_slice(), role_history);
    let r = choose_special_roles_from_candidates(config, &citizen, &mafia, &neutral, role_history);
    assert(candidates_for(citizen@, assignable(config, citizen_special_pool()), role_history@));
    r
}

/// A roles result over character sequences.
pub open spec fn roles_result(r: Result<Vec<Role>, String>) -> Result<Seq<Role>, Seq<char>> {
    match r {
        Ok(v) => Ok(v@),
        Err(e) => Err(e@),
    }
}

/// The possible outcomes of a random special-role draw: for some random
/// ordering `c` of the drawable citizen specials, the first fill of the
/// citizen seats, then distinct random picks from the drawable mafia and
/// neutral specials; or the refusal when a part cannot be filled.
pub open spec fn special_draw(config: &BotConfig, r: Result<Seq<Role>, Seq<char>>) -> bool {
    exists|c: Seq<Role>| {
        &&& #[trigger] c.to_multiset() == assignable(config, citizen_special_pool()).to_multiset()
        &&& c.len() == assignable(config, citizen_special_pool()).len()
        &&& match first_fit(c, config.citizen_special_count as nat) {
            None => r == Err::<Seq<Role>, Seq<char>>("활성화된 시민 특수 역할로 설정한 인원 수를 구성할 수 없습니다. 연인은 2명으로 계산됩니다."@),
            Some(f) => match r {
                Ok(v) => {
                    &&& config.mafia_special_count as nat <= assignable(config, mafia_special_pool()).len()
                    &&& config.neutral_special_count as nat <= assignable(config, neutral_special_pool()).len()
                    &&& v.len() == f.len() + config.mafia_special_count + config.neutral_special_count
                    &&& v.take(f.len() as int) == f
                    &&& v.subrange(f.len() as int, f.len() + config.mafia_special_count).to_multiset().subset_of(
                        assignable(config, mafia_special_pool()).to_multiset())
                    &&& v.skip(f.len() + config.mafia_special_count).to_multiset().subset_of(
                        assignable(config, neutral_special_pool()).to_multiset())
                },
                Err(e) => {
                    ||| (config.mafia_special_count as nat > assignable(config, mafia_special_pool()).len()
                        && e == pool_error(mafia_special_pool()))
                    ||| (config.mafia_special_count as nat <= assignable(config, mafia_special_pool()).len()
                        && config.neutral_special_count as nat > assignable(config, neutral_special_pool()).len()
                        && e == pool_error(neutral_special_pool()))
                },
            },
        }
    }
}

/// Chooses the special roles of a game at random (`choose_special_roles`):
/// the citizen seats get the first fill of a random ordering of the drawable
/// citizen specials; the mafia and neutral seats get random distinct picks.
pub fn choose_special_roles(config: &BotConfig) -> (r: Result<Vec<Role>, String>)
    ensures
        special_draw(config, roles_result(r)),
{
    let mut citizen = assignable_special_roles(config, citizen_special_roles().as_slice());
    shuffle_roles(&mut citizen);
    let ghost c = citizen@;
    let mut selected: Vec<Role> = Vec::new();
    if !select_special_roles_for_slots(citizen.as_slice(), config.citizen_special_count as usize, &mut selected) {
        let e = String::from_str("활성화된 시민 특수 역할로 설정한 인원 수를 구성할 수 없습니다. 연인은 2명으로 계산됩니다.");
        assert(c.to_multiset() == assignable(config, citizen_special_pool()).to_multiset());
        return Err(e);
    }
    let ghost f = selected@;
    assert(f =~= first_fit(c, config.citizen_special_count as nat)->Some_0);
    let mafia = assignable_special_roles(config, mafia_special_roles().as_slice());
    let mafia_count = config.mafia_special_count as usize;
    if mafia_count > mafia.len() {
        let e = pool_error_text(&mafia_special_roles());
        assert(c.to_multiset() == assignable(config, citizen_special_pool()).to_multiset());
        return Err(e);
    }
    let picked = choose_roles(&mafia, mafia_count);
    let neutral = assignable_special_roles(config, neutral_special_roles().as_slice());
    let neutral_count = config.neutral_special_count as usize;
    if neutral_count > neutral.len() {
        let e = pool_error_text(&neutral_special_roles());
        assert(c.to_multiset() == assignable(config, citizen_special_pool()).to_multiset());
        return Err(e);
    }
    let picked_neutral = choose_roles(&neutral, neutral_count);
    append_prefix(&mut selected, &picked, mafia_count);
    assert(picked@.take(mafia_count as int) =~= picked@);
    let ghost mid = selected@;
    append_prefix(&mut selected, &picked_neutral, neutral_count);
    assert(picked_neutral@.take(neutral_count as int) =~= picked_neutral@);
    proof {
        let v = selected@;
        assert(v.take(f.len() as int) =~= f);
        assert(v.subrange(f.len() as int, f.len() + mafia_count) =~= picked@);
        assert(v.skip(f.len() + mafia_count) =~= picked_neutral@);
        assert(c.to_multiset() == assignable(config, citizen_special_pool()).to_multiset());
    }
    Ok(selected)
}

proof fn lemma_kept_switched_on(config: &BotConfig, pool: Seq<Role>, skip_investigation: bool, x: Role)
    requires
        kept(config, pool, skip_investigation).contains(x),
    ensures
        special_enabled(config, x),
    decreases pool.len(),
{
    if pool.len() > 0 {
        let rest = kept(config, pool.drop_last(), skip_investigation);
        if kept_role(config, pool.last(), skip_investigation) && x != pool.last() {
            let i = choose|i: int| 0 <= i < rest.push(pool.last()).len() && rest.push(pool.last())[i] == x;
            assert(rest[i] == x);
        }
        if !(kept_role(config, pool.last(), skip_investigation) && x == pool.last()) {
            lemma_kept_switched_on(config, pool.drop_last(), skip_investigation, x);
        }
    }
}

proof fn lemma_contains_by_multiset(s: Seq<Role>, t: Seq<Role>, x: Role)
    requires
        s.to_multiset().subset_of(t.to_multiset()),
        s.contains(x),
    ensures
        t.contains(x),
{
    broadcast use vstd::seq_lib::to_multiset_contains;
    assert(s.to_multiset().count(x) > 0);
    assert(s.to_multiset().count(x) <= t.to_multiset().count(x));
}

proof fn lemma_contains_in_parts(a: Seq<Role>, b: Seq<Role>, d: Seq<Role>, x: Role)
    requires
        (a + b + d).contains(x),
    ensures
        a.contains(x) || b.contains(x) || d.contains(x),
{
    let v = a + b + d;
    let i = choose|i: int| 0 <= i < v.len() && v[i] == x;
    if i < a.len() {
        assert(a[i] == x);
    } else if i < a.len() + b.len() {
        assert(b[i - a.len()] == x);
    } else {
        assert(d[i - a.len() - b.len()] == x);
    }
}

/// A role drawn from a pool's drawable roles is switched on.
proof fn lemma_drawable_switched_on(config: &BotConfig, pool: Seq<Role>, s: Seq<Role>, x: Role)
    requires
        s.to_multiset().subset_of(assignable(config, pool).to_multiset()),
        s.contains(x),
    ensures
        special_enabled(config, x),
{
    lemma_contains_by_multiset(s, assignable(config, pool), x);
    lemma_kept_switched_on(config, pool, config.default_police_count > 0, x);
}

/// A random special-role draw never holds a role whose switch is off.
pub proof fn law_random_draw_respects_switches(config: &BotConfig, drawn: Seq<Role>)
    requires
        special_draw(config, Ok::<Seq<Role>, Seq<char>>(drawn)),
    ensures
        drawn.contains(Role::Inspector) ==> config.enable_inspector,
        drawn.contains(Role::Detective) ==> config.enable_detective,
        drawn.contains(Role::Shaman) ==> config.enable_shaman,
        drawn.contains(Role::Graverobber) ==> config.enable_graverobber,
        drawn.contains(Role::Spy) ==> config.enable_spy,
        drawn.contains(Role::Contractor) ==> config.enable_contractor,
        drawn.contains(Role::Fraudster) ==> config.enable_fraudster,
        drawn.contains(Role::Witch) ==> config.enable_witch,
        drawn.contains(Role::Scientist) ==> config.enable_scientist,
        drawn.contains(Role::Madam) ==> config.enable_madam,
        drawn.contains(Role::Godfather) ==> config.enable_godfather,
        drawn.contains(Role::Joker) ==> config.enable_joker,
        drawn.contains(Role::Politician) ==> config.enable_politician,
        drawn.contains(Role::Judge) ==> config.enable_judge,
        drawn.contains(Role::Reporter) ==> config.enable_reporter,
        drawn.contains(Role::Hacker) ==> config.enable_hacker,
        drawn.contains(Role::Terrorist) ==> config.enable_terrorist,
        drawn.contains(Role::Lover) ==> config.enable_lover,
        drawn.contains(Role::CivilServant) ==> config.enable_civil_servant,
        drawn.contains(Role::Paparazzi) ==> config.enable_paparazzi,
        drawn.contains(Role::Priest) ==> config.enable_priest,
        drawn.contains(Role::Soldier) ==> config.enable_soldier,
        drawn.contains(Role::Nurse) ==> config.enable_nurse,
        drawn.contains(Role::Gangster) ==> config.enable_gangster,
        drawn.contains(Role::Prophet) ==> config.enable_prophet,
        drawn.contains(Role::Psychologist) ==> config.enable_psychologist,
        drawn.contains(Role::Hypnotist) ==> config.enable_hypnotist,
        drawn.contains(Role::Mercenary) ==> config.enable_mercenary,
        drawn.contains(Role::Thief) ==> config.enable_thief,
{
    let c = choose|c: Seq<Role>| {
        &&& #[trigger] c.to_multiset() == assignable(config, citizen_special_pool()).to_multiset()
        &&& c.len() == assignable(config, citizen_special_pool()).len()
        &&& match first_fit(c, config.citizen_special_count as nat) {
            None => Ok::<Seq<Role>, Seq<char>>(drawn) == Err::<Seq<Role>, Seq<char>>(
                "활성화된 시민 특수 역할로 설정한 인원 수를 구성할 수 없습니다. 연인은 2명으로 계산됩니다."@),
            Some(f) => {
                &&& config.mafia_special_count as nat <= assignable(config, mafia_special_pool()).len()
                &&& config.neutral_special_count as nat <= assignable(config, neutral_special_pool()).len()
                &&& drawn.len() == f.len() + config.mafia_special_count + config.neutral_special_count
                &&& drawn.take(f.len() as int) == f
                &&& drawn.subrange(f.len() as int, f.len() + config.mafia_special_count).to_multiset().subset_of(
                    assignable(config, mafia_special_pool()).to_multiset())
                &&& drawn.skip(f.len() + config.mafia_special_count).to_multiset().subset_of(
                    assignable(config, neutral_special_pool()).to_multiset())
            },
        }
    };
    let f = first_fit(c, config.citizen_special_count as nat)->Some_0;
    crate::slots::law_first_fit_complete(c, config.citizen_special_count as nat, f);
    let k = f.len() + config.mafia_special_count;
    let a = drawn.take(f.len() as int);
    let b = drawn.subrange(f.len() as int, k);
    let d = drawn.skip(k);
    assert(a + b + d =~= drawn);
    assert forall|x: Role| drawn.contains(x) implies special_enabled(config, x) by {
        lemma_contains_in_parts(a, b, d, x);
        if a.contains(x) {
            lemma_subseq_contains(f, c, x);
            assert(c.to_multiset().subset_of(assignable(config, citizen_special_pool()).to_multiset()));
            lemma_drawable_switched_on(config, citizen_special_pool(), c, x);
        } else if b.contains(x) {
            lemma_drawable_switched_on(config, mafia_special_pool(), b, x);
        } else {
            lemma_drawable_switched_on(config, neutral_special_pool(), d, x);
        }
    }
}

/// A balanced special-role draw never holds a role whose switch is off.
pub proof fn law_balanced_draw_respects_switches(
    config: &BotConfig,
    citizen: Seq<Role>,
    mafia: Seq<Role>,
    neutral: Seq<Role>,
    history: Map<Role, i64>,
    drawn: Seq<Role>,
)
    requires
        candidates_for(citizen, assignable(config, citizen_special_pool()), history),
        candidates_for(mafia, assignable(config, mafia_special_pool()), history),
        candidates_for(neutral, assignable(config, neutral_special_pool()), history),
        balanced_choice(config, citizen, mafia, neutral, history) == Ok::<Seq<Role>, Seq<char>>(drawn),
    ensures
        drawn.contains(Role::Inspector) ==> config.enable_inspector,
        drawn.contains(Role::Detective) ==> config.enable_detective,
        drawn.contains(Role::Shaman) ==> config.enable_shaman,
        drawn.contains(Role::Graverobber) ==> config.enable_graverobber,
        drawn.contains(Role::Spy) ==> config.enable_spy,
        drawn.contains(Role::Contractor) ==> config.enable_contractor,
        drawn.contains(Role::Fraudster) ==> config.enable_fraudster,
        drawn.contains(Role::Witch) ==> config.enable_witch,
        drawn.contains(Role::Scientist) ==> config.enable_scientist,
        drawn.contains(Role::Madam) ==> config.enable_madam,
        drawn.contains(Role::Godfather) ==> config.enable_godfather,
        drawn.contains(Role::Joker) ==> config.enable_joker,
        drawn.contains(Role::Politician) ==> config.enable_politician,
        drawn.contains(Role::Judge) ==> config.enable_judge,
        drawn.contains(Role::Reporter) ==> config.enable_reporter,
        drawn.contains(Role::Hacker) ==> config.enable_hacker,
        drawn.contains(Role::Terrorist) ==> config.enable_terrorist,
        drawn.contains(Role::Lover) ==> config.enable_lover,
        drawn.contains(Role::CivilServant) ==> config.enable_civil_servant,
        drawn.contains(Role::Paparazzi) ==> config.enable_paparazzi,
        drawn.contains(Role::Priest) ==> config.enable_priest,
        drawn.contains(Role::Soldier) ==> config.enable_soldier,
        drawn.contains(Role::Nurse) ==> config.enable_nurse,
        drawn.contains(Role::Gangster) ==> config.enable_gangster,
        drawn.contains(Role::Prophet) ==> config.enable_prophet,
        drawn.contains(Role::Psychologist) ==> config.enable_psychologist,
        drawn.contains(Role::Hypnotist) ==> config.enable_hypnotist,
        drawn.contains(Role::Mercenary) ==> config.enable_mercenary,
        drawn.contains(Role::Thief) ==> config.enable_thief,
{
    let s = best_fit(citizen, config.citizen_special_count as nat, history)->Some_0;
    crate::slots::law_best_fit_optimal(citizen, config.citizen_special_count as nat, history, s);
    let b = mafia.take(config.mafia_special_count as int);
    let d = neutral.take(config.neutral_special_count as int);
    assert forall|x: Role| drawn.contains(x) implies special_enabled(config, x) by {
        lemma_contains_in_parts(s, b, d, x);
        if s.contains(x) {
            lemma_subseq_contains(s, citizen, x);
            lemma_drawable_switched_on(config, citizen_special_pool(), citizen, x);
        } else if b.contains(x) {
            let i = choose|i: int| 0 <= i < b.len() && b[i] == x;
            assert(mafia[i] == x);
            lemma_drawable_switched_on(config, mafia_special_pool(), mafia, x);
        } else {
            let i = choose|i: int| 0 <= i < d.len() && d[i] == x;
            assert(neutral[i] == x);
            lemma_drawable_switched_on(config, neutral_special_pool(), neutral, x);
        }
    }
}

} // verus!
