//! Filling the special-role seats of one team: a lover pair takes two seats,
//! every other special role one.  Two searches over the candidate list: the
//! first fill found in list order, and the fill whose roles were seen least.
use vstd::prelude::*;
use crate::role::Role;
use crate::role_map::RoleMap;

verus! {

/// Seats a special role takes (`special_role_player_count`).
pub open spec fn seats(r: Role) -> nat {
    if r == Role::Lover { 2 } else { 1 }
}

/// Seats taken by a list of special roles.
pub open spec fn seat_total(s: Seq<Role>) -> nat
    decreases s.len(),
{
    if s.len() == 0 { 0 } else { seats(s[0]) + seat_total(s.drop_first()) }
}

/// `sel` can be obtained from `c` by deleting elements.
pub open spec fn is_subseq(sel: Seq<Role>, c: Seq<Role>) -> bool
    decreases c.len(),
{
    if sel.len() == 0 {
        true
    } else if c.len() == 0 {
        false
    } else {
        (sel[0] == c[0] && is_subseq(sel.drop_first(), c.drop_first()))
            || is_subseq(sel, c.drop_first())
    }
}

/// The fill a depth-first search finds first: it tries each candidate in
/// order, taking it whenever the remaining seats can then still be filled.
pub open spec fn first_fit(c: Seq<Role>, n: nat) -> Option<Seq<Role>>
    decreases c.len(),
{
    if n == 0 {
        Some(Seq::empty())
    } else if c.len() == 0 {
        None
    } else if seats(c[0]) <= n && first_fit(c.drop_first(), (n - seats(c[0])) as nat) is Some {
        Some(seq![c[0]] + first_fit(c.drop_first(), (n - seats(c[0])) as nat)->Some_0)
    } else {
        first_fit(c.drop_first(), n)
    }
}

/// How often a role was seen before (zero when never recorded).
pub open spec fn seen(h: Map<Role, i64>, r: Role) -> int {
    if h.contains_key(r) { h[r] as int } else { 0 }
}

/// Sum of `seen` over a list of roles.
pub open spec fn score(s: Seq<Role>, h: Map<Role, i64>) -> int
    decreases s.len(),
{
    if s.len() == 0 { 0 } else { seen(h, s[0]) + score(s.drop_first(), h) }
}

/// The fill with the lowest total history; among equal totals the one that a
/// depth-first search (taking a candidate before skipping it) meets first.
pub open spec fn best_fit(c: Seq<Role>, n: nat, h: Map<Role, i64>) -> Option<Seq<Role>>
    decreases c.len(),
{
    if n == 0 {
        Some(Seq::empty())
    } else if c.len() == 0 {
        None
    } else {
        let rest = c.drop_first();
        let take = if seats(c[0]) <= n {
            match best_fit(rest, (n - seats(c[0])) as nat, h) {
                Some(s) => Some(seq![c[0]] + s),
                None => None,
            }
        } else {
            None
        };
        let skip = best_fit(rest, n, h);
        match take {
            Some(a) => match skip {
                Some(b) => if score(b, h) < score(a, h) { Some(b) } else { Some(a) },
                None => Some(a),
            },
            None => skip,
        }
    }
}

/// Seats a special role takes.
pub fn special_role_player_count(role: Role) -> (n: usize)
    ensures
        n == seats(role),
{
    if role == Role::Lover { 2 } else { 1 }
}

proof fn lemma_push_front_total(r: Role, s: Seq<Role>)
    ensures
        seat_total(seq![r] + s) == seats(r) + seat_total(s),
        (seq![r] + s).drop_first() == s,
{
    assert((seq![r] + s).drop_first() =~= s);
}

proof fn lemma_push_front_score(r: Role, s: Seq<Role>, h: Map<Role, i64>)
    ensures
        score(seq![r] + s, h) == seen(h, r) + score(s, h),
{
    assert((seq![r] + s).drop_first() =~= s);
}

fn fit_from(c: &[Role], start: usize, n: usize, selected: &mut Vec<Role>) -> (found: bool)
    requires
        start <= c@.len(),
    ensures
        found == first_fit(c@.skip(start as int), n as nat) is Some,
        found ==> final(selected)@ == old(selected)@ + first_fit(c@.skip(start as int), n as nat)->Some_0,
        !found ==> final(selected)@ == old(selected)@,
    decreases c@.len() - start,
{
    let ghost rest = c@.skip(start as int);
    if n == 0 {
        assert(old(selected)@ + Seq::<Role>::empty() =~= old(selected)@);
        return true;
    }
    if start >= c.len() {
        return false;
    }
    assert(rest.drop_first() =~= c@.skip(start as int + 1));
    assert(rest[0] == c@[start as int]);
    let role = c[start];
    let s = special_role_player_count(role);
    if s <= n {
        selected.push(role);
        let ghost pushed = selected@;
        if fit_from(c, start + 1, n - s, selected) {
            assert(selected@ =~= old(selected)@ + first_fit(rest, n as nat)->Some_0);
            return true;
        }
        selected.pop();
        assert(selected@ =~= old(selected)@);
    }
    fit_from(c, start + 1, n, selected)
}

/// Appends to `selected` the first fill of `remaining_slots` seats found in
/// candidate order and returns whether one exists (`selected` is left as it
/// was when none does).
pub fn select_special_roles_for_slots(
    candidates: &[Role],
    remaining_slots: usize,
    selected: &mut Vec<Role>,
) -> (found: bool)
    ensures
        found == first_fit(candidates@, remaining_slots as nat) is Some,
        found ==> final(selected)@ == old(selected)@ + first_fit(candidates@, remaining_slots as nat)->Some_0,
        !found ==> final(selected)@ == old(selected)@,
{
    assert(candidates@.skip(0) =~= candidates@);
    fit_from(candidates, 0, remaining_slots, selected)
}

proof fn lemma_score_bound(s: Seq<Role>, h: Map<Role, i64>)
    ensures
        -(s.len() as int) * 0x8000_0000_0000_0000 <= score(s, h) <= (s.len() as int) * 0x8000_0000_0000_0000,
    decreases s.len(),
{
    if s.len() > 0 {
        lemma_score_bound(s.drop_first(), h);
    }
}

proof fn lemma_best_fit_len(c: Seq<Role>, n: nat, h: Map<Role, i64>)
    ensures
        best_fit(c, n, h) matches Some(s) ==> s.len() <= c.len(),
    decreases c.len(),
{
    if n > 0 && c.len() > 0 {
        let rest = c.drop_first();
        if seats(c[0]) <= n {
            lemma_best_fit_len(rest, (n - seats(c[0])) as nat, h);
        }
        lemma_best_fit_len(rest, n, h);
    }
}

fn history_of(history: &RoleMap<i64>, r: Role) -> (v: i64)
    ensures
        v == seen(history@, r),
{
    match history.get(r) {
        Some(v) => v,
        None => 0,
    }
}

fn best_from(c: &[Role], start: usize, n: usize, history: &RoleMap<i64>) -> (r: Option<(Vec<Role>, i128)>)
    requires
        start <= c@.len(),
        c@.len() <= usize::MAX,
    ensures
        match r {
            Some((v, sc)) => best_fit(c@.skip(start as int), n as nat, history@) == Some(v@)
                && sc == score(v@, history@),
            None => best_fit(c@.skip(start as int), n as nat, history@) is None,
        },
    decreases c@.len() - start,
{
    let ghost rest = c@.skip(start as int);
    if n == 0 {
        return Some((Vec::new(), 0));
    }
    if start >= c.len() {
        return None;
    }
    assert(rest.drop_first() =~= c@.skip(start as int + 1));
    assert(rest[0] == c@[start as int]);
    let role = c[start];
    let s = special_role_player_count(role);
    let take: Option<(Vec<Role>, i128)> = if s <= n {
        match best_from(c, start + 1, n - s, history) {
            Some((tail, tail_score)) => {
                let mut v: Vec<Role> = Vec::new();
                v.push(role);
                let mut i: usize = 0;
                while i < tail.len()
                    invariant
                        i <= tail.len(),
                        v@ == seq![role] + tail@.take(i as int),
                    decreases tail.len() - i,
                {
                    v.push(tail[i]);
                    i = i + 1;
                    assert(v@ =~= seq![role] + tail@.take(i as int));
                }
                assert(tail@.take(tail.len() as int) =~= tail@);
                proof {
                    lemma_push_front_score(role, tail@, history@);
                    lemma_best_fit_len(c@.skip(start as int + 1), (n - s) as nat, history@);
                    lemma_score_bound(tail@, history@);
                    assert(tail@.len() <= c@.len());
                    assert((tail@.len() as int) * 0x8000_0000_0000_0000 <= (usize::MAX as int) * 0x8000_0000_0000_0000) by (nonlinear_arith)
                        requires tail@.len() <= usize::MAX;
                }
                let h = history_of(history, role);
                Some((v, h as i128 + tail_score))
            },
            None => None,
        }
    } else {
        None
    };
    let skip = best_from(c, start + 1, n, history);
    match take {
        Some((a, sa)) => match skip {
            Some((b, sb)) => if sb < sa { Some((b, sb)) } else { Some((a, sa)) },
            None => Some((a, sa)),
        },
        None => skip,
    }
}

/// The fill of `remaining_slots` seats with the lowest total history, `None`
/// when the candidates cannot fill them.
pub fn select_balanced_special_roles_for_slots(
    candidates: &[Role],
    remaining_slots: usize,
    role_history: &RoleMap<i64>,
) -> (r: Option<Vec<Role>>)
    ensures
        match r {
            Some(v) => best_fit(candidates@, remaining_slots as nat, role_history@) == Some(v@),
            None => best_fit(candidates@, remaining_slots as nat, role_history@) is None,
        },
{
    assert(candidates@.skip(0) =~= candidates@);
    let len = candidates.len();
    assert(candidates@.len() == len);
    match best_from(candidates, 0, remaining_slots, role_history) {
        Some((v, _)) => Some(v),
        None => None,
    }
}

/// Expands the lover into its two seats (`expand_special_roles`).
pub open spec fn expand(s: Seq<Role>) -> Seq<Role>
    decreases s.len(),
{
    if s.len() == 0 {
        Seq::empty()
    } else if s[0] == Role::Lover {
        seq![Role::Lover, Role::Lover] + expand(s.drop_first())
    } else {
        seq![s[0]] + expand(s.drop_first())
    }
}

proof fn lemma_expand_push(s: Seq<Role>, r: Role)
    ensures
        expand(s.push(r)) == expand(s) + (if r == Role::Lover { seq![Role::Lover, Role::Lover] } else { seq![r] }),
    decreases s.len(),
{
    let tail = if r == Role::Lover { seq![Role::Lover, Role::Lover] } else { seq![r] };
    if s.len() > 0 {
        assert(s.push(r).drop_first() =~= s.drop_first().push(r));
        assert(s.push(r)[0] == s[0]);
        lemma_expand_push(s.drop_first(), r);
        let head = if s[0] == Role::Lover { seq![Role::Lover, Role::Lover] } else { seq![s[0]] };
        assert(expand(s) == head + expand(s.drop_first()));
        assert(expand(s.push(r)) == head + expand(s.drop_first().push(r)));
        assert(head + (expand(s.drop_first()) + tail) =~= (head + expand(s.drop_first())) + tail);
    } else {
        assert(s.push(r).drop_first() =~= Seq::<Role>::empty());
        assert(s.push(r)[0] == r);
        assert(expand(s) =~= Seq::<Role>::empty());
        assert(expand(s.push(r).drop_first()) =~= Seq::<Role>::empty());
        assert(expand(s.push(r)) == tail + expand(s.push(r).drop_first()));
        assert(tail + Seq::<Role>::empty() =~= tail);
        assert(Seq::<Role>::empty() + tail =~= tail);
    }
}

/// One entry per seat: the lover appears twice (`expand_special_roles`).
pub fn expand_special_roles(roles: &[Role]) -> (expanded: Vec<Role>)
    ensures
        expanded@ == expand(roles@),
{
    let mut expanded: Vec<Role> = Vec::new();
    let mut i: usize = 0;
    while i < roles.len()
        invariant
            i <= roles@.len(),
            expanded@ == expand(roles@.take(i as int)),
        decreases roles@.len() - i,
    {
        let role = roles[i];
        proof {
            assert(roles@.take(i as int + 1) =~= roles@.take(i as int).push(role));
            lemma_expand_push(roles@.take(i as int), role);
        }
        if role == Role::Lover {
            expanded.push(Role::Lover);
            expanded.push(Role::Lover);
        } else {
            expanded.push(role);
        }
        i = i + 1;
        assert(expanded@ =~= expand(roles@.take(i as int)));
    }
    assert(roles@.take(roles@.len() as int) =~= roles@);
    expanded
}

// ---------------------------------------------------------------- laws

/// A fill exists for `n` seats among the candidates.
pub open spec fn fill_exists(c: Seq<Role>, n: nat) -> bool
    decreases c.len(),
{
    if n == 0 {
        true
    } else if c.len() == 0 {
        false
    } else {
        (seats(c[0]) <= n && fill_exists(c.drop_first(), (n - seats(c[0])) as nat))
            || fill_exists(c.drop_first(), n)
    }
}

proof fn lemma_first_fit_some(c: Seq<Role>, n: nat)
    ensures
        first_fit(c, n) is Some <==> fill_exists(c, n),
        first_fit(c, n) matches Some(s) ==> seat_total(s) == n && is_subseq(s, c),
    decreases c.len(),
{
    if n > 0 && c.len() > 0 {
        let rest = c.drop_first();
        if seats(c[0]) <= n {
            lemma_first_fit_some(rest, (n - seats(c[0])) as nat);
            if let Some(s) = first_fit(rest, (n - seats(c[0])) as nat) {
                lemma_push_front_total(c[0], s);
                assert((seq![c[0]] + s)[0] == c[0]);
            }
        }
        lemma_first_fit_some(rest, n);
        if let Some(s) = first_fit(c, n) {
            if s.len() > 0 && !(seats(c[0]) <= n && first_fit(rest, (n - seats(c[0])) as nat) is Some) {
                assert(is_subseq(s, rest));
            }
        }
    }
}

proof fn lemma_subseq_fill(sel: Seq<Role>, c: Seq<Role>)
    requires
        is_subseq(sel, c),
    ensures
        fill_exists(c, seat_total(sel)),
    decreases c.len(),
{
    if sel.len() > 0 {
        assert(c.len() > 0);
        let rest = c.drop_first();
        if sel[0] == c[0] && is_subseq(sel.drop_first(), rest) {
            lemma_subseq_fill(sel.drop_first(), rest);
        } else {
            lemma_subseq_fill(sel, rest);
        }
    }
}

/// A role picked out of a candidate list is one of the candidates.
pub(crate) proof fn lemma_subseq_contains(sel: Seq<Role>, c: Seq<Role>, x: Role)
    requires
        is_subseq(sel, c),
        sel.contains(x),
    ensures
        c.contains(x),
    decreases c.len(),
{
    let i = choose|i: int| 0 <= i < sel.len() && sel[i] == x;
    let rest = c.drop_first();
    if sel[0] == c[0] && is_subseq(sel.drop_first(), rest) {
        if i == 0 {
            assert(c[0] == x);
        } else {
            assert(sel.drop_first()[i - 1] == x);
            lemma_subseq_contains(sel.drop_first(), rest, x);
            let j = choose|j: int| 0 <= j < rest.len() && rest[j] == x;
            assert(c[j + 1] == x);
        }
    } else {
        lemma_subseq_contains(sel, rest, x);
        let j = choose|j: int| 0 <= j < rest.len() && rest[j] == x;
        assert(c[j + 1] == x);
    }
}

/// Soundness and completeness of the first-fit search: it finds a fill
/// exactly when some choice of candidates takes all `n` seats, and what it
/// finds is such a choice, kept in candidate order.
pub proof fn law_first_fit_complete(candidates: Seq<Role>, n: nat, choice: Seq<Role>)
    ensures
        first_fit(candidates, n) matches Some(s) ==> seat_total(s) == n && is_subseq(s, candidates),
        is_subseq(choice, candidates) && seat_total(choice) == n ==> first_fit(candidates, n) is Some,
{
    lemma_first_fit_some(candidates, n);
    if is_subseq(choice, candidates) && seat_total(choice) == n {
        lemma_subseq_fill(choice, candidates);
    }
}

proof fn lemma_best_fit(c: Seq<Role>, n: nat, h: Map<Role, i64>)
    ensures
        best_fit(c, n, h) is Some <==> fill_exists(c, n),
        best_fit(c, n, h) matches Some(s) ==> seat_total(s) == n && is_subseq(s, c),
    decreases c.len(),
{
    if n > 0 && c.len() > 0 {
        let rest = c.drop_first();
        if seats(c[0]) <= n {
            lemma_best_fit(rest, (n - seats(c[0])) as nat, h);
            if let Some(s) = best_fit(rest, (n - seats(c[0])) as nat, h) {
                lemma_push_front_total(c[0], s);
                assert((seq![c[0]] + s)[0] == c[0]);
            }
        }
        lemma_best_fit(rest, n, h);
    }
}

proof fn lemma_best_fit_optimal(c: Seq<Role>, n: nat, h: Map<Role, i64>, other: Seq<Role>)
    requires
        is_subseq(other, c),
        seat_total(other) == n,
    ensures
        best_fit(c, n, h) is Some,
        score(best_fit(c, n, h)->Some_0, h) <= score(other, h),
    decreases c.len(),
{
    lemma_subseq_fill(other, c);
    lemma_best_fit(c, n, h);
    if n > 0 {
        assert(other.len() > 0);
        let rest = c.drop_first();
        if other[0] == c[0] && is_subseq(other.drop_first(), rest) {
            lemma_push_front_total(c[0], other.drop_first());
            assert(seq![c[0]] + other.drop_first() =~= other);
            lemma_best_fit_optimal(rest, (n - seats(c[0])) as nat, h, other.drop_first());
            lemma_push_front_score(c[0], best_fit(rest, (n - seats(c[0])) as nat, h)->Some_0, h);
        } else {
            lemma_best_fit_optimal(rest, n, h, other);
        }
    } else {
        assert(score(Seq::<Role>::empty(), h) == 0);
        lemma_zero_total_score(other, h);
    }
}

proof fn lemma_zero_total_score(s: Seq<Role>, h: Map<Role, i64>)
    requires
        seat_total(s) == 0,
    ensures
        s.len() == 0,
{
    if s.len() > 0 {
        assert(seats(s[0]) >= 1);
    }
}

/// The balanced search finds a fill exactly when one exists, and no other
/// choice of candidates that takes all seats has a lower total history.
pub proof fn law_best_fit_optimal(candidates: Seq<Role>, n: nat, history: Map<Role, i64>, choice: Seq<Role>)
    ensures
        best_fit(candidates, n, history) is Some <==> first_fit(candidates, n) is Some,
        best_fit(candidates, n, history) matches Some(s) ==> seat_total(s) == n && is_subseq(s, candidates),
        is_subseq(choice, candidates) && seat_total(choice) == n ==> (best_fit(candidates, n, history) is Some
            && score(best_fit(candidates, n, history)->Some_0, history) <= score(choice, history)),
{
    lemma_best_fit(candidates, n, history);
    lemma_first_fit_some(candidates, n);
    if is_subseq(choice, candidates) && seat_total(choice) == n {
        lemma_best_fit_optimal(candidates, n, history, choice);
    }
}

/// Expanding the lover gives one entry per seat.
pub proof fn law_expand_counts_seats(roles: Seq<Role>)
    ensures
        expand(roles).len() == seat_total(roles),
    decreases roles.len(),
{
    if roles.len() > 0 {
        law_expand_counts_seats(roles.drop_first());
    }
}

} // verus!
