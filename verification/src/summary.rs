//! The public summary of a role line-up: how many mafia, doctors,
//! investigators, citizens, neutrals and cult members a game has.
use vstd::prelude::*;
use crate::game::{MafiaGame, Player};
use crate::role::{Role, public_citizen_special_pool, public_mafia_special_pool,
    public_neutral_special_pool, public_cult_special_pool, public_citizen_special_roles,
    public_cult_special_roles, mafia_special_roles, neutral_special_roles};
use crate::role_map::{RoleMap, count_of, group_sum, count_group};
use crate::counts::occurrences;
use crate::text::{dec, join, views, push_dec, join_strings};

verus! {

/// Mafia counted in the summary: plain mafia and mafia specials.
pub open spec fn mafia_total(m: Map<Role, usize>) -> nat {
    count_of(m, Role::Mafia) + group_sum(m, public_mafia_special_pool())
}

/// Investigators counted in the summary.
pub open spec fn investigation_total(m: Map<Role, usize>) -> nat {
    count_of(m, Role::Police) + count_of(m, Role::Agent) + count_of(m, Role::Vigilante)
        + count_of(m, Role::Inspector)
}

/// Seats that are not plain or special citizens.
pub open spec fn non_citizen_seats(m: Map<Role, usize>) -> nat {
    mafia_total(m) + count_of(m, Role::Doctor) + investigation_total(m)
        + group_sum(m, public_neutral_special_pool()) + group_sum(m, public_cult_special_pool())
}

/// `pre`, the number, `post`.
pub open spec fn labeled(pre: Seq<char>, n: nat, post: Seq<char>) -> Seq<char> {
    pre + dec(n) + post
}

/// The citizen part of the summary: the citizens left over from the player
/// count (never below zero) when it is known, "변동" when it is not.
pub open spec fn citizen_part(m: Map<Role, usize>, total_players: Option<usize>) -> Seq<char> {
    let special = group_sum(m, public_citizen_special_pool());
    match total_players {
        Some(t) => {
            let seats = non_citizen_seats(m);
            let left: nat = if t >= seats { (t - seats) as nat } else { 0 };
            labeled("시민 "@, left, "명(중 특수 "@) + dec(special) + "명)"@
        },
        None => labeled("시민 변동(중 특수 "@, special, "명)"@),
    }
}

/// The parts of the summary, in order; neutral and cult parts only when
/// there are any.
pub open spec fn summary_parts(m: Map<Role, usize>, total_players: Option<usize>) -> Seq<Seq<char>> {
    let neutral = group_sum(m, public_neutral_special_pool());
    let cult = group_sum(m, public_cult_special_pool());
    let base = seq![
        labeled("마피아 "@, mafia_total(m), "명(중 특수 "@) + dec(group_sum(m, public_mafia_special_pool()))
            + "명)"@,
        labeled("의사 "@, count_of(m, Role::Doctor), "명"@),
        labeled("수사직 "@, investigation_total(m), "명"@),
        citizen_part(m, total_players),
    ];
    let with_neutral = if neutral > 0 { base.push(labeled("중립 특수 "@, neutral, "명"@)) } else { base };
    if cult > 0 { with_neutral.push(labeled("교주팀 "@, cult, "명"@)) } else { with_neutral }
}

/// The summary text of a role line-up.
pub open spec fn role_summary(m: Map<Role, usize>, total_players: Option<usize>) -> Seq<char> {
    join(summary_parts(m, total_players), ", "@)
}

/// The count stored for a role, or zero.
pub fn count_in(m: &RoleMap<usize>, r: Role) -> (n: usize)
    ensures
        n == count_of(m@, r),
{
    match m.get(r) {
        Some(c) => c,
        None => 0,
    }
}

/// Appends the decimal text of a count.
fn push_count(s: &mut String, n: usize)
    ensures
        final(s)@ == old(s)@ + dec(n as nat),
{
    push_dec(s, n as u64);
}

/// `pre`, the number, `post` as a new string.
fn labeled_text(pre: &str, n: usize, post: &str) -> (r: String)
    ensures
        r@ == labeled(pre@, n as nat, post@),
{
    let mut s = String::from_str(pre);
    push_count(&mut s, n);
    s.append(post);
    s
}

/// The public summary of a role line-up (`public_role_count_text_from_counts`).
/// With a player count the citizens are what is left of it after the other
/// seats; without one the citizen count is shown as changing.
pub fn public_role_count_text_from_counts(role_counts: &RoleMap<usize>, total_players: Option<usize>) -> (s: String)
    requires
        non_citizen_seats(role_counts@) <= usize::MAX,
        group_sum(role_counts@, public_citizen_special_pool()) <= usize::MAX,
    ensures
        s@ == role_summary(role_counts@, total_players),
{
    let ghost m = role_counts@;
    let mafia_pool = mafia_special_roles();
    let mafia_special = count_group(role_counts, &mafia_pool);
    let mafia_total = count_in(role_counts, Role::Mafia) + mafia_special;
    let doctor_total = count_in(role_counts, Role::Doctor);
    let police_total = count_in(role_counts, Role::Police);
    let agent_total = count_in(role_counts, Role::Agent);
    let vigilante_total = count_in(role_counts, Role::Vigilante);
    let inspector_total = count_in(role_counts, Role::Inspector);
    let citizen_pool = public_citizen_special_roles();
    let citizen_special = count_group(role_counts, &citizen_pool);
    let neutral_pool = neutral_special_roles();
    let neutral_special = count_group(role_counts, &neutral_pool);
    let cult_pool = public_cult_special_roles();
    let cult_total = count_group(role_counts, &cult_pool);
    let citizen_text = match total_players {
        Some(t) => {
            let seats = mafia_total + doctor_total + police_total + agent_total + vigilante_total
                + inspector_total + neutral_special + cult_total;
            let left = if t >= seats { t - seats } else { 0 };
            let mut c = labeled_text("시민 ", left, "명(중 특수 ");
            push_count(&mut c, citizen_special);
            c.append("명)");
            c
        },
        None => labeled_text("시민 변동(중 특수 ", citizen_special, "명)"),
    };
    let mut first = labeled_text("마피아 ", mafia_total, "명(중 특수 ");
    push_count(&mut first, mafia_special);
    first.append("명)");
    let mut parts: Vec<String> = Vec::new();
    parts.push(first);
    parts.push(labeled_text("의사 ", doctor_total, "명"));
    parts.push(labeled_text("수사직 ", police_total + agent_total + vigilante_total + inspector_total, "명"));
    parts.push(citizen_text);
    if neutral_special > 0 {
        parts.push(labeled_text("중립 특수 ", neutral_special, "명"));
    }
    if cult_total > 0 {
        parts.push(labeled_text("교주팀 ", cult_total, "명"));
    }
    assert(views(parts@) =~= summary_parts(m, total_players));
    join_strings(&parts, ", ")
}

/// How many players hold each role: a role is present when at least one
/// player holds it.
pub open spec fn tally(roles: Seq<Role>) -> Map<Role, usize> {
    Map::new(|r: Role| occurrences(roles, r) > 0, |r: Role| occurrences(roles, r) as usize)
}

/// The roles of the players, in order.
pub open spec fn roles_of(players: Seq<Player>) -> Seq<Role> {
    players.map_values(|p: Player| p.role)
}

/// A role occurs at most as often as the list is long.
proof fn lemma_occurrences_bound(s: Seq<Role>, r: Role)
    ensures
        occurrences(s, r) <= s.len(),
    decreases s.len(),
{
    if s.len() > 0 {
        lemma_occurrences_bound(s.drop_last(), r);
    }
}

/// A role missing from a list occurs zero times.
proof fn lemma_occurrences_absent(s: Seq<Role>, r: Role)
    requires
        !s.contains(r),
    ensures
        occurrences(s, r) == 0,
    decreases s.len(),
{
    if s.len() > 0 {
        assert(!s.drop_last().contains(r)) by {
            if s.drop_last().contains(r) {
                let k = choose|k: int| 0 <= k < s.drop_last().len() && s.drop_last()[k] == r;
                assert(s[k] == r);
            }
        }
        assert(s.last() != r) by {
            assert(s[s.len() - 1] == s.last());
        }
        lemma_occurrences_absent(s.drop_last(), r);
    }
}

/// In a list without repeats a role occurs at most once.
proof fn lemma_occurrences_unique(s: Seq<Role>, r: Role)
    requires
        s.no_duplicates(),
    ensures
        occurrences(s, r) <= 1,
    decreases s.len(),
{
    if s.len() > 0 {
        let init = s.drop_last();
        assert(init.no_duplicates()) by {
            assert forall|i: int, j: int| 0 <= i < init.len() && 0 <= j < init.len() && i != j
                implies init[i] != init[j] by {
                assert(init[i] == s[i] && init[j] == s[j]);
            }
        }
        if s.last() == r {
            assert(!init.contains(r)) by {
                if init.contains(r) {
                    let k = choose|k: int| 0 <= k < init.len() && init[k] == r;
                    assert(s[k] == s[s.len() - 1]);
                }
            }
            lemma_occurrences_absent(init, r);
        } else {
            lemma_occurrences_unique(init, r);
        }
    }
}

/// Adding one to the count of `x` adds to a group sum once per time `x` is listed.
proof fn lemma_group_sum_bump(m1: Map<Role, usize>, m2: Map<Role, usize>, x: Role, roles: Seq<Role>)
    requires
        forall|r: Role| #[trigger] count_of(m2, r) == count_of(m1, r) + if r == x { 1nat } else { 0nat },
    ensures
        group_sum(m2, roles) == group_sum(m1, roles) + occurrences(roles, x),
    decreases roles.len(),
{
    if roles.len() > 0 {
        lemma_group_sum_bump(m1, m2, x, roles.drop_last());
        assert(count_of(m2, roles.last()) == count_of(m1, roles.last())
            + if roles.last() == x { 1nat } else { 0nat });
    }
}

/// A group sum of a map with no entries is zero.
proof fn lemma_group_sum_empty(m: Map<Role, usize>, roles: Seq<Role>)
    requires
        forall|r: Role| #[trigger] count_of(m, r) == 0,
    ensures
        group_sum(m, roles) == 0,
    decreases roles.len(),
{
    if roles.len() > 0 {
        lemma_group_sum_empty(m, roles.drop_last());
        assert(count_of(m, roles.last()) == 0);
    }
}

/// The count of a role in a tally is how often it occurs.
proof fn lemma_tally_count(roles: Seq<Role>, r: Role)
    requires
        roles.len() <= usize::MAX,
    ensures
        count_of(tally(roles), r) == occurrences(roles, r),
{
    lemma_occurrences_bound(roles, r);
}

/// A group of distinct roles never counts more players than there are.
pub proof fn lemma_tally_group_bound(roles: Seq<Role>, group: Seq<Role>)
    requires
        group.no_duplicates(),
        roles.len() <= usize::MAX,
    ensures
        group_sum(tally(roles), group) <= roles.len(),
    decreases roles.len(),
{
    if roles.len() == 0 {
        assert forall|r: Role| #[trigger] count_of(tally(roles), r) == 0 by {
            lemma_tally_count(roles, r);
        }
        lemma_group_sum_empty(tally(roles), group);
    } else {
        let init = roles.drop_last();
        let x = roles.last();
        assert forall|r: Role| #[trigger] count_of(tally(roles), r)
            == count_of(tally(init), r) + if r == x { 1nat } else { 0nat } by {
            lemma_tally_count(roles, r);
            lemma_tally_count(init, r);
        }
        lemma_group_sum_bump(tally(init), tally(roles), x, group);
        lemma_occurrences_unique(group, x);
        lemma_tally_group_bound(init, group);
    }
}

/// A group sum over `a + b` is the sum over `a` plus the sum over `b`.
proof fn lemma_group_sum_concat(m: Map<Role, usize>, a: Seq<Role>, b: Seq<Role>)
    ensures
        group_sum(m, a + b) == group_sum(m, a) + group_sum(m, b),
    decreases b.len(),
{
    if b.len() == 0 {
        assert(a + b =~= a);
    } else {
        assert((a + b).drop_last() =~= a + b.drop_last());
        assert((a + b).last() == b.last());
        lemma_group_sum_concat(m, a, b.drop_last());
    }
}

/// The roles that take non-citizen seats in the summary.
pub open spec fn seat_roles() -> Seq<Role> {
    seq![Role::Mafia] + public_mafia_special_pool()
        + seq![Role::Doctor, Role::Police, Role::Agent, Role::Vigilante, Role::Inspector]
        + public_neutral_special_pool() + public_cult_special_pool()
}

/// The non-citizen seats are the group sum over `seat_roles`.
proof fn lemma_seat_sum(m: Map<Role, usize>)
    ensures
        non_citizen_seats(m) == group_sum(m, seat_roles()),
{
    let a = seq![Role::Mafia];
    let b = public_mafia_special_pool();
    let c = seq![Role::Doctor, Role::Police, Role::Agent, Role::Vigilante, Role::Inspector];
    let d = public_neutral_special_pool();
    let e = public_cult_special_pool();
    lemma_group_sum_concat(m, a + b + c + d, e);
    lemma_group_sum_concat(m, a + b + c, d);
    lemma_group_sum_concat(m, a + b, c);
    lemma_group_sum_concat(m, a, b);
    assert(a.drop_last() =~= Seq::<Role>::empty());
    assert(c.drop_last().drop_last().drop_last().drop_last().drop_last() =~= Seq::<Role>::empty());
    assert(group_sum(m, c) == count_of(m, Role::Doctor) + count_of(m, Role::Police)
        + count_of(m, Role::Agent) + count_of(m, Role::Vigilante) + count_of(m, Role::Inspector)) by {
        reveal_with_fuel(group_sum, 6);
    }
}

/// Counts the players of each role.
fn count_roles(players: &Vec<Player>) -> (m: RoleMap<usize>)
    ensures
        m@ == tally(roles_of(players@)),
{
    let ghost roles = roles_of(players@);
    let mut m: RoleMap<usize> = RoleMap::new();
    let mut i: usize = 0;
    assert(m@ =~= tally(roles.take(0)));
    while i < players.len()
        invariant
            i <= players@.len(),
            roles == roles_of(players@),
            m@ == tally(roles.take(i as int)),
        decreases players@.len() - i,
    {
        let r = players[i].role;
        let c = count_in(&m, r);
        proof {
            lemma_tally_count(roles.take(i as int), r);
            lemma_occurrences_bound(roles.take(i as int), r);
        }
        let ghost before = m@;
        m.insert(r, c + 1);
        proof {
            let t = roles.take(i as int + 1);
            assert(t.drop_last() =~= roles.take(i as int));
            assert(t.last() == r);
            assert(m@ =~= tally(t)) by {
                assert forall|q: Role| #[trigger] m@.contains_key(q) == tally(t).contains_key(q) by {}
                assert forall|q: Role| m@.contains_key(q) implies #[trigger] m@[q] == tally(t)[q] by {}
            }
        }
        i = i + 1;
    }
    assert(roles.take(players@.len() as int) =~= roles);
    m
}

/// The role line-up of a game, as shown to the players.
pub open spec fn role_line(game: &MafiaGame) -> Seq<char> {
    "역할 구성: "@ + role_summary(tally(roles_of(game.players@)), Some(game.players@.len() as usize))
}

/// The role line-up of a game, as shown to the players (`public_role_count_text`).
pub fn public_role_count_text(game: &MafiaGame) -> (s: String)
    ensures
        s@ == role_line(game),
{
    let counts = count_roles(&game.players);
    let n = game.players.len();
    let ghost roles = roles_of(game.players@);
    proof {
        assert(seat_roles().no_duplicates()) by {
            reveal_with_fuel(Seq::<_>::no_duplicates, 1);
        }
        assert(roles.len() == game.players@.len());
        lemma_seat_sum(counts@);
        lemma_tally_group_bound(roles, seat_roles());
        assert(public_citizen_special_pool().no_duplicates());
        lemma_tally_group_bound(roles, public_citizen_special_pool());
    }
    let mut s = String::from_str("역할 구성: ");
    let body = public_role_count_text_from_counts(&counts, Some(n));
    s.append(body.as_str());
    s
}


proof fn lemma_group_sum_single(m: Map<Role, usize>, r: Role)
    ensures
        group_sum(m, seq![r]) == count_of(m, r),
{
    let one = seq![r];
    assert(one.drop_last() =~= Seq::<Role>::empty());
    assert(one.last() == r);
    assert(group_sum(m, one.drop_last()) == 0);
}

/// Every role is counted in exactly one part of the summary: the seat
/// roles, the special citizens, or the plain citizens.
#[verifier::spinoff_prover]
proof fn lemma_summary_partition(x: Role)
    ensures
        occurrences(seat_roles(), x) + occurrences(public_citizen_special_pool(), x)
            + occurrences(seq![Role::Citizen], x) == 1,
{
    let seats = seq![Role::Mafia, Role::Spy, Role::Contractor, Role::Fraudster, Role::Thief, Role::Witch,
        Role::Scientist, Role::Madam, Role::Godfather, Role::Doctor, Role::Police, Role::Agent,
        Role::Vigilante, Role::Inspector, Role::Joker, Role::CultLeader, Role::Fanatic];
    assert(seat_roles() =~= seats);
    reveal_with_fuel(occurrences, 20);
    match x {
        Role::Citizen => {},
        Role::Mafia => {},
        Role::Doctor => {},
        Role::Police => {},
        Role::Agent => {},
        Role::Vigilante => {},
        Role::Inspector => {},
        Role::Detective => {},
        Role::Shaman => {},
        Role::Graverobber => {},
        Role::Spy => {},
        Role::Contractor => {},
        Role::Fraudster => {},
        Role::Thief => {},
        Role::Witch => {},
        Role::Scientist => {},
        Role::Madam => {},
        Role::Godfather => {},
        Role::Joker => {},
        Role::Politician => {},
        Role::Judge => {},
        Role::Reporter => {},
        Role::Hacker => {},
        Role::Terrorist => {},
        Role::Lover => {},
        Role::CivilServant => {},
        Role::Paparazzi => {},
        Role::Priest => {},
        Role::Soldier => {},
        Role::Nurse => {},
        Role::Gangster => {},
        Role::Prophet => {},
        Role::Psychologist => {},
        Role::Hypnotist => {},
        Role::Mercenary => {},
        Role::CultLeader => {},
        Role::Fanatic => {},
    }
}

/// The public summary accounts for every player exactly once: the seats it
/// lists by role, the special citizens and the plain citizens add up to the
/// number of players, so the citizens it shows are exactly the plain and the
/// special citizens.
pub proof fn law_summary_counts_every_player_once(roles: Seq<Role>)
    requires
        roles.len() <= usize::MAX,
    ensures
        non_citizen_seats(tally(roles)) + count_of(tally(roles), Role::Citizen)
            + group_sum(tally(roles), public_citizen_special_pool()) == roles.len(),
    decreases roles.len(),
{
    lemma_seat_sum(tally(roles));
    lemma_group_sum_single(tally(roles), Role::Citizen);
    if roles.len() == 0 {
        assert forall|r: Role| #[trigger] count_of(tally(roles), r) == 0 by {
            lemma_tally_count(roles, r);
        }
        lemma_group_sum_empty(tally(roles), seat_roles());
        lemma_group_sum_empty(tally(roles), public_citizen_special_pool());
    } else {
        let init = roles.drop_last();
        let x = roles.last();
        law_summary_counts_every_player_once(init);
        lemma_seat_sum(tally(init));
        lemma_group_sum_single(tally(init), Role::Citizen);
        assert forall|r: Role| #[trigger] count_of(tally(roles), r)
            == count_of(tally(init), r) + if r == x { 1nat } else { 0nat } by {
            lemma_tally_count(roles, r);
            lemma_tally_count(init, r);
        }
        lemma_group_sum_bump(tally(init), tally(roles), x, seat_roles());
        lemma_group_sum_bump(tally(init), tally(roles), x, public_citizen_special_pool());
        lemma_group_sum_bump(tally(init), tally(roles), x, seq![Role::Citizen]);
        lemma_summary_partition(x);
    }
}

} // verus!
