//! A map keyed by role, used for role counts and role appearance history.
use vstd::prelude::*;
use crate::role::Role;

verus! {

/// Number of distinct roles.
pub const ROLE_COUNT: usize = 37;

/// Position of a role in the declaration order of `Role`.
pub open spec fn role_index(r: Role) -> nat {
    match r {
        Role::Citizen => 0,
        Role::Mafia => 1,
        Role::Doctor => 2,
        Role::Police => 3,
        Role::Agent => 4,
        Role::Vigilante => 5,
        Role::Inspector => 6,
        Role::Detective => 7,
        Role::Shaman => 8,
        Role::Graverobber => 9,
        Role::Spy => 10,
        Role::Contractor => 11,
        Role::Fraudster => 12,
        Role::Thief => 13,
        Role::Witch => 14,
        Role::Scientist => 15,
        Role::Madam => 16,
        Role::Godfather => 17,
        Role::Joker => 18,
        Role::Politician => 19,
        Role::Judge => 20,
        Role::Reporter => 21,
        Role::Hacker => 22,
        Role::Terrorist => 23,
        Role::Lover => 24,
        Role::CivilServant => 25,
        Role::Paparazzi => 26,
        Role::Priest => 27,
        Role::Soldier => 28,
        Role::Nurse => 29,
        Role::Gangster => 30,
        Role::Prophet => 31,
        Role::Psychologist => 32,
        Role::Hypnotist => 33,
        Role::Mercenary => 34,
        Role::CultLeader => 35,
        Role::Fanatic => 36,
    }
}

/// Every role, in declaration order.
pub open spec fn all_roles() -> Seq<Role> {
    seq![Role::Citizen, Role::Mafia, Role::Doctor, Role::Police, Role::Agent, Role::Vigilante, Role::Inspector, Role::Detective, Role::Shaman, Role::Graverobber, Role::Spy, Role::Contractor, Role::Fraudster, Role::Thief, Role::Witch, Role::Scientist, Role::Madam, Role::Godfather, Role::Joker, Role::Politician, Role::Judge, Role::Reporter, Role::Hacker, Role::Terrorist, Role::Lover, Role::CivilServant, Role::Paparazzi, Role::Priest, Role::Soldier, Role::Nurse, Role::Gangster, Role::Prophet, Role::Psychologist, Role::Hypnotist, Role::Mercenary, Role::CultLeader, Role::Fanatic
    ]
}

/// `role_index` as an executable function.
pub fn index_of_role(r: Role) -> (i: usize)
    ensures
        i == role_index(r),
        i < ROLE_COUNT,
{
    match r {
        Role::Citizen => 0,
        Role::Mafia => 1,
        Role::Doctor => 2,
        Role::Police => 3,
        Role::Agent => 4,
        Role::Vigilante => 5,
        Role::Inspector => 6,
        Role::Detective => 7,
        Role::Shaman => 8,
        Role::Graverobber => 9,
        Role::Spy => 10,
        Role::Contractor => 11,
        Role::Fraudster => 12,
        Role::Thief => 13,
        Role::Witch => 14,
        Role::Scientist => 15,
        Role::Madam => 16,
        Role::Godfather => 17,
        Role::Joker => 18,
        Role::Politician => 19,
        Role::Judge => 20,
        Role::Reporter => 21,
        Role::Hacker => 22,
        Role::Terrorist => 23,
        Role::Lover => 24,
        Role::CivilServant => 25,
        Role::Paparazzi => 26,
        Role::Priest => 27,
        Role::Soldier => 28,
        Role::Nurse => 29,
        Role::Gangster => 30,
        Role::Prophet => 31,
        Role::Psychologist => 32,
        Role::Hypnotist => 33,
        Role::Mercenary => 34,
        Role::CultLeader => 35,
        Role::Fanatic => 36,
    }
}

/// Every role, in declaration order.
pub fn all_roles_vec() -> (v: Vec<Role>)
    ensures
        v@ == all_roles(),
{
    let v = vec![Role::Citizen, Role::Mafia, Role::Doctor, Role::Police, Role::Agent, Role::Vigilante, Role::Inspector, Role::Detective, Role::Shaman, Role::Graverobber, Role::Spy, Role::Contractor, Role::Fraudster, Role::Thief, Role::Witch, Role::Scientist, Role::Madam, Role::Godfather, Role::Joker, Role::Politician, Role::Judge, Role::Reporter, Role::Hacker, Role::Terrorist, Role::Lover, Role::CivilServant, Role::Paparazzi, Role::Priest, Role::Soldier, Role::Nurse, Role::Gangster, Role::Prophet, Role::Psychologist, Role::Hypnotist, Role::Mercenary, Role::CultLeader, Role::Fanatic];
    assert(v@ =~= all_roles());
    v
}

proof fn lemma_all_roles_index(r: Role)
    ensures
        role_index(r) < all_roles().len(),
        all_roles()[role_index(r) as int] == r,
{
}

/// Two roles with the same index are the same role.
pub proof fn lemma_role_index_injective(a: Role, b: Role)
    ensures
        role_index(a) == role_index(b) ==> a == b,
{
}

/// A finite map from roles to values.
pub struct RoleMap<V> {
    slots: Vec<Option<V>>,
}

impl<V> View for RoleMap<V> {
    type V = Map<Role, V>;

    closed spec fn view(&self) -> Map<Role, V> {
        Map::new(
            |r: Role| role_index(r) < self.slots@.len() && self.slots@[role_index(r) as int] is Some,
            |r: Role| self.slots@[role_index(r) as int]->Some_0,
        )
    }
}

impl<V: Copy> RoleMap<V> {
    /// An empty map.
    pub fn new() -> (m: Self)
        ensures
            m@ == Map::<Role, V>::empty(),
    {
        let mut slots: Vec<Option<V>> = Vec::new();
        let mut i: usize = 0;
        while i < ROLE_COUNT
            invariant
                i <= ROLE_COUNT,
                slots@.len() == i,
                forall|k: int| 0 <= k < i ==> slots@[k] is None,
            decreases ROLE_COUNT - i,
        {
            slots.push(None);
            i = i + 1;
        }
        let m = RoleMap { slots };
        assert(m@ =~= Map::<Role, V>::empty());
        m
    }

    /// The value stored for `r`.
    pub fn get(&self, r: Role) -> (o: Option<V>)
        ensures
            o == (if self@.contains_key(r) { Some(self@[r]) } else { None::<V> }),
    {
        let i = index_of_role(r);
        if i < self.slots.len() {
            self.slots[i]
        } else {
            None
        }
    }

    /// Whether `r` has a value.
    pub fn contains_key(&self, r: Role) -> (b: bool)
        ensures
            b == self@.contains_key(r),
    {
        self.get(r).is_some()
    }

    /// Stores `v` for `r`, replacing what was there.
    pub fn insert(&mut self, r: Role, v: V)
        ensures
            final(self)@ == old(self)@.insert(r, v),
    {
        let i = index_of_role(r);
        let ghost before = self@;
        while self.slots.len() <= i
            invariant
                self@ == before,
            decreases i + 1 - self.slots.len(),
        {
            self.slots.push(None);
            assert(self@ =~= before);
        }
        self.slots.set(i, Some(v));
        proof {
            assert forall|q: Role| #[trigger] self@.contains_key(q) == before.insert(r, v).contains_key(q) by {
                lemma_role_index_injective(q, r);
            }
            assert forall|q: Role| #[trigger] self@.contains_key(q) implies self@[q] == before.insert(r, v)[q] by {
                lemma_role_index_injective(q, r);
            }
            assert(self@ =~= before.insert(r, v));
        }
    }

    /// The roles that have a value, in declaration order.
    pub fn keys(&self) -> (ks: Vec<Role>)
        ensures
            ks@ == all_roles().filter(|r: Role| self@.contains_key(r)),
            forall|r: Role| ks@.contains(r) <==> self@.contains_key(r),
    {
        let all = all_roles_vec();
        let mut ks: Vec<Role> = Vec::new();
        let mut i: usize = 0;
        let ghost pred = |r: Role| self@.contains_key(r);
        while i < all.len()
            invariant
                all@ == all_roles(),
                i <= all.len(),
                pred == (|r: Role| self@.contains_key(r)),
                ks@ == all@.take(i as int).filter(pred),
            decreases all.len() - i,
        {
            let r = all[i];
            proof {
                reveal_with_fuel(Seq::<_>::filter, 1);
            }
            assert(all@.take(i as int + 1).drop_last() =~= all@.take(i as int));
            if self.contains_key(r) {
                ks.push(r);
            }
            i = i + 1;
        }
        assert(all@.take(all.len() as int) =~= all@);
        proof {
            assert forall|r: Role| ks@.contains(r) <==> self@.contains_key(r) by {
                lemma_all_roles_index(r);
                if self@.contains_key(r) {
                    all_roles().lemma_filter_contains(pred, role_index(r) as int);
                }
                if ks@.contains(r) {
                    all_roles().lemma_filter_contains_rev(pred, r);
                }
            }
        }
        ks
    }
}

/// The count stored for `r`, or zero.
pub open spec fn count_of(m: Map<Role, usize>, r: Role) -> nat {
    if m.contains_key(r) { m[r] as nat } else { 0 }
}

/// Sum of the counts of the listed roles (a role listed twice counts twice).
pub open spec fn group_sum(m: Map<Role, usize>, roles: Seq<Role>) -> nat
    decreases roles.len(),
{
    if roles.len() == 0 {
        0
    } else {
        group_sum(m, roles.drop_last()) + count_of(m, roles.last())
    }
}

/// Sum of the counts of the listed roles (`count_group`).
pub fn count_group(role_counts: &RoleMap<usize>, roles: &Vec<Role>) -> (n: usize)
    requires
        group_sum(role_counts@, roles@) <= usize::MAX,
    ensures
        n == group_sum(role_counts@, roles@),
{
    let mut n: usize = 0;
    let mut i: usize = 0;
    while i < roles.len()
        invariant
            i <= roles.len(),
            n == group_sum(role_counts@, roles@.take(i as int)),
            group_sum(role_counts@, roles@) <= usize::MAX,
        decreases roles.len() - i,
    {
        proof {
            assert(roles@.take(i as int + 1).drop_last() =~= roles@.take(i as int));
            lemma_group_sum_prefix(role_counts@, roles@, i as int + 1);
        }
        let c = match role_counts.get(roles[i]) {
            Some(c) => c,
            None => 0,
        };
        n = n + c;
        i = i + 1;
    }
    assert(roles@.take(roles.len() as int) =~= roles@);
    n
}

/// A prefix never sums to more than the whole list.
pub proof fn lemma_group_sum_prefix(m: Map<Role, usize>, roles: Seq<Role>, k: int)
    requires
        0 <= k <= roles.len(),
    ensures
        group_sum(m, roles.take(k)) <= group_sum(m, roles),
    decreases roles.len(),
{
    if k < roles.len() {
        assert(roles.drop_last().take(k) =~= roles.take(k));
        lemma_group_sum_prefix(m, roles.drop_last(), k);
    } else {
        assert(roles.take(k) =~= roles);
    }
}

} // verus!
