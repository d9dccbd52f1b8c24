//! The decisions of starting a game: whether a start may begin, the role
//! line-up of the recruitment, whether the recruitment went through, and the
//! counts handed to the game engine.
use vstd::prelude::*;
use crate::config::{BotConfig, max_players_spec, effective_max_player_count};
use crate::counts::{count_error, counts_match, role_count, role_present, minimum_players,
    minimum_player_count, mafia_team_roles, selected_role_counts_balanced, investigation_candidates,
    occurrences, mafia_specials, base_count, cult_extra, lemma_occurrences_bound};
use crate::game::MafiaGame;
use crate::recruitment::Recruitment;
use crate::role::{Role, citizen_special_pool, mafia_special_pool, neutral_special_pool};
use crate::role_map::{RoleMap, count_of, group_sum, all_roles};
use crate::selection::{balanced_choice, candidates_for, assignable, choose_special_roles_balanced};
use crate::slots::{seats, seat_total, best_fit, law_best_fit_optimal, expand, expand_special_roles};
use crate::summary::{role_line, public_role_count_text, count_in};
use crate::text::{dec, push_dec};

verus! {

/// Why a start command is refused before anything is set up, if it is.
pub open spec fn start_refusal_reason(in_guild: bool, game_running: bool, recruiting: bool, game_enabled: bool) -> Option<Seq<char>> {
    if !in_guild {
        Some("서버 채널에서만 사용할 수 있습니다."@)
    } else if game_running {
        Some("이미 진행 중인 게임이 있습니다."@)
    } else if recruiting {
        Some("이미 참가자를 모집 중입니다."@)
    } else if !game_enabled {
        Some("마피아 게임이 비활성화되어 있습니다."@)
    } else {
        None
    }
}

/// Why a start command is refused before anything is set up, if it is.
pub fn start_refusal(in_guild: bool, game_running: bool, recruiting: bool, game_enabled: bool) -> (r: Option<&'static str>)
    ensures
        match r {
            Some(s) => start_refusal_reason(in_guild, game_running, recruiting, game_enabled) == Some(s@),
            None => start_refusal_reason(in_guild, game_running, recruiting, game_enabled) is None,
        },
{
    if !in_guild {
        Some("서버 채널에서만 사용할 수 있습니다.")
    } else if game_running {
        Some("이미 진행 중인 게임이 있습니다.")
    } else if recruiting {
        Some("이미 참가자를 모집 중입니다.")
    } else if !game_enabled {
        Some("마피아 게임이 비활성화되어 있습니다.")
    } else {
        None
    }
}

/// The answer when the server has no participant role of the configured name.
pub fn missing_role_message(role_name: &str) -> (s: String)
    ensures
        s@ == "'"@ + role_name@ + "' 역할을 찾을 수 없습니다."@,
{
    let mut s = String::from_str("'");
    s.append(role_name);
    s.append("' 역할을 찾을 수 없습니다.");
    s
}

/// The role line-up of a recruitment and the head counts it allows.
pub struct RecruitmentPlan {
    pub special_roles: Vec<Role>,
    pub role_counts: RoleMap<usize>,
    pub minimum_players: usize,
    pub max_players: usize,
}

/// The counts map of a line-up: every listed role with its player count.
pub open spec fn line_up(config: &BotConfig, specials: Seq<Role>, inv: Role) -> Map<Role, usize> {
    Map::new(
        |r: Role| role_present(config, specials, inv, r),
        |r: Role| role_count(config, specials, inv, r) as usize,
    )
}

/// The refusal when the player limit is below the smallest possible game.
pub open spec fn too_small(minimum: nat, max: nat) -> Seq<char> {
    "현재 설정의 최소 시작 인원은 "@ + dec(minimum) + "명이라 최대 인원 "@ + dec(max) + "명으로 시작할 수 없습니다."@
}

/// What planning gives for a chosen line-up and investigation role: the
/// plan, or the refusal when the player limit is too small for it.
pub open spec fn plan_outcome(config: &BotConfig, specials: Seq<Role>, inv: Role, r: Result<RecruitmentPlan, String>) -> bool {
    let counts = line_up(config, specials, inv);
    let minimum = minimum_players(counts);
    let max = max_players_spec(config);
    if max < minimum {
        r matches Err(e) && e@ == too_small(minimum, max)
    } else {
        r matches Ok(p) && p.special_roles@ == specials && p.role_counts@ == counts
            && p.minimum_players == minimum && p.max_players == max
    }
}

/// An investigation role that may take the police slots and was seen least.
pub open spec fn least_seen_investigation(config: &BotConfig, h: Map<Role, i64>, inv: Role) -> bool {
    &&& investigation_candidates(config).contains(inv)
    &&& forall|c: Role| investigation_candidates(config).contains(c) ==> crate::slots::seen(h, inv) <= crate::slots::seen(h, c)
}

pub(crate) proof fn lemma_len_le_seats(s: Seq<Role>)
    ensures
        s.len() <= seat_total(s),
    decreases s.len(),
{
    if s.len() > 0 {
        lemma_len_le_seats(s.drop_first());
    }
}

proof fn lemma_choice_len(config: &BotConfig, c: Seq<Role>, m: Seq<Role>, n: Seq<Role>, h: Map<Role, i64>, v: Seq<Role>)
    requires
        balanced_choice(config, c, m, n, h) == Ok::<Seq<Role>, Seq<char>>(v),
    ensures
        v.len() <= 3 * (u32::MAX as int),
{
    let s = best_fit(c, config.citizen_special_count as nat, h)->Some_0;
    law_best_fit_optimal(c, config.citizen_special_count as nat, h, s);
    lemma_len_le_seats(s);
}

pub(crate) proof fn lemma_count_bound(config: &BotConfig, specials: Seq<Role>, inv: Role, r: Role)
    requires
        mafia_specials(specials) <= config.default_mafia_count,
    ensures
        role_count(config, specials, inv, r) <= u32::MAX + 2 * specials.len() + 1,
{
    lemma_occurrences_bound(specials, r);
    let o = occurrences(specials, r);
    assert(o * seats(r) <= 2 * specials.len()) by (nonlinear_arith)
        requires
            o <= specials.len(),
            seats(r) <= 2,
    ;
    lemma_occurrences_bound(specials, r);
    assert(base_count(config, mafia_specials(specials), inv, r) <= u32::MAX);
}

pub(crate) proof fn lemma_group_sum_bound(m: Map<Role, usize>, roles: Seq<Role>, bound: nat)
    requires
        forall|r: Role| #[trigger] count_of(m, r) <= bound,
    ensures
        group_sum(m, roles) <= roles.len() * bound,
    decreases roles.len(),
{
    if roles.len() > 0 {
        lemma_group_sum_bound(m, roles.drop_last(), bound);
        assert(count_of(m, roles.last()) <= bound);
        assert((roles.len() - 1) * bound + bound == roles.len() * bound) by (nonlinear_arith);
    }
}

pub(crate) proof fn lemma_line_up(m: Map<Role, usize>, config: &BotConfig, specials: Seq<Role>, inv: Role)
    requires
        counts_match(m, config, specials, inv),
    ensures
        m == line_up(config, specials, inv),
{
    assert forall|r: Role| #[trigger] m.contains_key(r) == line_up(config, specials, inv).contains_key(r) by {
        assert(counts_match(m, config, specials, inv));
    }
    assert forall|r: Role| m.contains_key(r) implies #[trigger] m[r] == line_up(config, specials, inv)[r] by {
        assert(count_of(m, r) == role_count(config, specials, inv, r));
    }
    assert(m =~= line_up(config, specials, inv));
}

/// Plans a recruitment for the start command: the special roles,
/// preferring the least-seen ones; the role counts, with the police slots
/// given to a least-seen investigation role; the smallest game this line-up
/// needs and the player limit.  A limit below that smallest game is refused.
/// Ties between equally seen roles are broken by chance, so the contract
/// speaks of some such ordering.  Sized for 64-bit targets.
pub fn plan_recruitment(config: &BotConfig, role_history: &RoleMap<i64>) -> (r: Result<RecruitmentPlan, String>)
    requires
        usize::MAX == u64::MAX,
    ensures
        exists|c: Seq<Role>, m: Seq<Role>, n: Seq<Role>| {
            &&& candidates_for(c, assignable(config, citizen_special_pool()), role_history@)
            &&& candidates_for(m, assignable(config, mafia_special_pool()), role_history@)
            &&& candidates_for(n, assignable(config, neutral_special_pool()), role_history@)
            &&& match #[trigger] balanced_choice(config, c, m, n, role_history@) {
                Err(e) => r matches Err(msg) && msg@ == e,
                Ok(specials) => match count_error(config, specials) {
                    Some(e) => r matches Err(msg) && msg@ == e,
                    None => exists|inv: Role| #[trigger] least_seen_investigation(config, role_history@, inv)
                        && plan_outcome(config, specials, inv, r),
                },
            }
        },
{
    let chosen = choose_special_roles_balanced(config, role_history);
    let ghost (c, m, n) = choose|c: Seq<Role>, m: Seq<Role>, n: Seq<Role>| {
        &&& candidates_for(c, assignable(config, citizen_special_pool()), role_history@)
        &&& candidates_for(m, assignable(config, mafia_special_pool()), role_history@)
        &&& candidates_for(n, assignable(config, neutral_special_pool()), role_history@)
        &&& match chosen {
            Ok(v) => #[trigger] balanced_choice(config, c, m, n, role_history@) == Ok::<Seq<Role>, Seq<char>>(v@),
            Err(e) => balanced_choice(config, c, m, n, role_history@) == Err::<Seq<Role>, Seq<char>>(e@),
        }
    };
    let specials = match chosen {
        Ok(v) => v,
        Err(e) => {
            assert(balanced_choice(config, c, m, n, role_history@) is Err);
            return Err(e);
        },
    };
    proof {
        lemma_choice_len(config, c, m, n, role_history@, specials@);
    }
    let counted = selected_role_counts_balanced(config, specials.as_slice(), role_history);
    let ghost inv = choose|inv: Role| {
        &&& #[trigger] investigation_candidates(config).contains(inv)
        &&& forall|q: Role| investigation_candidates(config).contains(q) ==> crate::slots::seen(role_history@, inv) <= crate::slots::seen(role_history@, q)
        &&& match count_error(config, specials@) {
            Some(e) => counted matches Err(msg) && msg@ == e,
            None => counted matches Ok(mm) && counts_match(mm@, config, specials@, inv),
        }
    };
    assert(least_seen_investigation(config, role_history@, inv));
    let role_counts = match counted {
        Ok(v) => v,
        Err(e) => {
            assert(balanced_choice(config, c, m, n, role_history@) == Ok::<Seq<Role>, Seq<char>>(specials@));
            return Err(e);
        },
    };
    let ghost bound: nat = (u32::MAX + 2 * specials@.len() + 1) as nat;
    proof {
        lemma_line_up(role_counts@, config, specials@, inv);
        assert forall|q: Role| #[trigger] count_of(role_counts@, q) <= bound by {
            lemma_count_bound(config, specials@, inv, q);
        }
        lemma_group_sum_bound(role_counts@, all_roles(), bound);
        lemma_group_sum_bound(role_counts@, mafia_team_roles(), bound);
        assert(all_roles().len() == 37);
        assert(mafia_team_roles().len() == 9);
        assert(bound <= 7 * (u32::MAX as int) + 1);
        let total = all_roles().len();
        let mafia_len = mafia_team_roles().len();
        assert(total * bound <= usize::MAX && 2 * (mafia_len * bound) + 1 <= usize::MAX) by (nonlinear_arith)
            requires
                total == 37,
                mafia_len == 9,
                bound <= 7 * (u32::MAX as int) + 1,
                usize::MAX == u64::MAX,
        ;
    }
    let minimum = minimum_player_count(&role_counts);
    let max = effective_max_player_count(config);
    if max < minimum {
        let mut msg = String::from_str("현재 설정의 최소 시작 인원은 ");
        push_dec(&mut msg, minimum as u64);
        msg.append("명이라 최대 인원 ");
        push_dec(&mut msg, max as u64);
        msg.append("명으로 시작할 수 없습니다.");
        let r: Result<RecruitmentPlan, String> = Err(msg);
        assert(plan_outcome(config, specials@, inv, r));
        assert(balanced_choice(config, c, m, n, role_history@) == Ok::<Seq<Role>, Seq<char>>(specials@));
        return r;
    }
    let r: Result<RecruitmentPlan, String> = Ok(RecruitmentPlan {
        special_roles: specials,
        role_counts,
        minimum_players: minimum,
        max_players: max,
    });
    assert(plan_outcome(config, specials@, inv, r));
    assert(balanced_choice(config, c, m, n, role_history@) == Ok::<Seq<Role>, Seq<char>>(specials@));
    r
}

/// Whether a closing recruitment is called off: cancelled by its host, or
/// fewer participants than the smallest game.
pub open spec fn recruitment_called_off(r: &Recruitment) -> bool {
    r.cancelled || r.joined_ids@.len() < r.minimum_players
}

/// Whether a closing recruitment is called off, checked when recruitment ends.
pub fn recruitment_failed(recruitment: &Recruitment) -> (b: bool)
    ensures
        b == recruitment_called_off(recruitment),
{
    broadcast use vstd::std_specs::hash::group_hash_axioms;
    recruitment.cancelled || recruitment.joined_ids.len() < recruitment.minimum_players
}

/// How many server roles a called-off recruitment gives back: one per
/// participant, and one per spectator when the server has a spectator role.
pub open spec fn roles_given_back(r: &Recruitment) -> nat {
    r.joined_ids@.len() + if r.spectator_role_id is Some { r.spectator_ids@.len() } else { 0 }
}

/// The notice of a called-off recruitment.
pub open spec fn cancel_notice(r: &Recruitment) -> Seq<char> {
    if roles_given_back(r) == 0 {
        "참가자 모집이 취소되었습니다."@
    } else {
        "참가자 모집이 취소되었습니다.\n모집 중 부여한 참가자/관전자 역할 "@ + dec(roles_given_back(r))
            + "건을 정리했습니다."@
    }
}

/// The notice of a called-off recruitment.
pub fn recruitment_cancel_notice(recruitment: &Recruitment) -> (s: String)
    requires
        recruitment.joined_ids@.len() + recruitment.spectator_ids@.len() <= usize::MAX,
    ensures
        s@ == cancel_notice(recruitment),
{
    broadcast use vstd::std_specs::hash::group_hash_axioms;
    let joined = recruitment.joined_ids.len();
    let spectators = if recruitment.spectator_role_id.is_some() { recruitment.spectator_ids.len() } else { 0 };
    let cleaned = joined + spectators;
    if cleaned == 0 {
        String::from_str("참가자 모집이 취소되었습니다.")
    } else {
        let mut s = String::from_str("참가자 모집이 취소되었습니다.\n모집 중 부여한 참가자/관전자 역할 ");
        push_dec(&mut s, cleaned as u64);
        s.append("건을 정리했습니다.");
        s
    }
}

/// The role counts the game engine deals from.
pub struct GameCounts {
    pub mafia_count: usize,
    pub doctor_count: usize,
    pub police_count: usize,
    pub agent_count: usize,
    pub vigilante_count: usize,
    pub inspector_count: usize,
    pub joker_count: usize,
    pub special_roles: Vec<Role>,
}

/// The special roles dealt in a game: one entry per seat, then the cult
/// pair when the cult team plays.
pub open spec fn dealt_specials(config: &BotConfig, specials: Seq<Role>) -> Seq<Role> {
    if config.enable_cult_team {
        expand(specials) + seq![Role::CultLeader, Role::Fanatic]
    } else {
        expand(specials)
    }
}

/// The counts handed to the game engine when a recruitment succeeds: the planned counts of the fixed roles, the
/// inspectors only when there are police slots, the base jokers only when
/// jokers are on, and the dealt special roles.
pub fn game_counts(config: &BotConfig, role_counts: &RoleMap<usize>, special_roles: &[Role]) -> (g: GameCounts)
    ensures
        g.mafia_count == count_of(role_counts@, Role::Mafia),
        g.doctor_count == count_of(role_counts@, Role::Doctor),
        g.police_count == count_of(role_counts@, Role::Police),
        g.agent_count == count_of(role_counts@, Role::Agent),
        g.vigilante_count == count_of(role_counts@, Role::Vigilante),
        g.inspector_count == if config.default_police_count > 0 { count_of(role_counts@, Role::Inspector) } else { 0 },
        g.joker_count == if config.enable_joker { config.default_joker_count as nat } else { 0 },
        g.special_roles@ == dealt_specials(config, special_roles@),
{
    let mut specials = expand_special_roles(special_roles);
    if config.enable_cult_team {
        specials.push(Role::CultLeader);
        specials.push(Role::Fanatic);
        assert(specials@ =~= expand(special_roles@) + seq![Role::CultLeader, Role::Fanatic]);
    }
    GameCounts {
        mafia_count: count_in(role_counts, Role::Mafia),
        doctor_count: count_in(role_counts, Role::Doctor),
        police_count: count_in(role_counts, Role::Police),
        agent_count: count_in(role_counts, Role::Agent),
        vigilante_count: count_in(role_counts, Role::Vigilante),
        inspector_count: if config.default_police_count > 0 { count_in(role_counts, Role::Inspector) } else { 0 },
        joker_count: if config.enable_joker { config.default_joker_count as usize } else { 0 },
        special_roles: specials,
    }
}

/// The announcement that a game starts: the number of players and the role line-up.
pub open spec fn start_notice(game: &MafiaGame) -> Seq<char> {
    "게임을 시작합니다. 참가자 "@ + dec(game.players@.len()) + "명에게 역할을 DM으로 보냅니다.\n"@ + role_line(game)
}

/// The announcement that a game starts.
pub fn start_announcement(game: &MafiaGame) -> (s: String)
    ensures
        s@ == start_notice(game),
{
    let mut s = String::from_str("게임을 시작합니다. 참가자 ");
    push_dec(&mut s, game.players.len() as u64);
    s.append("명에게 역할을 DM으로 보냅니다.\n");
    let line = public_role_count_text(game);
    s.append(line.as_str());
    s
}

} // verus!
