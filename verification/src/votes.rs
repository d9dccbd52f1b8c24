//! The anonymous summary of a vote: how many votes each choice received.
use vstd::prelude::*;
use crate::game::{MafiaGame, player_with_id};
use crate::sort::{order_by, key_views, sort_positions};
use crate::text::{dec, join, views, text_lt, lowercase, to_lower, chars_of, text_less, push_dec, join_strings, u64_text};

verus! {

/// The votes of one vote: each target (`None` for a skip) with its number of votes.
pub struct VoteResult {
    pub vote_counts: Vec<(Option<u64>, usize)>,
}

/// How a vote target is named: "스킵" for a skip, the player's name, or the
/// id when no player has it.
pub open spec fn target_name(game: &MafiaGame, target: Option<u64>) -> Seq<char> {
    match target {
        None => "스킵"@,
        Some(id) => match player_with_id(game.players@, id) {
            Some(p) => p.name@,
            None => dec(id as nat),
        },
    }
}

/// Row `a` comes before row `b`: more votes first, then names in
/// lower-case order.
pub open spec fn vote_before(counts: Seq<usize>, names: Seq<Seq<char>>) -> spec_fn(usize, usize) -> bool {
    |a: usize, b: usize| counts[a as int] > counts[b as int]
        || (counts[a as int] == counts[b as int] && text_lt(names[a as int], names[b as int]))
}

/// The summary of a vote: one "- name: N표" line per choice, most votes
/// first, or "투표 없음" when nobody voted.
pub open spec fn vote_summary(game: &MafiaGame, votes: Seq<(Option<u64>, usize)>) -> Seq<char> {
    if votes.len() == 0 {
        "투표 없음"@
    } else {
        let names = votes.map_values(|v: (Option<u64>, usize)| target_name(game, v.0));
        let counts = votes.map_values(|v: (Option<u64>, usize)| v.1);
        let lowered = names.map_values(|n: Seq<char>| lowercase(n));
        join(
            order_by(votes.len(), vote_before(counts, lowered)).map_values(
                |i: usize| "- "@ + names[i as int] + ": "@ + dec(counts[i as int] as nat) + "표"@,
            ),
            "\n"@,
        )
    }
}

fn target_name_text(game: &MafiaGame, target: Option<u64>) -> (s: String)
    ensures
        s@ == target_name(game, target),
{
    match target {
        None => String::from_str("스킵"),
        Some(id) => match game.get_player(id) {
            Some(p) => p.name,
            None => u64_text(id),
        },
    }
}

/// The rows in vote order: more votes first, then names, equal rows in list order.
fn vote_order(counts: &Vec<usize>, names: &Vec<Vec<char>>) -> (order: Vec<usize>)
    requires
        counts@.len() == names@.len(),
    ensures
        order@ == order_by(counts@.len(), vote_before(counts@, key_views(names@))),
        order@.len() == counts@.len(),
        forall|k: int| 0 <= k < order@.len() ==> (#[trigger] order@[k]) < counts@.len(),
{
    let ghost kv = key_views(names@);
    let n = counts.len();
    let goes_before = |a: usize, b: usize| -> (r: bool)
        requires
            a < counts@.len(),
            b < counts@.len(),
            counts@.len() == names@.len(),
        ensures
            r == (counts@[a as int] > counts@[b as int] || (counts@[a as int] == counts@[b as int]
                && text_lt(names@[a as int]@, names@[b as int]@))),
    {
        counts[a] > counts[b] || (counts[a] == counts[b] && text_less(&names[a], &names[b]))
    };
    proof {
        assert forall|a: usize, b: usize, r: bool| a < n && b < n && #[trigger] goes_before.ensures((a, b), r)
            implies r == vote_before(counts@, kv)(a, b) by {
            assert(kv[a as int] == names@[a as int]@ && kv[b as int] == names@[b as int]@);
        }
    }
    sort_positions(n, &goes_before, Ghost(vote_before(counts@, kv)))
}

/// The anonymous summary of a vote (`anonymous_vote_summary`).
pub fn anonymous_vote_summary(game: &MafiaGame, result: &VoteResult) -> (s: String)
    ensures
        s@ == vote_summary(game, result.vote_counts@),
{
    let votes = &result.vote_counts;
    let n = votes.len();
    if n == 0 {
        return String::from_str("투표 없음");
    }
    let ghost names_spec = votes@.map_values(|v: (Option<u64>, usize)| target_name(game, v.0));
    let ghost counts_spec = votes@.map_values(|v: (Option<u64>, usize)| v.1);
    let ghost lowered_spec = names_spec.map_values(|x: Seq<char>| lowercase(x));
    let mut names: Vec<String> = Vec::new();
    let mut counts: Vec<usize> = Vec::new();
    let mut keys: Vec<Vec<char>> = Vec::new();
    let mut i: usize = 0;
    while i < n
        invariant
            n == votes@.len(),
            i <= n,
            names_spec == votes@.map_values(|v: (Option<u64>, usize)| target_name(game, v.0)),
            names@.len() == i,
            counts@.len() == i,
            keys@.len() == i,
            forall|k: int| 0 <= k < i ==> (#[trigger] names@[k])@ == names_spec[k],
            forall|k: int| 0 <= k < i ==> (#[trigger] counts@[k]) == votes@[k].1,
            forall|k: int| 0 <= k < i ==> (#[trigger] keys@[k])@ == lowercase(names_spec[k]),
        decreases n - i,
    {
        let (target, count) = votes[i];
        let name = target_name_text(game, target);
        let lower = to_lower(name.as_str());
        keys.push(chars_of(lower.as_str()));
        names.push(name);
        counts.push(count);
        i = i + 1;
    }
    assert(counts@ =~= counts_spec);
    assert(key_views(keys@) =~= lowered_spec);
    let order = vote_order(&counts, &keys);
    let ghost lines_spec = order_by(n as nat, vote_before(counts_spec, lowered_spec)).map_values(
        |i: usize| "- "@ + names_spec[i as int] + ": "@ + dec(counts_spec[i as int] as nat) + "표"@,
    );
    let mut lines: Vec<String> = Vec::new();
    let mut k: usize = 0;
    while k < n
        invariant
            n == order@.len(),
            n == names@.len(),
            n == counts@.len(),
            counts@ == counts_spec,
            forall|j: int| 0 <= j < n ==> (#[trigger] order@[j]) < n,
            forall|j: int| 0 <= j < n ==> (#[trigger] names@[j])@ == names_spec[j],
            order@ == order_by(n as nat, vote_before(counts_spec, lowered_spec)),
            lines_spec == order_by(n as nat, vote_before(counts_spec, lowered_spec)).map_values(
                |i: usize| "- "@ + names_spec[i as int] + ": "@ + dec(counts_spec[i as int] as nat) + "표"@,
            ),
            k <= n,
            lines@.len() == k,
            forall|j: int| 0 <= j < k ==> (#[trigger] lines@[j])@ == lines_spec[j],
        decreases n - k,
    {
        let idx = order[k];
        let mut line = String::from_str("- ");
        line.append(names[idx].as_str());
        line.append(": ");
        push_dec(&mut line, counts[idx] as u64);
        line.append("표");
        lines.push(line);
        k = k + 1;
    }
    assert(views(lines@) =~= lines_spec);
    join_strings(&lines, "\n")
}

} // verus!
