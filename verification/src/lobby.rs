//! The buttons of a recruitment: joining, spectating, setting the automatic
//! start, and closing it.  Each takes the recruitment and the press, gives the
//! reply, and changes the recruitment only when the press is accepted.
use vstd::prelude::*;
use crate::config::{BotConfig, is_blacklisted};
use crate::input::{parse_usize, usize_parse};
use crate::recruitment::{Recruitment, auto_start_due, auto_start_reached};
use crate::text::{dec, push_dec, trim, trimmed_chars};
use crate::channels::{keyed_set, keys, law_keyed_set_keeps_keys_distinct};

verus! {

broadcast use vstd::std_specs::hash::group_hash_axioms;

/// Stores `name` for `id`: the first entry for `id` takes the new name, or
/// an entry is added at the end when there is none.
pub fn set_name(entries: &mut Vec<(u64, String)>, id: u64, name: String)
    ensures
        final(entries)@ == keyed_set(old(entries)@, id, name),
{
    let ghost e = entries@;
    let mut i: usize = 0;
    assert(e.skip(0) =~= e);
    assert(e.take(0) + e.skip(0) =~= e);
    while i < entries.len()
        invariant
            entries@ == e,
            e == old(entries)@,
            i <= e.len(),
            keyed_set(e, id, name) == e.take(i as int) + keyed_set(e.skip(i as int), id, name),
        decreases e.len() - i,
    {
        if entries[i].0 == id {
            assert(e.skip(i as int)[0] == e[i as int]);
            assert(keyed_set(e.skip(i as int), id, name) == e.skip(i as int).update(0, (id, name)));
            assert(e.take(i as int) + e.skip(i as int).update(0, (id, name)) =~= e.update(i as int, (id, name)));
            entries.set(i, (id, name));
            return;
        }
        assert(e.skip(i as int).drop_first() =~= e.skip(i + 1));
        assert(e.take(i as int) + seq![e[i as int]] =~= e.take(i + 1));
        assert(e.take(i as int) + (seq![e[i as int]] + keyed_set(e.skip(i + 1), id, name))
            =~= e.take(i + 1) + keyed_set(e.skip(i + 1), id, name));
        i = i + 1;
    }
    assert(e.skip(i as int) =~= Seq::<(u64, String)>::empty());
    assert(e.take(i as int) =~= e);
    entries.push((id, name));
}

/// The name lists of a recruitment hold each user at most once.
pub open spec fn names_well_formed(r: &Recruitment) -> bool {
    &&& keys(r.joined_names@).no_duplicates()
    &&& keys(r.spectator_names@).no_duplicates()
}

/// The reply when the recruitment no longer takes presses.
pub open spec fn closed_reply() -> Seq<char> {
    "참가자 모집이 종료되었습니다."@
}

/// The reply to a press by someone other than the host.
pub open spec fn host_only_reply() -> Seq<char> {
    "게임을 모집한 주최자만 사용할 수 있습니다."@
}

/// Why a join press is refused, if it is.
pub open spec fn join_refusal(r: &Recruitment, blacklisted: bool, user_id: u64) -> Option<Seq<char>> {
    if !r.accepting {
        Some(closed_reply())
    } else if blacklisted {
        Some("블랙리스트에 등록된 유저는 참가할 수 없습니다."@)
    } else if r.joined_ids@.contains(user_id) {
        Some("이미 참가했습니다."@)
    } else if r.spectator_ids@.contains(user_id) {
        Some("이미 관전자로 등록되어 있습니다."@)
    } else if r.joined_ids@.len() >= r.max_players {
        Some("최대 참가 인원 "@ + dec(r.max_players as nat) + "명에 도달해 더 이상 참가할 수 없습니다."@)
    } else {
        None
    }
}

/// The reply to an accepted join press.
pub open spec fn joined_reply(auto_started: bool) -> Seq<char> {
    if auto_started { "참가 완료! 자동시작 인원이 모여 바로 시작합니다."@ } else { "참가 완료!"@ }
}

/// The join button: a user who is not barred, not yet
/// taking part and not spectating joins while there is room, under the
/// given display name; when that reaches the automatic start head count the
/// recruitment stops taking presses.  Gives the reply, and whether the game
/// starts now.
pub fn join_recruitment(rec: &mut Recruitment, config: &BotConfig, user_id: u64, name: String) -> (r: Result<(String, bool), String>)
    ensures
        match join_refusal(&*old(rec), config.blacklist_user_ids@.contains(user_id), user_id) {
            Some(e) => r matches Err(m) && m@ == e && *final(rec) == *old(rec),
            None => {
                &&& final(rec).joined_ids@ == old(rec).joined_ids@.insert(user_id)
                &&& final(rec).joined_names@ == keyed_set(old(rec).joined_names@, user_id, name)
                &&& final(rec).accepting == !auto_start_due(&*final(rec))
                &&& *final(rec) == (Recruitment {
                    joined_ids: final(rec).joined_ids,
                    joined_names: final(rec).joined_names,
                    accepting: final(rec).accepting,
                    ..*old(rec)
                })
                &&& r matches Ok((m, started)) && started == auto_start_due(&*final(rec))
                    && m@ == joined_reply(started)
            },
        },
        names_well_formed(&*old(rec)) ==> names_well_formed(&*final(rec)),
{
    proof {
        if names_well_formed(&*old(rec)) {
            law_keyed_set_keeps_keys_distinct(old(rec).joined_names@, user_id, name);
        }
    }
    if !rec.accepting {
        return Err(String::from_str("참가자 모집이 종료되었습니다."));
    }
    if is_blacklisted(config, user_id) {
        return Err(String::from_str("블랙리스트에 등록된 유저는 참가할 수 없습니다."));
    }
    if rec.joined_ids.contains(&user_id) {
        return Err(String::from_str("이미 참가했습니다."));
    }
    if rec.spectator_ids.contains(&user_id) {
        return Err(String::from_str("이미 관전자로 등록되어 있습니다."));
    }
    if rec.joined_ids.len() >= rec.max_players {
        let mut e = String::from_str("최대 참가 인원 ");
        push_dec(&mut e, rec.max_players as u64);
        e.append("명에 도달해 더 이상 참가할 수 없습니다.");
        return Err(e);
    }
    set_name(&mut rec.joined_names, user_id, name);
    rec.joined_ids.insert(user_id);
    let started = auto_start_reached(rec);
    if started {
        rec.accepting = false;
    }
    let reply = if started {
        String::from_str("참가 완료! 자동시작 인원이 모여 바로 시작합니다.")
    } else {
        String::from_str("참가 완료!")
    };
    Ok((reply, started))
}

/// Why a spectate press is refused, if it is.
pub open spec fn spectate_refusal(r: &Recruitment, user_id: u64) -> Option<Seq<char>> {
    if !r.accepting {
        Some(closed_reply())
    } else if r.joined_ids@.contains(user_id) {
        Some("이미 참가자로 등록되어 있습니다."@)
    } else if r.spectator_ids@.contains(user_id) {
        Some("이미 관전자로 등록되어 있습니다."@)
    } else {
        None
    }
}

/// The spectate button: a user who neither takes part
/// nor spectates yet becomes a spectator under the given display name.
/// Gives the reply.
pub fn spectate_recruitment(rec: &mut Recruitment, user_id: u64, name: String) -> (r: Result<String, String>)
    ensures
        match spectate_refusal(&*old(rec), user_id) {
            Some(e) => r matches Err(m) && m@ == e && *final(rec) == *old(rec),
            None => {
                &&& final(rec).spectator_ids@ == old(rec).spectator_ids@.insert(user_id)
                &&& final(rec).spectator_names@ == keyed_set(old(rec).spectator_names@, user_id, name)
                &&& *final(rec) == (Recruitment {
                    spectator_ids: final(rec).spectator_ids,
                    spectator_names: final(rec).spectator_names,
                    ..*old(rec)
                })
                &&& r matches Ok(m) && m@ == "관전 등록 완료!"@
            },
        },
        names_well_formed(&*old(rec)) ==> names_well_formed(&*final(rec)),
{
    proof {
        if names_well_formed(&*old(rec)) {
            law_keyed_set_keeps_keys_distinct(old(rec).spectator_names@, user_id, name);
        }
    }
    if !rec.accepting {
        return Err(String::from_str("참가자 모집이 종료되었습니다."));
    }
    if rec.joined_ids.contains(&user_id) {
        return Err(String::from_str("이미 참가자로 등록되어 있습니다."));
    }
    if rec.spectator_ids.contains(&user_id) {
        return Err(String::from_str("이미 관전자로 등록되어 있습니다."));
    }
    rec.spectator_ids.insert(user_id);
    set_name(&mut rec.spectator_names, user_id, name);
    Ok(String::from_str("관전 등록 완료!"))
}

/// Why the automatic-start button is refused, if it is: only the host may
/// use it, while the recruitment is open.
pub open spec fn auto_start_open_refusal(r: &Recruitment, user_id: u64) -> Option<Seq<char>> {
    if user_id != r.host_user_id {
        Some(host_only_reply())
    } else if !r.accepting {
        Some(closed_reply())
    } else {
        None
    }
}

/// Whether the automatic-start button may open its form.
pub fn auto_start_open_check(rec: &Recruitment, user_id: u64) -> (r: Option<&'static str>)
    ensures
        match r {
            Some(m) => auto_start_open_refusal(rec, user_id) == Some(m@),
            None => auto_start_open_refusal(rec, user_id) is None,
        },
{
    if user_id != rec.host_user_id {
        Some("게임을 모집한 주최자만 사용할 수 있습니다.")
    } else if !rec.accepting {
        Some("참가자 모집이 종료되었습니다.")
    } else {
        None
    }
}

/// Why a submitted automatic-start head count is refused, if it is.
pub open spec fn auto_start_refusal(r: &Recruitment, user_id: u64, raw: Seq<char>) -> Option<Seq<char>> {
    if user_id != r.host_user_id {
        Some(host_only_reply())
    } else if !r.accepting {
        Some(closed_reply())
    } else {
        match usize_parse(trim(raw)) {
            None => Some("인원은 "@ + dec(r.minimum_players as nat) + "~"@ + dec(r.max_players as nat)
                + " 사이의 숫자로 입력하세요."@),
            Some(count) => if count < r.minimum_players || count > r.max_players {
                Some("자동시작 인원은 최소 시작 인원 "@ + dec(r.minimum_players as nat) + "명 이상, 최대 참가 인원 "@
                    + dec(r.max_players as nat) + "명 이하여야 합니다."@)
            } else {
                None
            },
        }
    }
}

fn count_format_error(rec: &Recruitment) -> (e: String)
    ensures
        e@ == "인원은 "@ + dec(rec.minimum_players as nat) + "~"@ + dec(rec.max_players as nat)
            + " 사이의 숫자로 입력하세요."@,
{
    let mut e = String::from_str("인원은 ");
    push_dec(&mut e, rec.minimum_players as u64);
    e.append("~");
    push_dec(&mut e, rec.max_players as u64);
    e.append(" 사이의 숫자로 입력하세요.");
    e
}

/// The reply to an accepted automatic-start head count.
pub open spec fn auto_start_reply(r: &Recruitment, count: usize, reached: bool) -> Seq<char> {
    if reached {
        "이미 "@ + dec(r.joined_ids@.len()) + "명이 모여 있어 바로 시작합니다."@
    } else {
        "참가자가 "@ + dec(count as nat) + "명이 되면 즉시 시작합니다."@
    }
}

/// The automatic-start form: the host sets the
/// head count at which the game starts at once, between the smallest game
/// and the player limit; when it is already reached the recruitment stops
/// taking presses.  Gives the reply, and whether the game starts now.
pub fn submit_auto_start(rec: &mut Recruitment, user_id: u64, raw: &str) -> (r: Result<(String, bool), String>)
    ensures
        match auto_start_refusal(&*old(rec), user_id, raw@) {
            Some(e) => r matches Err(m) && m@ == e && *final(rec) == *old(rec),
            None => {
                let count = usize_parse(trim(raw@))->Some_0;
                &&& final(rec).auto_start_players == Some(count)
                &&& final(rec).accepting == !auto_start_due(&*final(rec))
                &&& *final(rec) == (Recruitment {
                    auto_start_players: Some(count),
                    accepting: final(rec).accepting,
                    ..*old(rec)
                })
                &&& r matches Ok((m, started)) && started == auto_start_due(&*final(rec))
                    && m@ == auto_start_reply(&*final(rec), count, started)
            },
        },
{
    if user_id != rec.host_user_id {
        return Err(String::from_str("게임을 모집한 주최자만 사용할 수 있습니다."));
    }
    if !rec.accepting {
        return Err(String::from_str("참가자 모집이 종료되었습니다."));
    }
    let digits = trimmed_chars(raw);
    let count: usize = match parse_usize(&digits) {
        Some(v) => v,
        None => {
            return Err(count_format_error(rec));
        },
    };
    if count < rec.minimum_players || count > rec.max_players {
        let mut e = String::from_str("자동시작 인원은 최소 시작 인원 ");
        push_dec(&mut e, rec.minimum_players as u64);
        e.append("명 이상, 최대 참가 인원 ");
        push_dec(&mut e, rec.max_players as u64);
        e.append("명 이하여야 합니다.");
        return Err(e);
    }
    rec.auto_start_players = Some(count);
    let started = auto_start_reached(rec);
    if started {
        rec.accepting = false;
    }
    let mut m = String::new();
    if started {
        m.append("이미 ");
        push_dec(&mut m, rec.joined_ids.len() as u64);
        m.append("명이 모여 있어 바로 시작합니다.");
    } else {
        m.append("참가자가 ");
        push_dec(&mut m, count as u64);
        m.append("명이 되면 즉시 시작합니다.");
    }
    Ok((m, started))
}

/// Why the start or cancel button is refused, if it is: only the host may
/// use it, and a start needs the smallest game's head count.
pub open spec fn finish_refusal(r: &Recruitment, user_id: u64, cancelled: bool) -> Option<Seq<char>> {
    if user_id != r.host_user_id {
        Some(host_only_reply())
    } else if !cancelled && r.joined_ids@.len() < r.minimum_players {
        Some("아직 시작할 수 없습니다. 최소 "@ + dec(r.minimum_players as nat) + "명이 필요합니다. 현재 "@
            + dec(r.joined_ids@.len()) + "명입니다."@)
    } else {
        None
    }
}

/// The start and cancel buttons: the host
/// closes the recruitment, starting the game or calling it off.
pub fn finish_recruitment(rec: &mut Recruitment, user_id: u64, cancelled: bool) -> (r: Result<(), String>)
    ensures
        match finish_refusal(&*old(rec), user_id, cancelled) {
            Some(e) => r matches Err(m) && m@ == e && *final(rec) == *old(rec),
            None => r is Ok && *final(rec) == (Recruitment { cancelled: cancelled, accepting: false, ..*old(rec) }),
        },
{
    if user_id != rec.host_user_id {
        return Err(String::from_str("게임을 모집한 주최자만 사용할 수 있습니다."));
    }
    if !cancelled && rec.joined_ids.len() < rec.minimum_players {
        let mut e = String::from_str("아직 시작할 수 없습니다. 최소 ");
        push_dec(&mut e, rec.minimum_players as u64);
        e.append("명이 필요합니다. 현재 ");
        push_dec(&mut e, rec.joined_ids.len() as u64);
        e.append("명입니다.");
        return Err(e);
    }
    rec.cancelled = cancelled;
    rec.accepting = false;
    Ok(())
}

/// Storing a name for a user makes it the name found for that user and
/// leaves the names of everyone else as they were.
pub proof fn law_stored_name_is_found(entries: Seq<(u64, String)>, id: u64, name: String)
    ensures
        crate::running::name_for(keyed_set(entries, id, name), id) == Some(name@),
        forall|other: u64| other != id ==> crate::running::name_for(keyed_set(entries, id, name), other)
            == crate::running::name_for(entries, other),
    decreases entries.len(),
{
    if entries.len() == 0 {
        let k = keyed_set(entries, id, name);
        assert(k.drop_first() =~= entries);
        assert forall|other: u64| other != id implies crate::running::name_for(k, other)
            == crate::running::name_for(entries, other) by {
            assert(k[0].0 == id);
        }
    } else {
        law_stored_name_is_found(entries.drop_first(), id, name);
        let k = keyed_set(entries, id, name);
        if entries[0].0 != id {
            assert(k.drop_first() =~= keyed_set(entries.drop_first(), id, name));
        } else {
            assert(k.drop_first() =~= entries.drop_first());
        }
        assert forall|other: u64| other != id implies crate::running::name_for(k, other)
            == crate::running::name_for(entries, other) by {
            assert(k[0].0 == entries[0].0);
            assert(crate::running::name_for(keyed_set(entries.drop_first(), id, name), other)
                == crate::running::name_for(entries.drop_first(), other));
        }
    }
}

/// A join that is let through never takes the participants past the player
/// limit: it adds one new participant to fewer than the limit.
pub proof fn law_join_respects_player_limit(before: &Recruitment, blacklisted: bool, user_id: u64)
    requires
        before.joined_ids@.finite(),
    ensures
        join_refusal(before, blacklisted, user_id) is None ==> {
            &&& before.joined_ids@.insert(user_id).len() == before.joined_ids@.len() + 1
            &&& before.joined_ids@.insert(user_id).len() <= before.max_players
        },
{
}

} // verus!
