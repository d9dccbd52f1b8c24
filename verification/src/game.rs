//! The state of a running game that the bot's channel logic reads: players,
//! phase, and the team and status facts that the game engine determines.
use vstd::prelude::*;
use crate::role::Role;

verus! {

/// The phases of a game.
#[derive(Clone, Copy, Debug, PartialEq, Eq, Structural, Hash)]
pub enum Phase {
    Night,
    Day,
    Vote,
    FinalDefense,
    Confirmation,
    Ended,
}

impl Phase {
    /// Display name of the phase.
    pub open spec fn name_spec(self) -> Seq<char> {
        match self {
            Phase::Night => "밤"@,
            Phase::Day => "낮"@,
            Phase::Vote => "투표"@,
            Phase::FinalDefense => "최후변론"@,
            Phase::Confirmation => "찬반투표"@,
            Phase::Ended => "종료"@,
        }
    }

    /// Display name of the phase (`Phase::value`).
    pub fn value(self) -> (s: &'static str)
        ensures
            s@ == self.name_spec(),
    {
        match self {
            Phase::Night => "밤",
            Phase::Day => "낮",
            Phase::Vote => "투표",
            Phase::FinalDefense => "최후변론",
            Phase::Confirmation => "찬반투표",
            Phase::Ended => "종료",
        }
    }
}

/// A player of a game.
#[derive(Debug)]
pub struct Player {
    pub user_id: u64,
    pub name: String,
    pub role: Role,
    pub alive: bool,
}

impl Player {
    /// A living player.
    pub fn new(user_id: u64, name: String, role: Role) -> (p: Player)
        ensures
            p.user_id == user_id,
            p.name == name,
            p.role == role,
            p.alive,
    {
        Player { user_id, name, role, alive: true }
    }

    /// A copy of the player.
    pub fn duplicate(&self) -> (p: Player)
        ensures
            p == *self,
    {
        Player { user_id: self.user_id, name: self.name.clone(), role: self.role, alive: self.alive }
    }
}

/// A running game.  Team membership and the frog and seduction curses are
/// decided by the game engine and kept here as lists of user ids.
pub struct MafiaGame {
    pub players: Vec<Player>,
    pub phase: Phase,
    pub day_number: u32,
    pub frog_user_ids: Vec<u64>,
    pub madam_seduced_ids: Vec<u64>,
    pub cult_team_ids: Vec<u64>,
    pub mafia_team_ids: Vec<u64>,
    pub known_mafia_team_ids: Vec<u64>,
    pub lover_chat_open: bool,
}

/// Whether `ids` holds `x`.
pub fn has_id(ids: &Vec<u64>, x: u64) -> (b: bool)
    ensures
        b == ids@.contains(x),
{
    let mut i: usize = 0;
    while i < ids.len()
        invariant
            i <= ids@.len(),
            forall|k: int| 0 <= k < i ==> ids@[k] != x,
        decreases ids@.len() - i,
    {
        if ids[i] == x {
            return true;
        }
        i = i + 1;
    }
    false
}

/// The first player with the given id.
pub open spec fn player_with_id(players: Seq<Player>, id: u64) -> Option<Player>
    decreases players.len(),
{
    if players.len() == 0 {
        None
    } else if players[0].user_id == id {
        Some(players[0])
    } else {
        player_with_id(players.drop_first(), id)
    }
}

impl MafiaGame {
    /// A game with the given players; teams follow the roles (the mafia side
    /// knows each other, the cult roles form the cult team).
    pub fn with_players(players: Vec<Player>, phase: Phase, day_number: u32) -> (g: MafiaGame)
        ensures
            g.players@ == players@,
            g.phase == phase,
            g.day_number == day_number,
            g.frog_user_ids@.len() == 0,
            g.madam_seduced_ids@.len() == 0,
            forall|id: u64| g.cult_team_ids@.contains(id) <==> exists|i: int| 0 <= i < players@.len()
                && players@[i].user_id == id && (#[trigger] players@[i].role).cult_spec(),
            forall|id: u64| g.mafia_team_ids@.contains(id) <==> exists|i: int| 0 <= i < players@.len()
                && players@[i].user_id == id && (#[trigger] players@[i].role).mafia_team_spec(),
            g.known_mafia_team_ids@ == g.mafia_team_ids@,
            !g.lover_chat_open,
    {
        let mut cult: Vec<u64> = Vec::new();
        let mut mafia: Vec<u64> = Vec::new();
        let mut i: usize = 0;
        while i < players.len()
            invariant
                i <= players@.len(),
                forall|id: u64| cult@.contains(id) <==> exists|k: int| 0 <= k < i
                    && players@[k].user_id == id && (#[trigger] players@[k].role).cult_spec(),
                forall|id: u64| mafia@.contains(id) <==> exists|k: int| 0 <= k < i
                    && players@[k].user_id == id && (#[trigger] players@[k].role).mafia_team_spec(),
            decreases players@.len() - i,
        {
            let id = players[i].user_id;
            let role = players[i].role;
            let ghost c0 = cult@;
            let ghost m0 = mafia@;
            if role.is_cult_role() {
                cult.push(id);
            }
            if role.is_mafia_team() {
                mafia.push(id);
            }
            proof {
                assert forall|x: u64| cult@.contains(x) <==> exists|k: int| 0 <= k < i + 1
                    && players@[k].user_id == x && (#[trigger] players@[k].role).cult_spec() by {
                    if cult@.contains(x) && !c0.contains(x) {
                        assert(players@[i as int].user_id == x && players@[i as int].role.cult_spec());
                    }
                    if c0.contains(x) {
                        assert(cult@.contains(x)) by {
                            let j = choose|j: int| 0 <= j < c0.len() && c0[j] == x;
                            assert(cult@[j] == x);
                        }
                    }
                    if exists|k: int| 0 <= k < i + 1 && players@[k].user_id == x && (#[trigger] players@[k].role).cult_spec() {
                        let k = choose|k: int| 0 <= k < i + 1 && players@[k].user_id == x && (#[trigger] players@[k].role).cult_spec();
                        if k == i {
                            assert(cult@.last() == x);
                        }
                    }
                }
                assert forall|x: u64| mafia@.contains(x) <==> exists|k: int| 0 <= k < i + 1
                    && players@[k].user_id == x && (#[trigger] players@[k].role).mafia_team_spec() by {
                    if mafia@.contains(x) && !m0.contains(x) {
                        assert(players@[i as int].user_id == x && players@[i as int].role.mafia_team_spec());
                    }
                    if m0.contains(x) {
                        assert(mafia@.contains(x)) by {
                            let j = choose|j: int| 0 <= j < m0.len() && m0[j] == x;
                            assert(mafia@[j] == x);
                        }
                    }
                    if exists|k: int| 0 <= k < i + 1 && players@[k].user_id == x && (#[trigger] players@[k].role).mafia_team_spec() {
                        let k = choose|k: int| 0 <= k < i + 1 && players@[k].user_id == x && (#[trigger] players@[k].role).mafia_team_spec();
                        if k == i {
                            assert(mafia@.last() == x);
                        }
                    }
                }
            }
            i = i + 1;
        }
        let known = mafia.clone();
        MafiaGame {
            players,
            phase,
            day_number,
            frog_user_ids: Vec::new(),
            madam_seduced_ids: Vec::new(),
            cult_team_ids: cult,
            mafia_team_ids: mafia,
            known_mafia_team_ids: known,
            lover_chat_open: false,
        }
    }

    /// The first player with the given id (`get_player`).
    pub fn get_player(&self, id: u64) -> (r: Option<Player>)
        ensures
            r == player_with_id(self.players@, id),
    {
        let players = &self.players;
        let mut i: usize = 0;
        assert(players@.skip(0) =~= players@);
        while i < players.len()
            invariant
                i <= players@.len(),
                players@ == self.players@,
                player_with_id(players@, id) == player_with_id(players@.skip(i as int), id),
            decreases players@.len() - i,
        {
            assert(players@.skip(i as int).drop_first() =~= players@.skip(i as int + 1));
            assert(players@.skip(i as int)[0] == players@[i as int]);
            if players[i].user_id == id {
                let p = players[i].duplicate();
                assert(p == players@[i as int]);
                return Some(p);
            }
            i = i + 1;
        }
        None
    }

    /// The player turned into a frog.
    pub fn is_frog(&self, user_id: u64) -> (b: bool)
        ensures
            b == self.frog_user_ids@.contains(user_id),
    {
        has_id(&self.frog_user_ids, user_id)
    }

    /// The player seduced by the madam.
    pub fn is_madam_seduced(&self, user_id: u64) -> (b: bool)
        ensures
            b == self.madam_seduced_ids@.contains(user_id),
    {
        has_id(&self.madam_seduced_ids, user_id)
    }

    /// The player is on the cult team.
    pub fn is_cult_team(&self, user_id: u64) -> (b: bool)
        ensures
            b == self.cult_team_ids@.contains(user_id),
    {
        has_id(&self.cult_team_ids, user_id)
    }

    /// The player is on the mafia team.
    pub fn is_mafia_team(&self, user_id: u64) -> (b: bool)
        ensures
            b == self.mafia_team_ids@.contains(user_id),
    {
        has_id(&self.mafia_team_ids, user_id)
    }

    /// The player is a mafia-team member that the mafia knows.
    pub fn is_known_mafia_team(&self, user_id: u64) -> (b: bool)
        ensures
            b == self.known_mafia_team_ids@.contains(user_id),
    {
        has_id(&self.known_mafia_team_ids, user_id)
    }
}

} // verus!
