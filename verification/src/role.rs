//! The roles of the game, their display names, teams and special-role pools.
use vstd::prelude::*;

verus! {

/// A role a player can hold.
#[derive(Clone, Copy, Debug, PartialEq, Eq, Structural, Hash)]
pub enum Role {
    Citizen,
    Mafia,
    Doctor,
    Police,
    Agent,
    Vigilante,
    Inspector,
    Detective,
    Shaman,
    Graverobber,
    Spy,
    Contractor,
    Fraudster,
    Thief,
    Witch,
    Scientist,
    Madam,
    Godfather,
    Joker,
    Politician,
    Judge,
    Reporter,
    Hacker,
    Terrorist,
    Lover,
    CivilServant,
    Paparazzi,
    Priest,
    Soldier,
    Nurse,
    Gangster,
    Prophet,
    Psychologist,
    Hypnotist,
    Mercenary,
    CultLeader,
    Fanatic,
}

impl Role {
    /// The Korean display name of the role.
    pub open spec fn name_spec(self) -> Seq<char> {
        match self {
            Role::Citizen => "시민"@,
            Role::Mafia => "마피아"@,
            Role::Doctor => "의사"@,
            Role::Police => "경찰"@,
            Role::Agent => "요원"@,
            Role::Vigilante => "자경단원"@,
            Role::Inspector => "형사"@,
            Role::Detective => "사립탐정"@,
            Role::Shaman => "영매"@,
            Role::Graverobber => "도굴꾼"@,
            Role::Spy => "스파이"@,
            Role::Contractor => "청부업자"@,
            Role::Fraudster => "사기꾼"@,
            Role::Thief => "도둑"@,
            Role::Witch => "마녀"@,
            Role::Scientist => "과학자"@,
            Role::Madam => "마담"@,
            Role::Godfather => "대부"@,
            Role::Joker => "조커"@,
            Role::Politician => "정치인"@,
            Role::Judge => "판사"@,
            Role::Reporter => "기자"@,
            Role::Hacker => "해커"@,
            Role::Terrorist => "테러리스트"@,
            Role::Lover => "연인"@,
            Role::CivilServant => "공무원"@,
            Role::Paparazzi => "파파라치"@,
            Role::Priest => "성직자"@,
            Role::Soldier => "군인"@,
            Role::Nurse => "간호사"@,
            Role::Gangster => "건달"@,
            Role::Prophet => "예언자"@,
            Role::Psychologist => "심리학자"@,
            Role::Hypnotist => "최면술사"@,
            Role::Mercenary => "용병"@,
            Role::CultLeader => "교주"@,
            Role::Fanatic => "광신도"@,
        }
    }

    /// The display name of the role (`Role::value`).
    pub fn value(self) -> (s: &'static str)
        ensures
            s@ == self.name_spec(),
    {
        match self {
            Role::Citizen => "시민",
            Role::Mafia => "마피아",
            Role::Doctor => "의사",
            Role::Police => "경찰",
            Role::Agent => "요원",
            Role::Vigilante => "자경단원",
            Role::Inspector => "형사",
            Role::Detective => "사립탐정",
            Role::Shaman => "영매",
            Role::Graverobber => "도굴꾼",
            Role::Spy => "스파이",
            Role::Contractor => "청부업자",
            Role::Fraudster => "사기꾼",
            Role::Thief => "도둑",
            Role::Witch => "마녀",
            Role::Scientist => "과학자",
            Role::Madam => "마담",
            Role::Godfather => "대부",
            Role::Joker => "조커",
            Role::Politician => "정치인",
            Role::Judge => "판사",
            Role::Reporter => "기자",
            Role::Hacker => "해커",
            Role::Terrorist => "테러리스트",
            Role::Lover => "연인",
            Role::CivilServant => "공무원",
            Role::Paparazzi => "파파라치",
            Role::Priest => "성직자",
            Role::Soldier => "군인",
            Role::Nurse => "간호사",
            Role::Gangster => "건달",
            Role::Prophet => "예언자",
            Role::Psychologist => "심리학자",
            Role::Hypnotist => "최면술사",
            Role::Mercenary => "용병",
            Role::CultLeader => "교주",
            Role::Fanatic => "광신도",
        }
    }

    /// Roles that play on the mafia side from the start.
    pub open spec fn mafia_team_spec(self) -> bool {
        self == Role::Mafia || self == Role::Spy || self == Role::Contractor || self == Role::Fraudster || self == Role::Thief || self == Role::Witch || self == Role::Scientist || self == Role::Madam || self == Role::Godfather
    }

    /// Whether the role plays on the mafia side.
    pub fn is_mafia_team(self) -> (b: bool)
        ensures
            b == self.mafia_team_spec(),
    {
        match self {
            Role::Mafia | Role::Spy | Role::Contractor | Role::Fraudster | Role::Thief | Role::Witch | Role::Scientist | Role::Madam | Role::Godfather => true,
            _ => false,
        }
    }

    /// The investigation roles: one of them fills the police slots.
    pub open spec fn investigation_spec(self) -> bool {
        self == Role::Police || self == Role::Agent || self == Role::Vigilante
            || self == Role::Inspector
    }

    /// Whether the role is an investigation role.
    pub fn is_investigation_role(self) -> (b: bool)
        ensures
            b == self.investigation_spec(),
    {
        match self {
            Role::Police | Role::Agent | Role::Vigilante | Role::Inspector => true,
            _ => false,
        }
    }

    /// Roles of the cult team.
    pub open spec fn cult_spec(self) -> bool {
        self == Role::CultLeader || self == Role::Fanatic
    }

    /// Whether the role belongs to the cult team.
    pub fn is_cult_role(self) -> (b: bool)
        ensures
            b == self.cult_spec(),
    {
        match self {
            Role::CultLeader | Role::Fanatic => true,
            _ => false,
        }
    }
}

/// Special roles drawn for the citizen side.
pub open spec fn citizen_special_pool() -> Seq<Role> {
    seq![Role::Detective, Role::Shaman, Role::Graverobber, Role::Politician, Role::Judge, Role::Reporter, Role::Hacker, Role::Inspector, Role::Terrorist, Role::Lover, Role::CivilServant, Role::Paparazzi, Role::Priest, Role::Soldier, Role::Nurse, Role::Gangster, Role::Prophet, Role::Psychologist, Role::Hypnotist, Role::Mercenary]
}

/// Special roles drawn for the mafia side.
pub open spec fn mafia_special_pool() -> Seq<Role> {
    seq![Role::Spy, Role::Contractor, Role::Fraudster, Role::Thief, Role::Witch, Role::Scientist, Role::Madam, Role::Godfather]
}

/// Special roles drawn as neutrals.
pub open spec fn neutral_special_pool() -> Seq<Role> {
    seq![Role::Joker]
}

/// Citizen specials counted as "special citizens" in the public role summary.
/// Investigation roles are counted apart, so the inspector is not listed.
pub open spec fn public_citizen_special_pool() -> Seq<Role> {
    seq![Role::Detective, Role::Shaman, Role::Graverobber, Role::Politician, Role::Judge, Role::Reporter, Role::Hacker, Role::Terrorist, Role::Lover, Role::CivilServant, Role::Paparazzi, Role::Priest, Role::Soldier, Role::Nurse, Role::Gangster, Role::Prophet, Role::Psychologist, Role::Hypnotist, Role::Mercenary]
}

/// Mafia specials counted in the public role summary.
pub open spec fn public_mafia_special_pool() -> Seq<Role> {
    mafia_special_pool()
}

/// Neutral specials counted in the public role summary.
pub open spec fn public_neutral_special_pool() -> Seq<Role> {
    neutral_special_pool()
}

/// Cult roles counted in the public role summary.
pub open spec fn public_cult_special_pool() -> Seq<Role> {
    seq![Role::CultLeader, Role::Fanatic]
}

/// The citizen special roles, in draw order.
pub fn citizen_special_roles() -> (v: Vec<Role>)
    ensures
        v@ == citizen_special_pool(),
{
    let v = vec![Role::Detective, Role::Shaman, Role::Graverobber, Role::Politician, Role::Judge, Role::Reporter, Role::Hacker, Role::Inspector, Role::Terrorist, Role::Lover, Role::CivilServant, Role::Paparazzi, Role::Priest, Role::Soldier, Role::Nurse, Role::Gangster, Role::Prophet, Role::Psychologist, Role::Hypnotist, Role::Mercenary];
    assert(v@ =~= citizen_special_pool());
    v
}

/// The mafia special roles, in draw order.
pub fn mafia_special_roles() -> (v: Vec<Role>)
    ensures
        v@ == mafia_special_pool(),
{
    let v = vec![Role::Spy, Role::Contractor, Role::Fraudster, Role::Thief, Role::Witch, Role::Scientist, Role::Madam, Role::Godfather];
    assert(v@ =~= mafia_special_pool());
    v
}

/// The neutral special roles, in draw order.
pub fn neutral_special_roles() -> (v: Vec<Role>)
    ensures
        v@ == neutral_special_pool(),
{
    let v = vec![Role::Joker];
    assert(v@ =~= neutral_special_pool());
    v
}

/// The citizen special roles shown by name in public counts.
pub fn public_citizen_special_roles() -> (v: Vec<Role>)
    ensures
        v@ == public_citizen_special_pool(),
{
    let v = vec![Role::Detective, Role::Shaman, Role::Graverobber, Role::Politician, Role::Judge, Role::Reporter, Role::Hacker, Role::Terrorist, Role::Lover, Role::CivilServant, Role::Paparazzi, Role::Priest, Role::Soldier, Role::Nurse, Role::Gangster, Role::Prophet, Role::Psychologist, Role::Hypnotist, Role::Mercenary];
    assert(v@ =~= public_citizen_special_pool());
    v
}

/// The cult roles shown by name in public counts.
pub fn public_cult_special_roles() -> (v: Vec<Role>)
    ensures
        v@ == public_cult_special_pool(),
{
    let v = vec![Role::CultLeader, Role::Fanatic];
    assert(v@ =~= public_cult_special_pool());
    v
}

} // verus!
