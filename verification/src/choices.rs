//! The choices offered by the administration and stock commands.
use vstd::prelude::*;

verus! {

/// What a manager does to a member's coins.
#[derive(Clone, Copy, Debug, PartialEq, Eq, Structural)]
pub enum CoinAdminAction {
    Give,
    Take,
    Assign,
    View,
}

impl CoinAdminAction {
    /// The name shown for the choice.
    pub fn name(self) -> (s: &'static str)
        ensures
            s@ == match self {
                CoinAdminAction::Give => "지급"@,
                CoinAdminAction::Take => "차감"@,
                CoinAdminAction::Assign => "설정"@,
                CoinAdminAction::View => "조회"@,
            },
    {
        match self {
            CoinAdminAction::Give => "지급",
            CoinAdminAction::Take => "차감",
            CoinAdminAction::Assign => "설정",
            CoinAdminAction::View => "조회",
        }
    }
}

/// Whether a manager puts coins into a fund or takes them out.
#[derive(Clone, Copy, Debug, PartialEq, Eq, Structural)]
pub enum TreasuryAdminAction {
    Deposit,
    Withdraw,
}

impl TreasuryAdminAction {
    /// The name shown for the choice.
    pub fn name(self) -> (s: &'static str)
        ensures
            s@ == match self {
                TreasuryAdminAction::Deposit => "넣기"@,
                TreasuryAdminAction::Withdraw => "빼기"@,
            },
    {
        match self {
            TreasuryAdminAction::Deposit => "넣기",
            TreasuryAdminAction::Withdraw => "빼기",
        }
    }
}

/// The fund a treasury command works on.
#[derive(Clone, Copy, Debug, PartialEq, Eq, Structural)]
pub enum TreasuryTarget {
    Treasury,
    Jackpot,
}

impl TreasuryTarget {
    /// The name shown for the choice.
    pub fn name(self) -> (s: &'static str)
        ensures
            s@ == match self {
                TreasuryTarget::Treasury => "금고"@,
                TreasuryTarget::Jackpot => "잭팟"@,
            },
    {
        match self {
            TreasuryTarget::Treasury => "금고",
            TreasuryTarget::Jackpot => "잭팟",
        }
    }

    /// How the fund is named in the command's report.
    pub fn label(self) -> (s: &'static str)
        ensures
            s@ == match self {
                TreasuryTarget::Treasury => "복지 금고"@,
                TreasuryTarget::Jackpot => "잭팟"@,
            },
    {
        match self {
            TreasuryTarget::Treasury => "복지 금고",
            TreasuryTarget::Jackpot => "잭팟",
        }
    }
}

/// The change a treasury command makes: the amount in for a deposit, out for
/// a withdrawal; amounts below one are refused.
pub open spec fn treasury_change(action: TreasuryAdminAction, amount: i64) -> Result<int, Seq<char>> {
    if amount <= 0 {
        Err("금액은 1원 이상이어야 합니다."@)
    } else {
        match action {
            TreasuryAdminAction::Deposit => Ok(amount as int),
            TreasuryAdminAction::Withdraw => Ok(-amount),
        }
    }
}

/// The change a treasury command makes.
pub fn treasury_delta(action: TreasuryAdminAction, amount: i64) -> (r: Result<i64, String>)
    ensures
        match (r, treasury_change(action, amount)) {
            (Ok(a), Ok(b)) => a as int == b,
            (Err(e), Err(f)) => e@ == f,
            _ => false,
        },
{
    if amount <= 0 {
        return Err(String::from_str("금액은 1원 이상이어야 합니다."));
    }
    match action {
        TreasuryAdminAction::Deposit => Ok(amount),
        TreasuryAdminAction::Withdraw => Ok(-amount),
    }
}

/// The span a stock chart covers.
#[derive(Clone, Copy, Debug, PartialEq, Eq, Structural)]
pub enum ChartRange {
    Minute,
    Day,
}

impl ChartRange {
    /// The name shown for the choice.
    pub fn name(self) -> (s: &'static str)
        ensures
            s@ == match self {
                ChartRange::Minute => "분봉 (최근 2시간)"@,
                ChartRange::Day => "일봉 (게임일, 최근 3일)"@,
            },
    {
        match self {
            ChartRange::Minute => "분봉 (최근 2시간)",
            ChartRange::Day => "일봉 (게임일, 최근 3일)",
        }
    }
}

/// The business sector of a new company.
#[derive(Clone, Copy, Debug, PartialEq, Eq, Structural)]
pub enum SectorChoice {
    Semiconductor,
    Battery,
    Auto,
    Internet,
    Game,
    Bio,
    Bank,
    Leisure,
    Retail,
    Telecom,
    Shipbuilding,
    Entertainment,
}

impl SectorChoice {
    /// The name shown for the choice.
    pub open spec fn name_spec(self) -> Seq<char> {
        match self {
            SectorChoice::Semiconductor => "반도체"@,
            SectorChoice::Battery => "2차전지"@,
            SectorChoice::Auto => "자동차"@,
            SectorChoice::Internet => "인터넷"@,
            SectorChoice::Game => "게임"@,
            SectorChoice::Bio => "바이오"@,
            SectorChoice::Bank => "은행"@,
            SectorChoice::Leisure => "레저"@,
            SectorChoice::Retail => "유통"@,
            SectorChoice::Telecom => "통신"@,
            SectorChoice::Shipbuilding => "조선"@,
            SectorChoice::Entertainment => "엔터"@,
        }
    }

    /// The name shown for the choice.
    pub fn name(self) -> (s: &'static str)
        ensures
            s@ == self.name_spec(),
    {
        match self {
            SectorChoice::Semiconductor => "반도체",
            SectorChoice::Battery => "2차전지",
            SectorChoice::Auto => "자동차",
            SectorChoice::Internet => "인터넷",
            SectorChoice::Game => "게임",
            SectorChoice::Bio => "바이오",
            SectorChoice::Bank => "은행",
            SectorChoice::Leisure => "레저",
            SectorChoice::Retail => "유통",
            SectorChoice::Telecom => "통신",
            SectorChoice::Shipbuilding => "조선",
            SectorChoice::Entertainment => "엔터",
        }
    }
}

/// What a manager does to the stock market.
#[derive(Clone, Copy, Debug, PartialEq, Eq, Structural)]
pub enum StockAdminAction {
    Halt,
    Resume,
    Stats,
    SkipDays,
}

impl StockAdminAction {
    /// The name shown for the choice.
    pub fn name(self) -> (s: &'static str)
        ensures
            s@ == match self {
                StockAdminAction::Halt => "거래정지"@,
                StockAdminAction::Resume => "거래재개"@,
                StockAdminAction::Stats => "시장 집계 보기"@,
                StockAdminAction::SkipDays => "게임일 넘기기"@,
            },
    {
        match self {
            StockAdminAction::Halt => "거래정지",
            StockAdminAction::Resume => "거래재개",
            StockAdminAction::Stats => "시장 집계 보기",
            StockAdminAction::SkipDays => "게임일 넘기기",
        }
    }
}

} // verus!
