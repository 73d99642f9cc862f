//! Cash flow classification of postings: the tags written into the journal
//! and the rule that picks one for an account and a direction of flow.
use vstd::prelude::*;

use crate::account::{
    Account, AssetAccount, AssetClassification, EquityAccount, EquityClassification,
    LiabilityAccount, LiabilityClassification,
};

verus! {

/// Whether cash leaves (`Outflow`) or enters (`Inflow`) through a posting.
#[derive(Debug, PartialEq, Eq, Hash, Clone, Copy)]
pub enum Direction {
    Inflow,
    Outflow,
}

/// Cash flow statement line to which a posting contributes.
#[derive(Debug, Clone, Copy, PartialEq, Eq, Hash, PartialOrd, Ord)]
pub enum CashflowTag {
    Depreciation,
    Amortization,
    OtherNonCashExpense,
    DiffAccountsReceivable,
    DiffInventory,
    DiffPrepaidExpenses,
    DiffOtherCurrentAssets,
    DiffAccountsPayable,
    DiffAccruedExpenses,
    DiffDeferredRevenue,
    DiffOtherCurrentLiabilities,
    GainLossOnSaleOfAssets,
    CashOutflowPpe,
    CashOutflowIntangibleAssets,
    CashOutflowInvestmentSecurities,
    CashOutflowLongTermDeposits,
    CashOutflowOtherInvesting,
    CashInflowPpe,
    CashInflowIntangibleAssets,
    CashInflowInvestmentSecurities,
    CashInflowLongTermDeposits,
    CashInflowOtherInvesting,
    CashInflowBorrowings,
    CashOutflowBorrowings,
    CashInflowIssuanceShares,
    CashOutflowShareBuybacks,
    CashOutflowDividends,
    CashInOutflowOtherFinancing,
}

/// Tag that traces a posting to a cash flow statement line.
#[derive(Debug, Clone, Copy, PartialEq, Eq, Hash, PartialOrd, Ord)]
pub enum CashflowTracingTag {
    NonCashExpenseDepreciation,
    NonCashExpenseAmortization,
    NonCashExpenseOther,
    NonCashPayment,
    ReclassifyGainLossOnSaleOfAssets,
    CashOutflowPpe,
    CashOutflowIntangibleAssets,
    CashOutflowInvestmentSecurities,
    CashOutflowLongTermDeposits,
    CashOutflowOtherInvesting,
    CashInflowPpe,
    CashInflowIntangibleAssets,
    CashInflowInvestmentSecurities,
    CashInflowLongTermDeposits,
    CashInflowOtherInvesting,
    CashInflowBorrowings,
    CashOutflowBorrowings,
    CashInflowIssuanceShares,
    CashOutflowShareIssuanceCosts,
    CashOutflowShareBuybacks,
    CashOutflowDividends,
    CashInOutflowOtherFinancing,
}

pub open spec fn cashflow_tag_value(t: CashflowTag) -> Seq<char> {
    match t {
        CashflowTag::Depreciation => "exp_depreciation"@,
        CashflowTag::Amortization => "exp_amortization"@,
        CashflowTag::OtherNonCashExpense => "exp_other_non_cash"@,
        CashflowTag::DiffAccountsReceivable => "diff_accounts_receivable"@,
        CashflowTag::DiffInventory => "diff_inventory"@,
        CashflowTag::DiffPrepaidExpenses => "diff_prepaid_expenses"@,
        CashflowTag::DiffOtherCurrentAssets => "diff_other_current_assets"@,
        CashflowTag::DiffAccountsPayable => "diff_accounts_payable"@,
        CashflowTag::DiffAccruedExpenses => "diff_accrued_expenses"@,
        CashflowTag::DiffDeferredRevenue => "diff_deferred_revenue"@,
        CashflowTag::DiffOtherCurrentLiabilities => "diff_other_current_liabilities"@,
        CashflowTag::GainLossOnSaleOfAssets => "gain_loss_sale_assets"@,
        CashflowTag::CashOutflowPpe => "cash_out_ppe"@,
        CashflowTag::CashOutflowIntangibleAssets => "cash_out_intangible_assets"@,
        CashflowTag::CashOutflowInvestmentSecurities => "cash_out_investment_securities"@,
        CashflowTag::CashOutflowLongTermDeposits => "cash_out_long_term_deposits"@,
        CashflowTag::CashOutflowOtherInvesting => "cash_out_other_investing"@,
        CashflowTag::CashInflowPpe => "cash_in_ppe"@,
        CashflowTag::CashInflowIntangibleAssets => "cash_in_intangible_assets"@,
        CashflowTag::CashInflowInvestmentSecurities => "cash_in_investment_securities"@,
        CashflowTag::CashInflowLongTermDeposits => "cash_in_long_term_deposits"@,
        CashflowTag::CashInflowOtherInvesting => "cash_in_other_investing"@,
        CashflowTag::CashInflowBorrowings => "cash_in_borrowings"@,
        CashflowTag::CashOutflowBorrowings => "cash_out_borrowings"@,
        CashflowTag::CashInflowIssuanceShares => "cash_in_issuance_shares"@,
        CashflowTag::CashOutflowShareBuybacks => "cash_out_share_buybacks"@,
        CashflowTag::CashOutflowDividends => "cash_out_dividends"@,
        CashflowTag::CashInOutflowOtherFinancing => "cash_in_out_other_financing"@,
    }
}

pub open spec fn tracing_tag_value(t: CashflowTracingTag) -> Seq<char> {
    match t {
        CashflowTracingTag::NonCashExpenseDepreciation => "nce_depreciation"@,
        CashflowTracingTag::NonCashExpenseAmortization => "nce_amortization"@,
        CashflowTracingTag::NonCashExpenseOther => "nce_other"@,
        CashflowTracingTag::NonCashPayment => "non_cash_payment"@,
        CashflowTracingTag::ReclassifyGainLossOnSaleOfAssets => "rcl_gain_loss_on_sale_of_assets"@,
        CashflowTracingTag::CashOutflowPpe => "out_ppe"@,
        CashflowTracingTag::CashOutflowIntangibleAssets => "out_intangible_assets"@,
        CashflowTracingTag::CashOutflowInvestmentSecurities => "out_investment_securities"@,
        CashflowTracingTag::CashOutflowLongTermDeposits => "out_long_term_deposits"@,
        CashflowTracingTag::CashOutflowOtherInvesting => "out_other_investing"@,
        CashflowTracingTag::CashInflowPpe => "in_ppe"@,
        CashflowTracingTag::CashInflowIntangibleAssets => "in_intangible_assets"@,
        CashflowTracingTag::CashInflowInvestmentSecurities => "in_investment_securities"@,
        CashflowTracingTag::CashInflowLongTermDeposits => "in_long_term_deposits"@,
        CashflowTracingTag::CashInflowOtherInvesting => "in_other_investing"@,
        CashflowTracingTag::CashInflowBorrowings => "in_borrowings"@,
        CashflowTracingTag::CashOutflowBorrowings => "out_borrowings"@,
        CashflowTracingTag::CashInflowIssuanceShares => "in_issuance_shares"@,
        CashflowTracingTag::CashOutflowShareIssuanceCosts => "out_share_issuance_costs"@,
        CashflowTracingTag::CashOutflowShareBuybacks => "out_share_buybacks"@,
        CashflowTracingTag::CashOutflowDividends => "out_dividends"@,
        CashflowTracingTag::CashInOutflowOtherFinancing => "in_out_other_financing"@,
    }
}

impl CashflowTag {
    /// The tag name under which the value is recorded in the journal.
    pub fn key() -> (r: &'static str)
        ensures
            r@ == "cf"@,
    {
        "cf"
    }

    /// The tag value that marks a posting with this tag.
    pub fn value(&self) -> (r: String)
        ensures
            r@ == cashflow_tag_value(*self),
    {
        let s: &str = match self {
            CashflowTag::Depreciation => "exp_depreciation",
            CashflowTag::Amortization => "exp_amortization",
            CashflowTag::OtherNonCashExpense => "exp_other_non_cash",
            CashflowTag::DiffAccountsReceivable => "diff_accounts_receivable",
            CashflowTag::DiffInventory => "diff_inventory",
            CashflowTag::DiffPrepaidExpenses => "diff_prepaid_expenses",
            CashflowTag::DiffOtherCurrentAssets => "diff_other_current_assets",
            CashflowTag::DiffAccountsPayable => "diff_accounts_payable",
            CashflowTag::DiffAccruedExpenses => "diff_accrued_expenses",
            CashflowTag::DiffDeferredRevenue => "diff_deferred_revenue",
            CashflowTag::DiffOtherCurrentLiabilities => "diff_other_current_liabilities",
            CashflowTag::GainLossOnSaleOfAssets => "gain_loss_sale_assets",
            CashflowTag::CashOutflowPpe => "cash_out_ppe",
            CashflowTag::CashOutflowIntangibleAssets => "cash_out_intangible_assets",
            CashflowTag::CashOutflowInvestmentSecurities => "cash_out_investment_securities",
            CashflowTag::CashOutflowLongTermDeposits => "cash_out_long_term_deposits",
            CashflowTag::CashOutflowOtherInvesting => "cash_out_other_investing",
            CashflowTag::CashInflowPpe => "cash_in_ppe",
            CashflowTag::CashInflowIntangibleAssets => "cash_in_intangible_assets",
            CashflowTag::CashInflowInvestmentSecurities => "cash_in_investment_securities",
            CashflowTag::CashInflowLongTermDeposits => "cash_in_long_term_deposits",
            CashflowTag::CashInflowOtherInvesting => "cash_in_other_investing",
            CashflowTag::CashInflowBorrowings => "cash_in_borrowings",
            CashflowTag::CashOutflowBorrowings => "cash_out_borrowings",
            CashflowTag::CashInflowIssuanceShares => "cash_in_issuance_shares",
            CashflowTag::CashOutflowShareBuybacks => "cash_out_share_buybacks",
            CashflowTag::CashOutflowDividends => "cash_out_dividends",
            CashflowTag::CashInOutflowOtherFinancing => "cash_in_out_other_financing",
        };
        s.to_owned()
    }
}

impl CashflowTracingTag {
    /// The tag name under which the value is recorded in the journal.
    pub fn key() -> (r: &'static str)
        ensures
            r@ == "cft"@,
    {
        "cft"
    }

    /// The tag value that marks a posting with this tag.
    pub fn value(&self) -> (r: String)
        ensures
            r@ == tracing_tag_value(*self),
    {
        let s: &str = match self {
            CashflowTracingTag::NonCashExpenseDepreciation => "nce_depreciation",
            CashflowTracingTag::NonCashExpenseAmortization => "nce_amortization",
            CashflowTracingTag::NonCashExpenseOther => "nce_other",
            CashflowTracingTag::NonCashPayment => "non_cash_payment",
            CashflowTracingTag::ReclassifyGainLossOnSaleOfAssets => "rcl_gain_loss_on_sale_of_assets",
            CashflowTracingTag::CashOutflowPpe => "out_ppe",
            CashflowTracingTag::CashOutflowIntangibleAssets => "out_intangible_assets",
            CashflowTracingTag::CashOutflowInvestmentSecurities => "out_investment_securities",
            CashflowTracingTag::CashOutflowLongTermDeposits => "out_long_term_deposits",
            CashflowTracingTag::CashOutflowOtherInvesting => "out_other_investing",
            CashflowTracingTag::CashInflowPpe => "in_ppe",
            CashflowTracingTag::CashInflowIntangibleAssets => "in_intangible_assets",
            CashflowTracingTag::CashInflowInvestmentSecurities => "in_investment_securities",
            CashflowTracingTag::CashInflowLongTermDeposits => "in_long_term_deposits",
            CashflowTracingTag::CashInflowOtherInvesting => "in_other_investing",
            CashflowTracingTag::CashInflowBorrowings => "in_borrowings",
            CashflowTracingTag::CashOutflowBorrowings => "out_borrowings",
            CashflowTracingTag::CashInflowIssuanceShares => "in_issuance_shares",
            CashflowTracingTag::CashOutflowShareIssuanceCosts => "out_share_issuance_costs",
            CashflowTracingTag::CashOutflowShareBuybacks => "out_share_buybacks",
            CashflowTracingTag::CashOutflowDividends => "out_dividends",
            CashflowTracingTag::CashInOutflowOtherFinancing => "in_out_other_financing",
        };
        s.to_owned()
    }
}

/// The investing / financing line for a flow of `d` through account `a`;
/// `None` for accounts whose flows belong to operating activities.
pub open spec fn cashflow_tag_of(a: Account, d: Direction) -> Option<CashflowTag> {
    let inflow = d == Direction::Inflow;
    match a {
        Account::Asset(AssetAccount(_, c)) => match c {
            AssetClassification::PropertyPlantEquipment =>
                Some(if inflow { CashflowTag::CashInflowPpe } else { CashflowTag::CashOutflowPpe }),
            AssetClassification::IntangibleAssets =>
                Some(if inflow { CashflowTag::CashInflowIntangibleAssets } else { CashflowTag::CashOutflowIntangibleAssets }),
            AssetClassification::LongTermInvestments =>
                Some(if inflow { CashflowTag::CashInflowInvestmentSecurities } else { CashflowTag::CashOutflowInvestmentSecurities }),
            AssetClassification::LongTermDeposits =>
                Some(if inflow { CashflowTag::CashInflowLongTermDeposits } else { CashflowTag::CashOutflowLongTermDeposits }),
            AssetClassification::OtherNonCurrentAssets =>
                Some(if inflow { CashflowTag::CashInflowOtherInvesting } else { CashflowTag::CashOutflowOtherInvesting }),
            _ => None,
        },
        Account::Liability(LiabilityAccount(_, c)) => match c {
            LiabilityClassification::LongTermDebt =>
                Some(if inflow { CashflowTag::CashInflowBorrowings } else { CashflowTag::CashOutflowBorrowings }),
            LiabilityClassification::OtherNonCurrentLiabilities => Some(CashflowTag::CashInOutflowOtherFinancing),
            _ => None,
        },
        Account::Income(_) => None,
        Account::Expense(_) => None,
        Account::Equity(EquityAccount(_, c)) => match c {
            EquityClassification::CommonStock | EquityClassification::PreferredStock =>
                if inflow { Some(CashflowTag::CashInflowIssuanceShares) } else { None },
            EquityClassification::TreasuryStock =>
                if inflow { None } else { Some(CashflowTag::CashOutflowShareBuybacks) },
            _ => None,
        },
    }
}

impl Account {
    /// The cash flow statement line to which a flow of `direction` through
    /// this account belongs, if it is an investing or financing one.
    pub fn cashflow_tag(&self, direction: Direction) -> (r: Option<CashflowTag>)
        ensures
            r == cashflow_tag_of(*self, direction),
    {
        let inflow = match direction {
            Direction::Inflow => true,
            Direction::Outflow => false,
        };
        match self {
            Account::Asset(AssetAccount(_, classification)) => match classification {
                AssetClassification::CashAndCashEquivalents
                | AssetClassification::AccountsReceivable
                | AssetClassification::Inventory
                | AssetClassification::PrepaidExpenses
                | AssetClassification::ShortTermInvestments
                | AssetClassification::ShortTermDeposits
                | AssetClassification::OtherCurrentAssets
                | AssetClassification::DeferredIncomeTax => None,
                AssetClassification::PropertyPlantEquipment => Some(
                    if inflow { CashflowTag::CashInflowPpe } else { CashflowTag::CashOutflowPpe },
                ),
                AssetClassification::IntangibleAssets => Some(
                    if inflow { CashflowTag::CashInflowIntangibleAssets } else { CashflowTag::CashOutflowIntangibleAssets },
                ),
                AssetClassification::LongTermInvestments => Some(
                    if inflow { CashflowTag::CashInflowInvestmentSecurities } else { CashflowTag::CashOutflowInvestmentSecurities },
                ),
                AssetClassification::LongTermDeposits => Some(
                    if inflow { CashflowTag::CashInflowLongTermDeposits } else { CashflowTag::CashOutflowLongTermDeposits },
                ),
                AssetClassification::OtherNonCurrentAssets => Some(
                    if inflow { CashflowTag::CashInflowOtherInvesting } else { CashflowTag::CashOutflowOtherInvesting },
                ),
            },
            Account::Liability(LiabilityAccount(_, classification)) => match classification {
                LiabilityClassification::AccountsPayable
                | LiabilityClassification::AccruedExpenses
                | LiabilityClassification::DeferredRevenue
                | LiabilityClassification::ShortTermDebt
                | LiabilityClassification::OtherCurrentLiabilities
                | LiabilityClassification::DeferredIncomeTax => None,
                LiabilityClassification::LongTermDebt => Some(
                    if inflow { CashflowTag::CashInflowBorrowings } else { CashflowTag::CashOutflowBorrowings },
                ),
                LiabilityClassification::OtherNonCurrentLiabilities => Some(
                    CashflowTag::CashInOutflowOtherFinancing,
                ),
            },
            Account::Income(_) => None,
            Account::Expense(_) => None,
            Account::Equity(EquityAccount(_, classification)) => match classification {
                EquityClassification::CommonStock | EquityClassification::PreferredStock => {
                    if inflow { Some(CashflowTag::CashInflowIssuanceShares) } else { None }
                },
                EquityClassification::TreasuryStock => {
                    if inflow { None } else { Some(CashflowTag::CashOutflowShareBuybacks) }
                },
                EquityClassification::RetainedEarnings
                | EquityClassification::ShareIssuanceCosts
                | EquityClassification::ContributedSurplus
                | EquityClassification::UnpaidShareCapital => None,
            },
        }
    }
}

} // verus!
