//! How accounts are named in an hledger journal, and the one-letter account
//! type tags that hledger understands.
use vstd::prelude::*;

use crate::account::{
    Account, AssetAccount, AssetClassification, EquityAccount, EquityClassification, ExpenseAccount,
    ExpenseClassification, IncomeAccount, IncomeClassification, LiabilityAccount,
    LiabilityClassification,
};

verus! {

pub open spec fn asset_path(c: AssetClassification) -> Seq<char> {
    match c {
        AssetClassification::CashAndCashEquivalents => "Current:CashAndCashEquivalents"@,
        AssetClassification::AccountsReceivable => "Current:AccountsReceivable"@,
        AssetClassification::Inventory => "Current:Inventory"@,
        AssetClassification::PrepaidExpenses => "Current:PrepaidExpenses"@,
        AssetClassification::ShortTermInvestments => "Current:ShortTermInvestments"@,
        AssetClassification::ShortTermDeposits => "Current:ShortTermDeposits"@,
        AssetClassification::OtherCurrentAssets => "Current:OtherCurrentAssets"@,
        AssetClassification::PropertyPlantEquipment => "NonCurrent:PropertyPlantEquipment"@,
        AssetClassification::IntangibleAssets => "NonCurrent:IntangibleAssets"@,
        AssetClassification::LongTermInvestments => "NonCurrent:LongTermInvestments"@,
        AssetClassification::LongTermDeposits => "NonCurrent:LongTermDeposits"@,
        AssetClassification::DeferredIncomeTax => "NonCurrent:DeferredIncomeTax"@,
        AssetClassification::OtherNonCurrentAssets => "NonCurrent:OtherNonCurrentAssets"@,
    }
}

pub open spec fn liability_path(c: LiabilityClassification) -> Seq<char> {
    match c {
        LiabilityClassification::AccountsPayable => "Current:AccountsPayable"@,
        LiabilityClassification::AccruedExpenses => "Current:AccruedExpenses"@,
        LiabilityClassification::DeferredRevenue => "Current:DeferredRevenue"@,
        LiabilityClassification::ShortTermDebt => "Current:ShortTermDebt"@,
        LiabilityClassification::OtherCurrentLiabilities => "Current:OtherCurrentLiabilities"@,
        LiabilityClassification::LongTermDebt => "NonCurrent:LongTermDebt"@,
        LiabilityClassification::DeferredIncomeTax => "NonCurrent:DeferredIncomeTax"@,
        LiabilityClassification::OtherNonCurrentLiabilities => "NonCurrent:OtherNonCurrentLiabilities"@,
    }
}

pub open spec fn income_path(c: IncomeClassification) -> Seq<char> {
    match c {
        IncomeClassification::SalesRevenue => "Operating:SalesRevenue"@,
        IncomeClassification::ServiceRevenue => "Operating:ServiceRevenue"@,
        IncomeClassification::InterestIncome => "Financing:InterestIncome"@,
        IncomeClassification::DividendIncome => "Financing:DividendIncome"@,
        IncomeClassification::RentalIncome => "Financing:RentalIncome"@,
        IncomeClassification::GainOnSaleOfAssets => "NonOperating:GainOnSaleOfAssets"@,
        IncomeClassification::RealizedFxGain => "NonOperating:RealizedFxGain"@,
        IncomeClassification::VatAdjustmentIncome => "NonOperating:VatAdjustmentIncome"@,
        IncomeClassification::OtherIncome => "Other"@,
    }
}

pub open spec fn expense_path(c: ExpenseClassification) -> Seq<char> {
    match c {
        ExpenseClassification::CostOfGoodsSold => "Operating:CostOfGoodsSold"@,
        ExpenseClassification::SellingExpenses => "Operating:SellingExpenses"@,
        ExpenseClassification::GeneralAdministrativeExpenses => "Operating:GeneralAdministrativeExpenses"@,
        ExpenseClassification::ResearchAndDevelopmentExpenses => "Operating:ResearchAndDevelopmentExpenses"@,
        ExpenseClassification::CloudServicesExpenses => "Operating:CloudServicesExpenses"@,
        ExpenseClassification::DepreciationExpense => "Operating:Depreciation"@,
        ExpenseClassification::AmortizationExpense => "Operating:Amortization"@,
        ExpenseClassification::InterestExpense => "Financing:InterestExpense"@,
        ExpenseClassification::IncomeTaxExpense => "Tax:IncomeTaxExpense"@,
        ExpenseClassification::OtherTaxExpense => "Tax:OtherTaxExpense"@,
        ExpenseClassification::LossOnSaleOfAssets => "NonOperating:LossOnSaleOfAssets"@,
        ExpenseClassification::RealizedFxLoss => "NonOperating:RealizedFxLoss"@,
        ExpenseClassification::VatAdjustmentExpense => "NonOperating:VatAdjustmentExpense"@,
        ExpenseClassification::OtherCashExpense => "Other"@,
        ExpenseClassification::OtherNonCashExpense => "Other"@,
    }
}

pub open spec fn equity_path(c: EquityClassification) -> Seq<char> {
    match c {
        EquityClassification::CommonStock => "ContributedCapital:CommonStock"@,
        EquityClassification::PreferredStock => "ContributedCapital:PreferredStock"@,
        EquityClassification::TreasuryStock => "ContributedCapital:TreasuryStock"@,
        EquityClassification::RetainedEarnings => "EarnedCapital:RetainedEarnings"@,
        EquityClassification::ShareIssuanceCosts => "Other:ShareIssuanceCosts"@,
        EquityClassification::ContributedSurplus => "Other:ContributedSurplus"@,
        EquityClassification::UnpaidShareCapital => "Other:UnpaidShareCapital"@,
    }
}

/// The trailing `:name` segment of a named account; nothing for a top-level one.
pub open spec fn name_suffix(name: Option<String>) -> Seq<char> {
    match name {
        Some(n) => ":"@ + n@,
        None => Seq::empty(),
    }
}

/// The full hledger name of an account: its kind, its classification path,
/// then its own name segment, if any.
pub open spec fn ledger_name(a: Account) -> Seq<char> {
    match a {
        Account::Asset(AssetAccount(n, c)) => "Assets:"@ + asset_path(c) + name_suffix(n),
        Account::Liability(LiabilityAccount(n, c)) => "Liabilities:"@ + liability_path(c) + name_suffix(n),
        Account::Income(IncomeAccount(n, c)) => "Income:"@ + income_path(c) + name_suffix(n),
        Account::Expense(ExpenseAccount(n, c)) => "Expenses:"@ + expense_path(c) + name_suffix(n),
        Account::Equity(EquityAccount(n, c)) => "Equity:"@ + equity_path(c) + name_suffix(n),
    }
}

/// hledger's account type letter: `C` for cash, `A` other assets, `L`
/// liabilities, `R` revenue, `X` expenses, `E` equity.
pub open spec fn type_tag_of(a: Account) -> char {
    match a {
        Account::Asset(AssetAccount(_, AssetClassification::CashAndCashEquivalents)) => 'C',
        Account::Asset(_) => 'A',
        Account::Liability(_) => 'L',
        Account::Income(_) => 'R',
        Account::Expense(_) => 'X',
        Account::Equity(_) => 'E',
    }
}

fn asset_path_str(c: AssetClassification) -> (r: &'static str)
    ensures
        r@ == asset_path(c),
{
    match c {
        AssetClassification::CashAndCashEquivalents => "Current:CashAndCashEquivalents",
        AssetClassification::AccountsReceivable => "Current:AccountsReceivable",
        AssetClassification::Inventory => "Current:Inventory",
        AssetClassification::PrepaidExpenses => "Current:PrepaidExpenses",
        AssetClassification::ShortTermInvestments => "Current:ShortTermInvestments",
        AssetClassification::ShortTermDeposits => "Current:ShortTermDeposits",
        AssetClassification::OtherCurrentAssets => "Current:OtherCurrentAssets",
        AssetClassification::PropertyPlantEquipment => "NonCurrent:PropertyPlantEquipment",
        AssetClassification::IntangibleAssets => "NonCurrent:IntangibleAssets",
        AssetClassification::LongTermInvestments => "NonCurrent:LongTermInvestments",
        AssetClassification::LongTermDeposits => "NonCurrent:LongTermDeposits",
        AssetClassification::DeferredIncomeTax => "NonCurrent:DeferredIncomeTax",
        AssetClassification::OtherNonCurrentAssets => "NonCurrent:OtherNonCurrentAssets",
    }
}

fn liability_path_str(c: LiabilityClassification) -> (r: &'static str)
    ensures
        r@ == liability_path(c),
{
    match c {
        LiabilityClassification::AccountsPayable => "Current:AccountsPayable",
        LiabilityClassification::AccruedExpenses => "Current:AccruedExpenses",
        LiabilityClassification::DeferredRevenue => "Current:DeferredRevenue",
        LiabilityClassification::ShortTermDebt => "Current:ShortTermDebt",
        LiabilityClassification::OtherCurrentLiabilities => "Current:OtherCurrentLiabilities",
        LiabilityClassification::LongTermDebt => "NonCurrent:LongTermDebt",
        LiabilityClassification::DeferredIncomeTax => "NonCurrent:DeferredIncomeTax",
        LiabilityClassification::OtherNonCurrentLiabilities => "NonCurrent:OtherNonCurrentLiabilities",
    }
}

fn income_path_str(c: IncomeClassification) -> (r: &'static str)
    ensures
        r@ == income_path(c),
{
    match c {
        IncomeClassification::SalesRevenue => "Operating:SalesRevenue",
        IncomeClassification::ServiceRevenue => "Operating:ServiceRevenue",
        IncomeClassification::InterestIncome => "Financing:InterestIncome",
        IncomeClassification::DividendIncome => "Financing:DividendIncome",
        IncomeClassification::RentalIncome => "Financing:RentalIncome",
        IncomeClassification::GainOnSaleOfAssets => "NonOperating:GainOnSaleOfAssets",
        IncomeClassification::RealizedFxGain => "NonOperating:RealizedFxGain",
        IncomeClassification::VatAdjustmentIncome => "NonOperating:VatAdjustmentIncome",
        IncomeClassification::OtherIncome => "Other",
    }
}

fn expense_path_str(c: ExpenseClassification) -> (r: &'static str)
    ensures
        r@ == expense_path(c),
{
    match c {
        ExpenseClassification::CostOfGoodsSold => "Operating:CostOfGoodsSold",
        ExpenseClassification::SellingExpenses => "Operating:SellingExpenses",
        ExpenseClassification::GeneralAdministrativeExpenses => "Operating:GeneralAdministrativeExpenses",
        ExpenseClassification::ResearchAndDevelopmentExpenses => "Operating:ResearchAndDevelopmentExpenses",
        ExpenseClassification::CloudServicesExpenses => "Operating:CloudServicesExpenses",
        ExpenseClassification::DepreciationExpense => "Operating:Depreciation",
        ExpenseClassification::AmortizationExpense => "Operating:Amortization",
        ExpenseClassification::InterestExpense => "Financing:InterestExpense",
        ExpenseClassification::IncomeTaxExpense => "Tax:IncomeTaxExpense",
        ExpenseClassification::OtherTaxExpense => "Tax:OtherTaxExpense",
        ExpenseClassification::LossOnSaleOfAssets => "NonOperating:LossOnSaleOfAssets",
        ExpenseClassification::RealizedFxLoss => "NonOperating:RealizedFxLoss",
        ExpenseClassification::VatAdjustmentExpense => "NonOperating:VatAdjustmentExpense",
        ExpenseClassification::OtherCashExpense => "Other",
        ExpenseClassification::OtherNonCashExpense => "Other",
    }
}

fn equity_path_str(c: EquityClassification) -> (r: &'static str)
    ensures
        r@ == equity_path(c),
{
    match c {
        EquityClassification::CommonStock => "ContributedCapital:CommonStock",
        EquityClassification::PreferredStock => "ContributedCapital:PreferredStock",
        EquityClassification::TreasuryStock => "ContributedCapital:TreasuryStock",
        EquityClassification::RetainedEarnings => "EarnedCapital:RetainedEarnings",
        EquityClassification::ShareIssuanceCosts => "Other:ShareIssuanceCosts",
        EquityClassification::ContributedSurplus => "Other:ContributedSurplus",
        EquityClassification::UnpaidShareCapital => "Other:UnpaidShareCapital",
    }
}

fn join_account_name(kind: &str, path: &str, name: &Option<String>) -> (r: String)
    ensures
        r@ == kind@ + path@ + name_suffix(*name),
{
    let mut out = String::new();
    out.append(kind);
    out.append(path);
    match name {
        Some(n) => {
            out.append(":");
            out.append(n.as_str());
            assert(out@ == kind@ + path@ + (":"@ + n@));
        },
        None => {
            assert(out@ == kind@ + path@ + Seq::<char>::empty());
        },
    }
    out
}

impl Account {
    /// The full hledger name of this account, e.g.
    /// `Assets:Current:CashAndCashEquivalents:Bank`.
    pub fn ledger(&self) -> (r: String)
        ensures
            r@ == ledger_name(*self),
    {
        match self {
            Account::Asset(AssetAccount(n, c)) => join_account_name("Assets:", asset_path_str(*c), n),
            Account::Liability(LiabilityAccount(n, c)) => join_account_name("Liabilities:", liability_path_str(*c), n),
            Account::Income(IncomeAccount(n, c)) => join_account_name("Income:", income_path_str(*c), n),
            Account::Expense(ExpenseAccount(n, c)) => join_account_name("Expenses:", expense_path_str(*c), n),
            Account::Equity(EquityAccount(n, c)) => join_account_name("Equity:", equity_path_str(*c), n),
        }
    }

    /// hledger's account type letter for this account.
    pub fn type_tag(&self) -> (r: char)
        ensures
            r == type_tag_of(*self),
    {
        match self {
            Account::Asset(AssetAccount(_, AssetClassification::CashAndCashEquivalents)) => 'C',
            Account::Asset(_) => 'A',
            Account::Liability(_) => 'L',
            Account::Income(_) => 'R',
            Account::Expense(_) => 'X',
            Account::Equity(_) => 'E',
        }
    }
}

/// The account's own name segment, if it has one.
pub open spec fn own_name(a: Account) -> Option<String> {
    match a {
        Account::Asset(AssetAccount(n, _)) => n,
        Account::Liability(LiabilityAccount(n, _)) => n,
        Account::Income(IncomeAccount(n, _)) => n,
        Account::Expense(ExpenseAccount(n, _)) => n,
        Account::Equity(EquityAccount(n, _)) => n,
    }
}

/// The account of the same kind and classification, without a name.
pub open spec fn unnamed(a: Account) -> Account {
    match a {
        Account::Asset(AssetAccount(_, c)) => Account::Asset(AssetAccount(None, c)),
        Account::Liability(LiabilityAccount(_, c)) => Account::Liability(LiabilityAccount(None, c)),
        Account::Income(IncomeAccount(_, c)) => Account::Income(IncomeAccount(None, c)),
        Account::Expense(ExpenseAccount(_, c)) => Account::Expense(ExpenseAccount(None, c)),
        Account::Equity(EquityAccount(_, c)) => Account::Equity(EquityAccount(None, c)),
    }
}

/// The top-level account under which accounts of its kind are named.
pub open spec fn top_level(a: Account) -> Seq<char> {
    match a {
        Account::Asset(_) => "Assets:"@,
        Account::Liability(_) => "Liabilities:"@,
        Account::Income(_) => "Income:"@,
        Account::Expense(_) => "Expenses:"@,
        Account::Equity(_) => "Equity:"@,
    }
}

/// The name of a named account is the name of the account of its
/// classification, a colon, and its own name; an unnamed account is named
/// after its classification alone; and every account is named under the
/// top-level account of its kind.
pub proof fn lemma_account_name_parts(a: Account)
    ensures
        own_name(a) matches Some(n) ==> ledger_name(a) == ledger_name(unnamed(a)) + ":"@ + n@,
        own_name(a) is None ==> ledger_name(a) == ledger_name(unnamed(a)),
        ledger_name(a).take(top_level(a).len() as int) == top_level(a),
        top_level(a).len() <= ledger_name(a).len(),
{
    let n = own_name(a);
    let base = ledger_name(unnamed(a));
    assert(ledger_name(a) =~= base + name_suffix(n));
    assert(name_suffix(None::<String>) =~= Seq::<char>::empty());
    if let Some(x) = n {
        assert(base + name_suffix(n) =~= base + ":"@ + x@);
    } else {
        assert(base + Seq::<char>::empty() =~= base);
    }
    assert(ledger_name(a).take(top_level(a).len() as int) =~= top_level(a));
}


/// hledger's account type of an account follows its kind, the top-level
/// account it is named under: assets are `A` (cash and its equivalents
/// `C`), liabilities `L`, income is revenue `R`, expenses `X` and equity
/// `E`; so accounts of different kinds never share a type.
pub proof fn lemma_type_tag_follows_kind(a: Account, b: Account)
    ensures
        (type_tag_of(a) == 'A' || type_tag_of(a) == 'C') <==> top_level(a) == "Assets:"@,
        type_tag_of(a) == 'C' <==> a matches Account::Asset(AssetAccount(_, AssetClassification::CashAndCashEquivalents)),
        type_tag_of(a) == 'L' <==> top_level(a) == "Liabilities:"@,
        type_tag_of(a) == 'R' <==> top_level(a) == "Income:"@,
        type_tag_of(a) == 'X' <==> top_level(a) == "Expenses:"@,
        type_tag_of(a) == 'E' <==> top_level(a) == "Equity:"@,
        top_level(a) != top_level(b) ==> type_tag_of(a) != type_tag_of(b),
{
    reveal_strlit("Assets:");
    reveal_strlit("Liabilities:");
    reveal_strlit("Income:");
    reveal_strlit("Expenses:");
    reveal_strlit("Equity:");
    assert("Assets:"@.len() == 7);
    assert("Liabilities:"@.len() == 12);
    assert("Income:"@.len() == 7);
    assert("Expenses:"@.len() == 9);
    assert("Equity:"@.len() == 7);
    assert("Assets:"@[1] != "Income:"@[1]);
    assert("Assets:"@[1] != "Equity:"@[1]);
    assert("Income:"@[1] != "Equity:"@[1]);
}

} // verus!
