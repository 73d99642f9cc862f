//! The handler traits through which a user of the library describes its own
//! assets, income streams, expenses, counterparties and commodities.
use vstd::prelude::*;

use crate::account::{
    AssetAccount, AssetClassification, EquityAccount, EquityClassification, ExpenseAccount,
    IncomeAccount, LiabilityAccount, LiabilityClassification, copy_name,
};

verus! {

/// The same name segment with another asset classification.
pub fn asset_with(name: &Option<String>, c: AssetClassification) -> (r: AssetAccount)
    ensures
        r == AssetAccount(*name, c),
{
    AssetAccount(copy_name(name), c)
}

/// The same name segment with another liability classification.
pub fn liability_with(name: &Option<String>, c: LiabilityClassification) -> (r: LiabilityAccount)
    ensures
        r == LiabilityAccount(*name, c),
{
    LiabilityAccount(copy_name(name), c)
}

/// The same name segment with another equity classification.
pub fn equity_with(name: &Option<String>, c: EquityClassification) -> (r: EquityAccount)
    ensures
        r == EquityAccount(*name, c),
{
    EquityAccount(copy_name(name), c)
}

pub trait AssetHandler {
    /// The account that `account` returns.
    open spec fn asset_account(&self) -> AssetAccount {
        arbitrary()
    }

    fn account(&self) -> (r: AssetAccount)
        ensures
            r == self.asset_account(),
    ;

    /// Where the asset sits while it is paid for but not yet received.
    fn while_prepaid(&self) -> (r: AssetAccount)
        default_ensures
            r == AssetAccount(self.asset_account().0, AssetClassification::PrepaidExpenses),
    {
        asset_with(&self.account().0, AssetClassification::PrepaidExpenses)
    }

    /// Where the debt for the asset sits while it is received but not yet paid.
    fn while_payable(&self) -> (r: LiabilityAccount)
        default_ensures
            r == LiabilityAccount(self.asset_account().0, LiabilityClassification::AccountsPayable),
    {
        liability_with(&self.account().0, LiabilityClassification::AccountsPayable)
    }

    /// The expense account into which the asset is written off over time,
    /// if it is written off at all. For current assets this should be a
    /// cash expense; for non-current ones a depreciation, amortization or
    /// other non-cash expense.
    fn upon_accrual(&self) -> (r: Option<ExpenseAccount>)
        default_ensures
            r is None,
    {
        None
    }
}

pub trait IncomeHandler {
    /// The account that `account` returns.
    open spec fn income_account(&self) -> IncomeAccount {
        arbitrary()
    }

    fn account(&self) -> (r: IncomeAccount)
        ensures
            r == self.income_account(),
    ;

    /// Where income sits while it is received but not yet earned.
    fn while_prepaid(&self) -> (r: LiabilityAccount)
        default_ensures
            r == LiabilityAccount(self.income_account().0, LiabilityClassification::DeferredRevenue),
    {
        liability_with(&self.account().0, LiabilityClassification::DeferredRevenue)
    }

    /// Where income sits while it is earned but not yet received.
    fn while_receivable(&self) -> (r: AssetAccount)
        default_ensures
            r == AssetAccount(self.income_account().0, AssetClassification::AccountsReceivable),
    {
        asset_with(&self.account().0, AssetClassification::AccountsReceivable)
    }
}

pub trait ExpenseHandler {
    /// The account that `account` returns.
    open spec fn expense_account(&self) -> ExpenseAccount {
        arbitrary()
    }

    fn account(&self) -> (r: ExpenseAccount)
        ensures
            r == self.expense_account(),
    ;

    /// Where the expense sits while it is paid but not yet incurred.
    fn while_prepaid(&self) -> (r: AssetAccount)
        default_ensures
            r == AssetAccount(self.expense_account().0, AssetClassification::PrepaidExpenses),
    {
        asset_with(&self.account().0, AssetClassification::PrepaidExpenses)
    }

    /// Where the expense sits while it is incurred but not yet paid.
    fn while_payable(&self) -> (r: LiabilityAccount)
        default_ensures
            r == LiabilityAccount(self.expense_account().0, LiabilityClassification::AccountsPayable),
    {
        liability_with(&self.account().0, LiabilityClassification::AccountsPayable)
    }
}

pub trait CashHandler {
    /// The account that `account` returns.
    open spec fn cash_account(&self) -> AssetAccount {
        arbitrary()
    }

    fn account(&self) -> (r: AssetAccount)
        ensures
            r == self.cash_account(),
    ;
}

pub trait ShareholderHandler {
    /// The account that `account` returns.
    open spec fn shareholder_account(&self) -> EquityAccount {
        arbitrary()
    }

    fn account(&self) -> (r: EquityAccount)
        ensures
            r == self.shareholder_account(),
    ;

    /// Where contributions made without issuing shares are recorded.
    fn upon_contributed_surplus(&self) -> (r: EquityAccount)
        default_ensures
            r == EquityAccount(self.shareholder_account().0, EquityClassification::ContributedSurplus),
    {
        equity_with(&self.account().0, EquityClassification::ContributedSurplus)
    }
}

pub trait PayeeHandler {
    /// The name that `name` returns.
    open spec fn payee_name(&self) -> Seq<char> {
        arbitrary()
    }

    fn name(&self) -> (r: String)
        ensures
            r@ == self.payee_name(),
    ;
}

pub trait ReimbursableEntityHandler {
    /// The account that `account` returns.
    open spec fn reimbursable_account(&self) -> LiabilityAccount {
        arbitrary()
    }

    fn account(&self) -> (r: LiabilityAccount)
        ensures
            r == self.reimbursable_account(),
    ;
}

} // verus!
