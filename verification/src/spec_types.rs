//! What a row of the transactions sheet specifies: identifiers, accounting
//! logic, the account that backs a payment, and commands.
use vstd::prelude::*;

use crate::account::Account;
use crate::date::Date;
use crate::handlers::{CashHandler, ReimbursableEntityHandler, ShareholderHandler};
use crate::numfmt::{decimal, u64_to_string};

verus! {

/// Identifies a transaction specification by its row in the sheet.
#[derive(Debug, Clone, Copy, PartialEq, Eq, Hash, PartialOrd, Ord, Structural)]
pub struct TransactionSpecId(pub u64);

/// Identifies a command by its row in the sheet.
#[derive(Debug, Clone, Copy, PartialEq, Eq, Hash, PartialOrd, Ord, Structural)]
pub struct CommandSpecId(pub u64);

/// Identifies an operation by its row in the sheet.
#[derive(Debug, Clone, Copy, PartialEq, Eq, Hash, PartialOrd, Ord, Structural)]
pub struct OperationSpecId(pub u64);

impl TransactionSpecId {
    /// The row number in decimal.
    pub fn text(&self) -> (r: String)
        ensures
            r@ == decimal(self.0 as nat),
    {
        u64_to_string(self.0)
    }
}

impl CommandSpecId {
    /// The row number in decimal.
    pub fn text(&self) -> (r: String)
        ensures
            r@ == decimal(self.0 as nat),
    {
        u64_to_string(self.0)
    }
}

impl OperationSpecId {
    /// The row number in decimal.
    pub fn text(&self) -> (r: String)
        ensures
            r@ == decimal(self.0 as nat),
    {
        u64_to_string(self.0)
    }
}

/// How share capital that is subscribed but not yet paid is carried.
#[derive(Debug, Clone, Copy, PartialEq, Eq, Structural)]
pub enum CommonStockWhileUnpaid {
    ReceivableAsset,
    NegativeEquity,
}

/// The accounting treatment of a transaction specification.
#[derive(Debug)]
pub enum AccountingLogic<E, A, I, R, S> {
    CommonStock { subscriber: S, while_unpaid: CommonStockWhileUnpaid },
    CostOfEquity,
    SimpleExpense(E),
    Capitalize(A),
    Amortize(A),
    FixedExpense(E),
    VariableExpense(E),
    VariableExpenseInit { account: E, estimate: i64 },
    ImmaterialIncome(I),
    ImmaterialExpense(E),
    Reimburse(R),
    ReimbursePartial(R),
    ClearVat { from: Date, to: Date },
}

/// What a payment is made from: a reimbursable party, a cash account, or a
/// shareholder's contributed surplus.
#[derive(Debug, Clone)]
pub enum BackingAccount<R, C, S> {
    Reimburse(R),
    Cash(C),
    ContributedSurplus(S),
}

impl<R: ReimbursableEntityHandler, C: CashHandler, S: ShareholderHandler> BackingAccount<R, C, S> {
    /// The account the payment is booked against.
    pub fn account(&self) -> (r: Account)
        ensures
            self matches BackingAccount::Reimburse(h) ==> r == Account::Liability(
                h.reimbursable_account(),
            ),
            self matches BackingAccount::Cash(h) ==> r == Account::Asset(h.cash_account()),
            self matches BackingAccount::ContributedSurplus(h) ==> (r matches Account::Equity(e)
                && call_ensures(S::upon_contributed_surplus, (h,), e)),
    {
        match self {
            BackingAccount::Reimburse(r) => Account::Liability(r.account()),
            BackingAccount::Cash(c) => Account::Asset(c.account()),
            BackingAccount::ContributedSurplus(s) => Account::Equity(s.upon_contributed_surplus()),
        }
    }

    /// Whether the payment is made by a party that is to be reimbursed.
    pub fn is_reimburse(&self) -> (r: bool)
        ensures
            r == self is Reimburse,
    {
        match self {
            BackingAccount::Reimburse(_) => true,
            _ => false,
        }
    }
}

/// How the year's income and expense accounts are closed.
#[derive(Debug, Clone, Copy, PartialEq, Eq, Structural)]
pub enum CloseLogic {
    Retain,
}

/// A command of the transactions sheet: close a year, or correct it with
/// the output of a user-defined correction `F`.
#[derive(Debug)]
pub enum CommandLogic<F> {
    Close(CloseLogic),
    Correction(F),
}

/// An operation of the transactions sheet: close a year, or apply a
/// user-defined operation `O`.
#[derive(Debug)]
pub enum OperationLogic<O> {
    Close(CloseLogic),
    Correction(O),
}

/// The payee and description shown for a transaction.
#[derive(Debug, Clone, PartialEq, Eq)]
pub struct TransactionLabel {
    pub payee: String,
    pub description: String,
}

#[derive(Debug, Clone, Copy, PartialEq, Eq, Structural)]
pub enum NoteType {
    Tmp,
}

/// Notes to the financial records: per accounting treatment, the
/// transactions it was applied to; and general remarks.
#[derive(Debug, Clone, PartialEq, Eq)]
pub struct NotesToFinancialRecords {
    pub transaction_notes: Vec<(String, String)>,
    pub general_notes: Vec<(String, String)>,
}

/// A decorator that leaves a transaction specification as it is.
#[derive(Debug, Clone, Copy, PartialEq, Eq, Structural)]
pub struct NoOpDecorator;

impl NoOpDecorator {
    pub fn new() -> (r: Self)
        ensures
            r == NoOpDecorator,
    {
        NoOpDecorator
    }
}

} // verus!
