//! The forms in which the sheet writes accounting logic, backing accounts and
//! commands, and their conversion into the library's own types.
use vstd::prelude::*;

use crate::date::Date;
use crate::spec_types::{
    AccountingLogic, BackingAccount, CloseLogic, CommandLogic, CommonStockWhileUnpaid,
    OperationLogic,
};

verus! {

/// How unpaid share capital is written in the sheet.
#[derive(Debug, Clone, Copy, PartialEq, Eq, Structural)]
pub enum CommonStockWhileUnpaidModel {
    Asset,
    NegativeEquity,
}

impl From<CommonStockWhileUnpaidModel> for CommonStockWhileUnpaid {
    fn from(m: CommonStockWhileUnpaidModel) -> (r: CommonStockWhileUnpaid) {
        match m {
            CommonStockWhileUnpaidModel::Asset => CommonStockWhileUnpaid::ReceivableAsset,
            CommonStockWhileUnpaidModel::NegativeEquity => CommonStockWhileUnpaid::NegativeEquity,
        }
    }
}

impl vstd::std_specs::convert::FromSpecImpl<CommonStockWhileUnpaidModel> for CommonStockWhileUnpaid {
    open spec fn obeys_from_spec() -> bool {
        true
    }

    open spec fn from_spec(m: CommonStockWhileUnpaidModel) -> CommonStockWhileUnpaid {
        match m {
            CommonStockWhileUnpaidModel::Asset => CommonStockWhileUnpaid::ReceivableAsset,
            CommonStockWhileUnpaidModel::NegativeEquity => CommonStockWhileUnpaid::NegativeEquity,
        }
    }
}

/// The account backing a payment, as written in the sheet.
#[derive(Debug)]
pub enum BackingAccountModel<R, C, S> {
    Reimburse(R),
    Cash(C),
    ContributedSurplus(S),
}

impl<R, C, S> From<BackingAccountModel<R, C, S>> for BackingAccount<R, C, S> {
    fn from(m: BackingAccountModel<R, C, S>) -> (r: BackingAccount<R, C, S>) {
        match m {
            BackingAccountModel::Reimburse(x) => BackingAccount::Reimburse(x),
            BackingAccountModel::Cash(x) => BackingAccount::Cash(x),
            BackingAccountModel::ContributedSurplus(x) => BackingAccount::ContributedSurplus(x),
        }
    }
}

impl<R, C, S> vstd::std_specs::convert::FromSpecImpl<BackingAccountModel<R, C, S>> for BackingAccount<R, C, S> {
    open spec fn obeys_from_spec() -> bool {
        true
    }

    open spec fn from_spec(m: BackingAccountModel<R, C, S>) -> BackingAccount<R, C, S> {
        match m {
            BackingAccountModel::Reimburse(x) => BackingAccount::Reimburse(x),
            BackingAccountModel::Cash(x) => BackingAccount::Cash(x),
            BackingAccountModel::ContributedSurplus(x) => BackingAccount::ContributedSurplus(x),
        }
    }
}

/// How a year is closed, as written in the sheet.
#[derive(Debug, Clone, Copy, PartialEq, Eq, Structural)]
pub enum CloseLogicModel {
    Retain,
}

impl From<CloseLogicModel> for CloseLogic {
    fn from(m: CloseLogicModel) -> (r: CloseLogic) {
        match m {
            CloseLogicModel::Retain => CloseLogic::Retain,
        }
    }
}

impl vstd::std_specs::convert::FromSpecImpl<CloseLogicModel> for CloseLogic {
    open spec fn obeys_from_spec() -> bool {
        true
    }

    open spec fn from_spec(m: CloseLogicModel) -> CloseLogic {
        match m {
            CloseLogicModel::Retain => CloseLogic::Retain,
        }
    }
}

/// A command, as written in the sheet.
#[derive(Debug)]
pub enum CommandLogicModel<O> {
    Close(CloseLogicModel),
    Correction(O),
}

impl<O> From<CommandLogicModel<O>> for CommandLogic<O> {
    fn from(m: CommandLogicModel<O>) -> (r: CommandLogic<O>) {
        match m {
            CommandLogicModel::Close(l) => CommandLogic::Close(
                match l {
                    CloseLogicModel::Retain => CloseLogic::Retain,
                },
            ),
            CommandLogicModel::Correction(o) => CommandLogic::Correction(o),
        }
    }
}

impl<O> vstd::std_specs::convert::FromSpecImpl<CommandLogicModel<O>> for CommandLogic<O> {
    open spec fn obeys_from_spec() -> bool {
        true
    }

    open spec fn from_spec(m: CommandLogicModel<O>) -> CommandLogic<O> {
        match m {
            CommandLogicModel::Close(l) => CommandLogic::Close(
                match l {
                    CloseLogicModel::Retain => CloseLogic::Retain,
                },
            ),
            CommandLogicModel::Correction(o) => CommandLogic::Correction(o),
        }
    }
}

/// An operation, as written in the sheet.
#[derive(Debug)]
pub enum OperationLogicModel<O> {
    Close(CloseLogicModel),
    Correction(O),
}

impl<O> From<OperationLogicModel<O>> for OperationLogic<O> {
    fn from(m: OperationLogicModel<O>) -> (r: OperationLogic<O>) {
        match m {
            OperationLogicModel::Close(l) => OperationLogic::Close(CloseLogic::from(l)),
            OperationLogicModel::Correction(o) => OperationLogic::Correction(o),
        }
    }
}

impl<O> vstd::std_specs::convert::FromSpecImpl<OperationLogicModel<O>> for OperationLogic<O> {
    open spec fn obeys_from_spec() -> bool {
        true
    }

    open spec fn from_spec(m: OperationLogicModel<O>) -> OperationLogic<O> {
        match m {
            OperationLogicModel::Close(l) => OperationLogic::Close(
                match l {
                    CloseLogicModel::Retain => CloseLogic::Retain,
                },
            ),
            OperationLogicModel::Correction(o) => OperationLogic::Correction(o),
        }
    }
}

/// The accounting logic of a transaction specification, as written in the
/// sheet; the dates of `ClearVat` already read as dates.
#[derive(Debug)]
pub enum AccountingLogicModel<E, A, I, R, S> {
    CommonStock { subscriber: S, while_unpaid: CommonStockWhileUnpaidModel },
    CostOfEquity,
    SimpleExpense(E),
    Capitalize(A),
    Amortize(A),
    FixedExpense(E),
    VariableExpense(E),
    VariableExpenseInit { account: E, estimate: i64 },
    ImmaterialIncome(I),
    ImmaterialExpense(E),
    Reimburse(R),
    ReimbursePartial(R),
    ClearVat { from: Date, to: Date },
}

pub open spec fn accounting_logic_of<E, A, I, R, S>(m: AccountingLogicModel<E, A, I, R, S>) -> AccountingLogic<E, A, I, R, S> {
    match m {
        AccountingLogicModel::CommonStock { subscriber, while_unpaid } => AccountingLogic::CommonStock {
            subscriber,
            while_unpaid: match while_unpaid {
                CommonStockWhileUnpaidModel::Asset => CommonStockWhileUnpaid::ReceivableAsset,
                CommonStockWhileUnpaidModel::NegativeEquity => CommonStockWhileUnpaid::NegativeEquity,
            },
        },
        AccountingLogicModel::CostOfEquity => AccountingLogic::CostOfEquity,
        AccountingLogicModel::SimpleExpense(e) => AccountingLogic::SimpleExpense(e),
        AccountingLogicModel::Capitalize(a) => AccountingLogic::Capitalize(a),
        AccountingLogicModel::Amortize(a) => AccountingLogic::Amortize(a),
        AccountingLogicModel::FixedExpense(e) => AccountingLogic::FixedExpense(e),
        AccountingLogicModel::VariableExpense(e) => AccountingLogic::VariableExpense(e),
        AccountingLogicModel::VariableExpenseInit { account, estimate } => AccountingLogic::VariableExpenseInit {
            account,
            estimate,
        },
        AccountingLogicModel::ImmaterialIncome(i) => AccountingLogic::ImmaterialIncome(i),
        AccountingLogicModel::ImmaterialExpense(e) => AccountingLogic::ImmaterialExpense(e),
        AccountingLogicModel::Reimburse(r) => AccountingLogic::Reimburse(r),
        AccountingLogicModel::ReimbursePartial(r) => AccountingLogic::ReimbursePartial(r),
        AccountingLogicModel::ClearVat { from, to } => AccountingLogic::ClearVat { from, to },
    }
}

impl<E, A, I, R, S> From<AccountingLogicModel<E, A, I, R, S>> for AccountingLogic<E, A, I, R, S> {
    fn from(m: AccountingLogicModel<E, A, I, R, S>) -> (r: AccountingLogic<E, A, I, R, S>) {
        match m {
            AccountingLogicModel::CommonStock { subscriber, while_unpaid } => AccountingLogic::CommonStock {
                subscriber,
                while_unpaid: CommonStockWhileUnpaid::from(while_unpaid),
            },
            AccountingLogicModel::CostOfEquity => AccountingLogic::CostOfEquity,
            AccountingLogicModel::SimpleExpense(e) => AccountingLogic::SimpleExpense(e),
            AccountingLogicModel::Capitalize(a) => AccountingLogic::Capitalize(a),
            AccountingLogicModel::Amortize(a) => AccountingLogic::Amortize(a),
            AccountingLogicModel::FixedExpense(e) => AccountingLogic::FixedExpense(e),
            AccountingLogicModel::VariableExpense(e) => AccountingLogic::VariableExpense(e),
            AccountingLogicModel::VariableExpenseInit { account, estimate } => AccountingLogic::VariableExpenseInit {
                account,
                estimate,
            },
            AccountingLogicModel::ImmaterialIncome(i) => AccountingLogic::ImmaterialIncome(i),
            AccountingLogicModel::ImmaterialExpense(e) => AccountingLogic::ImmaterialExpense(e),
            AccountingLogicModel::Reimburse(r) => AccountingLogic::Reimburse(r),
            AccountingLogicModel::ReimbursePartial(r) => AccountingLogic::ReimbursePartial(r),
            AccountingLogicModel::ClearVat { from, to } => AccountingLogic::ClearVat { from, to },
        }
    }
}

impl<E, A, I, R, S> vstd::std_specs::convert::FromSpecImpl<AccountingLogicModel<E, A, I, R, S>> for AccountingLogic<E, A, I, R, S> {
    open spec fn obeys_from_spec() -> bool {
        true
    }

    open spec fn from_spec(m: AccountingLogicModel<E, A, I, R, S>) -> AccountingLogic<E, A, I, R, S> {
        accounting_logic_of(m)
    }
}

} // verus!
