//! The accounts that the standard accounting logic and decorators post to.
use vstd::prelude::*;

use crate::account::{
    name_view, AssetAccount, AssetClassification, EquityAccount, EquityClassification,
    ExpenseAccount, ExpenseClassification, IncomeAccount, IncomeClassification, LiabilityAccount,
    LiabilityClassification,
};

verus! {

/// Earnings retained at the close of a year.
pub fn retained_earnings() -> (r: EquityAccount)
    ensures
        r.0 is None,
        r.1 == EquityClassification::RetainedEarnings,
{
    EquityAccount(None, EquityClassification::RetainedEarnings)
}

/// Unpaid share capital, carried as a receivable.
pub fn unpaid_share_capital_as_asset() -> (r: AssetAccount)
    ensures
        name_view(r.0) == Some("SubscribedCapitalReceivable"@),
        r.1 == AssetClassification::OtherCurrentAssets,
{
    AssetAccount(Some("SubscribedCapitalReceivable".to_string()), AssetClassification::OtherCurrentAssets)
}

/// Unpaid share capital, carried as negative equity.
pub fn unpaid_share_capital_as_equity() -> (r: EquityAccount)
    ensures
        r.0 is None,
        r.1 == EquityClassification::UnpaidShareCapital,
{
    EquityAccount(None, EquityClassification::UnpaidShareCapital)
}

/// Costs of issuing shares paid before the issue.
pub fn prepaid_share_issuance_costs() -> (r: AssetAccount)
    ensures
        name_view(r.0) == Some("PrepaidShareIssuanceCosts"@),
        r.1 == AssetClassification::OtherCurrentAssets,
{
    AssetAccount(Some("PrepaidShareIssuanceCosts".to_string()), AssetClassification::OtherCurrentAssets)
}

/// Costs of issuing shares not yet paid.
pub fn share_issuance_costs_payable() -> (r: LiabilityAccount)
    ensures
        name_view(r.0) == Some("ShareIssuanceCostsPayable"@),
        r.1 == LiabilityClassification::OtherCurrentLiabilities,
{
    LiabilityAccount(Some("ShareIssuanceCostsPayable".to_string()), LiabilityClassification::OtherCurrentLiabilities)
}

/// Gains realized on exchange rates.
pub fn realized_fx_gain() -> (r: IncomeAccount)
    ensures
        r.0 is None,
        r.1 == IncomeClassification::RealizedFxGain,
{
    IncomeAccount(None, IncomeClassification::RealizedFxGain)
}

/// Losses realized on exchange rates.
pub fn realized_fx_loss() -> (r: ExpenseAccount)
    ensures
        r.0 is None,
        r.1 == ExpenseClassification::RealizedFxLoss,
{
    ExpenseAccount(None, ExpenseClassification::RealizedFxLoss)
}

/// Fees charged on payments in a foreign currency.
pub fn foreign_transaction_fee() -> (r: ExpenseAccount)
    ensures
        name_view(r.0) == Some("ForeignTransactionFee"@),
        r.1 == ExpenseClassification::GeneralAdministrativeExpenses,
{
    ExpenseAccount(Some("ForeignTransactionFee".to_string()), ExpenseClassification::GeneralAdministrativeExpenses)
}

/// Tax withheld abroad on income.
pub fn foreign_withholding_tax() -> (r: ExpenseAccount)
    ensures
        name_view(r.0) == Some("ForeignWithholdingTax"@),
        r.1 == ExpenseClassification::OtherTaxExpense,
{
    ExpenseAccount(Some("ForeignWithholdingTax".to_string()), ExpenseClassification::OtherTaxExpense)
}

/// Fees charged for making payments.
pub fn payment_fees() -> (r: ExpenseAccount)
    ensures
        name_view(r.0) == Some("PaymentFees"@),
        r.1 == ExpenseClassification::GeneralAdministrativeExpenses,
{
    ExpenseAccount(Some("PaymentFees".to_string()), ExpenseClassification::GeneralAdministrativeExpenses)
}

/// VAT paid, awaiting a proper receipt.
pub fn vat_pending_receipt() -> (r: AssetAccount)
    ensures
        name_view(r.0) == Some("VatPendingReceipt"@),
        r.1 == AssetClassification::OtherCurrentAssets,
{
    AssetAccount(Some("VatPendingReceipt".to_string()), AssetClassification::OtherCurrentAssets)
}

/// VAT to be refunded.
pub fn vat_receivable() -> (r: AssetAccount)
    ensures
        name_view(r.0) == Some("VatReceivable"@),
        r.1 == AssetClassification::OtherCurrentAssets,
{
    AssetAccount(Some("VatReceivable".to_string()), AssetClassification::OtherCurrentAssets)
}

/// VAT to be paid.
pub fn vat_payable() -> (r: LiabilityAccount)
    ensures
        name_view(r.0) == Some("VatPayable"@),
        r.1 == LiabilityClassification::OtherCurrentLiabilities,
{
    LiabilityAccount(Some("VatPayable".to_string()), LiabilityClassification::OtherCurrentLiabilities)
}

/// Income from adjustments of VAT.
pub fn vat_adjustment_income() -> (r: IncomeAccount)
    ensures
        r.0 is None,
        r.1 == IncomeClassification::VatAdjustmentIncome,
{
    IncomeAccount(None, IncomeClassification::VatAdjustmentIncome)
}

/// Expense from adjustments of VAT.
pub fn vat_adjustment_expense() -> (r: ExpenseAccount)
    ensures
        r.0 is None,
        r.1 == ExpenseClassification::VatAdjustmentExpense,
{
    ExpenseAccount(None, ExpenseClassification::VatAdjustmentExpense)
}

/// Costs of issuing shares, deducted from equity.
pub fn share_issuance_costs() -> (r: EquityAccount)
    ensures
        r.0 is None,
        r.1 == EquityClassification::ShareIssuanceCosts,
{
    EquityAccount(None, EquityClassification::ShareIssuanceCosts)
}

} // verus!
