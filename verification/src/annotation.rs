//! Notes attached to transactions, explaining the accounting treatment that
//! was applied to them.
use vstd::prelude::*;

verus! {

#[derive(Debug, Clone, PartialEq, Eq, Hash)]
pub enum Annotation {
    ImmaterialExpense,
    ImmaterialIncome,
    VariableExpense,
    VatKorea,
    VatKoreaUnrecoverable,
    VatKoreaReverseChargeExempt,
    CardFx,
    Custom(String),
}

/// The sentence that explains an annotation in the notes.
pub open spec fn annotation_text(a: Annotation) -> Seq<char> {
    match a {
        Annotation::ImmaterialExpense => "Expense recorded as immediately accrued on payment since the amount is considered immaterial."@,
        Annotation::ImmaterialIncome => "Income recorded as immediately accrued on receipt since the amount is considered immaterial."@,
        Annotation::VariableExpense => "Expense accrual at the end of each month was estimated using prior 90 days of historical data, then adjusted on payment to reflect any discrepancy."@,
        Annotation::VatKorea => "VAT is removed from transaction and separately recorded as VAT that is awaiting a proper receipt. Upon receipt, it is reclassified as a VAT receivable asset or payable liability. Upon VAT tax payment / refund, those accounts are cleared."@,
        Annotation::VatKoreaUnrecoverable => "Due to insufficient VAT receipts, the VAT charged for this purchase can not be claimed. As such, the entire cost of the purchase (including unrecoverable VAT) is recorded in the books. Any accrual logic or amortization is applied to the total cost."@,
        Annotation::VatKoreaReverseChargeExempt => "VAT was charged on a reverse-charge basis, meaning it is the company's responsibility to pay VAT through proxy payment. However, since the purchase is used for taxable business, the proxy payment is exempt. As such, the cost is simply recorded in the books without VAT."@,
        Annotation::CardFx => "Transaction amount was converted to the target currency using the latest available exchange rate at the time of payment. On settlement, the amount was adjusted to reflect the actual exchange rate."@,
        Annotation::Custom(c) => c@,
    }
}

impl Annotation {
    /// The sentence that explains this annotation in the notes.
    pub fn text(&self) -> (r: String)
        ensures
            r@ == annotation_text(*self),
    {
        match self {
            Annotation::ImmaterialExpense => "Expense recorded as immediately accrued on payment since the amount is considered immaterial.".to_owned(),
            Annotation::ImmaterialIncome => "Income recorded as immediately accrued on receipt since the amount is considered immaterial.".to_owned(),
            Annotation::VariableExpense => "Expense accrual at the end of each month was estimated using prior 90 days of historical data, then adjusted on payment to reflect any discrepancy.".to_owned(),
            Annotation::VatKorea => "VAT is removed from transaction and separately recorded as VAT that is awaiting a proper receipt. Upon receipt, it is reclassified as a VAT receivable asset or payable liability. Upon VAT tax payment / refund, those accounts are cleared.".to_owned(),
            Annotation::VatKoreaUnrecoverable => "Due to insufficient VAT receipts, the VAT charged for this purchase can not be claimed. As such, the entire cost of the purchase (including unrecoverable VAT) is recorded in the books. Any accrual logic or amortization is applied to the total cost.".to_owned(),
            Annotation::VatKoreaReverseChargeExempt => "VAT was charged on a reverse-charge basis, meaning it is the company's responsibility to pay VAT through proxy payment. However, since the purchase is used for taxable business, the proxy payment is exempt. As such, the cost is simply recorded in the books without VAT.".to_owned(),
            Annotation::CardFx => "Transaction amount was converted to the target currency using the latest available exchange rate at the time of payment. On settlement, the amount was adjusted to reflect the actual exchange rate.".to_owned(),
            Annotation::Custom(c) => c.clone(),
        }
    }
}

} // verus!
