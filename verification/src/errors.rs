//! Errors that the library reports.
use vstd::prelude::*;

use crate::date::Date;

verus! {

#[derive(Debug, Clone, PartialEq, Eq)]
pub enum Error {
    /// A date that is not written `YYYY-MM-DD`, or that does not exist.
    InvalidIsoDate { date: String },
    /// The month after `year`-`month` lies beyond the supported calendar.
    MonthOutOfRange { year: i32, month: u32 },
    /// A CSV row whose content is not acceptable.
    InvalidCsvContent { line_id: u64, details: String },
    /// The output of `hledger close` has a line that cannot be read.
    HledgerCloseInvalidResponse { details: String },
    /// There is nothing to close for the year.
    NoAccountsToClose { year: i32 },
    /// A cash flow statement was asked for no period.
    InvalidCashFlowStatementPeriods,
    /// Placeholders of a statement template that no value was given for.
    UnreplacedPlaceholdersRemain { unreplaced: Vec<String> },
    /// Text that is not valid base64.
    InvalidBase64 { details: String },
    /// Share capital paid before it is subscribed; the description given.
    CommonStockCannotBePrepaid { description: String },
    /// A record of a sheet that is not valid CSV.
    InvalidCsv,
    /// A RON cell of a sheet that could not be read: what it was to hold,
    /// and why.
    InvalidRon { ron_type: String, details: String },
    /// An amount of the sheet that is not a number.
    InvalidAccountingAmount { value: String },
    /// An asset amortized although it is not written off over time; the
    /// description given.
    NonAmortizableAsset { description: String },
    /// A variable expense paid before its accrual period is over; the row,
    /// the description, the payment date and the end of the accrual given.
    VariableExpenseInvalidPaymentDate { id: u64, description: String, payment_date: Date, until_date: Date },
}

} // verus!
