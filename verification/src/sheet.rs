//! The transactions sheet, read as CSV: each row a transaction
//! specification, a command (first cell `:`), a comment (first cell `;`) or
//! blank. The cells written in RON are kept as text for the caller to read
//! into its own handler types; the caller hands back which of them could
//! not be read, so that a row is refused for its first bad cell, in the
//! order in which the cells are read.
use vstd::prelude::*;

use crate::amount_text::{accounting_amount, parse_accounting_amount};
use crate::date::{chrono_parse_ymd, date_lt, parse_iso_date, Date};
use crate::errors::Error;
use crate::hledger_query::{csv_records, csv_records_of, records_view};
use crate::spec_types::{CommandSpecId, TransactionSpecId};
use crate::text::{
    chars_to_string, lines, push_all, split_lines, split_on, split_on_char, strings_view, to_chars,
    trim, trim_chars,
};

verus! {

/// A transaction specification row, its RON cells as written.
#[derive(Debug)]
pub struct TransactionRow {
    pub id: TransactionSpecId,
    pub accrual_start: Date,
    pub accrual_end: Option<Date>,
    pub payment_date: Date,
    pub accounting_logic: String,
    pub decorators: String,
    pub payee: String,
    pub description: String,
    /// Whether the amount is negative, and its number as written plainly.
    pub amount: (bool, String),
    pub commodity: String,
    pub backing_account: String,
    /// The custom notes, one a line.
    pub notes: Vec<String>,
}

/// A command row, its RON cells as written.
#[derive(Debug)]
pub struct CommandRow {
    pub id: CommandSpecId,
    pub date: Date,
    pub logic: String,
    pub arguments: Vec<String>,
    pub description: Option<String>,
    pub amount: Option<(bool, String)>,
    pub commodity: Option<String>,
    pub notes: Vec<String>,
}

/// Why a row, or the sheet, is refused.
pub enum SheetError {
    /// A date cell that is not a date.
    Date(Seq<char>),
    /// An amount cell that is not a number; the number part given.
    Amount(Seq<char>),
    /// A row whose accrual ends before it starts; the row's number given.
    UntilBeforeStart(u64),
    /// A record that is not valid CSV.
    Csv,
    /// A RON cell that could not be read: what it was to hold, and why.
    Ron(Seq<char>, Seq<char>),
}

pub open spec fn error_is(e: Error, s: SheetError) -> bool {
    match s {
        SheetError::Date(d) => e matches Error::InvalidIsoDate { date } && date@ == d,
        SheetError::Amount(v) => e matches Error::InvalidAccountingAmount { value } && value@ == v,
        SheetError::UntilBeforeStart(id) => e matches Error::InvalidCsvContent { line_id, details }
            && line_id == id && details@ == "Until date must be after start date."@,
        SheetError::Csv => e matches Error::InvalidCsv,
        SheetError::Ron(t, d) => e matches Error::InvalidRon { ron_type, details } && ron_type@ == t
            && details@ == d,
    }
}

/// The outcome of reading the `j`-th RON cell of a row: why it could not be
/// read, or nothing when it was read (or not given).
pub open spec fn ron_fail(f: Seq<Option<Seq<char>>>, j: int) -> Option<Seq<char>> {
    if 0 <= j < f.len() {
        f[j]
    } else {
        None
    }
}

/// The outcomes of reading the RON cells of the row at `i`.
pub open spec fn ron_at(ron: Seq<Seq<Option<Seq<char>>>>, i: int) -> Seq<Option<Seq<char>>> {
    if 0 <= i < ron.len() {
        ron[i]
    } else {
        Seq::empty()
    }
}

pub open spec fn fail_view(f: Seq<Option<String>>) -> Seq<Option<Seq<char>>> {
    Seq::new(
        f.len(),
        |j: int|
            match f[j] {
                Some(d) => Some(d@),
                None => None,
            },
    )
}

pub open spec fn fails_view(ron: Seq<Vec<Option<String>>>) -> Seq<Seq<Option<Seq<char>>>> {
    Seq::new(ron.len(), |i: int| fail_view(ron[i]@))
}

/// The RON cells of a row, in the order in which they are read: for a
/// transaction, its accounting logic, its decorators as a list, its payee,
/// its commodity and its backing account; for a command, its logic and,
/// when given, its commodity, both trimmed.
pub open spec fn ron_texts(cells: Seq<Seq<char>>) -> Seq<Seq<char>> {
    if row_kind(cells) == 2 {
        seq![
            cell(cells, 3),
            "["@ + cell(cells, 4) + "]"@,
            cell(cells, 5),
            cell(cells, 8),
            cell(cells, 9),
        ]
    } else if row_kind(cells) == 1 {
        if trim(cell(cells, 8)).len() == 0 {
            seq![trim(cell(cells, 3))]
        } else {
            seq![trim(cell(cells, 3)), trim(cell(cells, 8))]
        }
    } else {
        Seq::empty()
    }
}

/// Why a transaction row is refused, its RON cells' outcomes `f` taken into
/// account: its dates first, then its accounting logic, decorators and
/// payee, then its amount, then its commodity and backing account, then an
/// accrual that ends before it starts.
pub open spec fn transaction_error_with(i: int, cells: Seq<Seq<char>>, f: Seq<Option<Seq<char>>>) -> Option<
    SheetError,
> {
    let base = transaction_row_error(i, cells);
    if base matches Some(SheetError::Date(_)) {
        base
    } else if ron_fail(f, 0) is Some {
        Some(SheetError::Ron("AccountingLogic"@, ron_fail(f, 0)->0))
    } else if ron_fail(f, 1) is Some {
        Some(SheetError::Ron("Decorator"@, ron_fail(f, 1)->0))
    } else if ron_fail(f, 2) is Some {
        Some(SheetError::Ron("Payee"@, ron_fail(f, 2)->0))
    } else if base matches Some(SheetError::Amount(_)) {
        base
    } else if ron_fail(f, 3) is Some {
        Some(SheetError::Ron("Commodity"@, ron_fail(f, 3)->0))
    } else if ron_fail(f, 4) is Some {
        Some(SheetError::Ron("BackingAccount"@, ron_fail(f, 4)->0))
    } else {
        base
    }
}

/// Why a command row is refused, its RON cells' outcomes `f` taken into
/// account: its date, its logic, its amount, then its commodity.
pub open spec fn command_error_with(cells: Seq<Seq<char>>, f: Seq<Option<Seq<char>>>) -> Option<SheetError> {
    let base = command_row_error(cells);
    if base matches Some(SheetError::Date(_)) {
        base
    } else if ron_fail(f, 0) is Some {
        Some(SheetError::Ron("CommandLogic"@, ron_fail(f, 0)->0))
    } else if base is Some {
        base
    } else if ron_fail(f, 1) is Some {
        Some(SheetError::Ron("Commodity"@, ron_fail(f, 1)->0))
    } else {
        None
    }
}

/// Cell `k`, or empty when the row is shorter.
pub open spec fn cell(cells: Seq<Seq<char>>, k: int) -> Seq<char> {
    if k < cells.len() {
        cells[k]
    } else {
        Seq::empty()
    }
}

pub open spec fn parsed_date(text: Seq<char>) -> Option<Date> {
    match chrono_parse_ymd(text) {
        Some((y, m, d)) => Some(Date { year: y, month: m, day: d }),
        None => None,
    }
}

pub open spec fn row_is_blank(cells: Seq<Seq<char>>) -> bool {
    forall|k: int| 0 <= k < cells.len() ==> #[trigger] trim(cells[k]).len() == 0
}

/// The first character of the first cell, trimmed; a space when there is none.
pub open spec fn row_mark(cells: Seq<Seq<char>>) -> char {
    if cells.len() > 0 && trim(cells[0]).len() > 0 {
        trim(cells[0])[0]
    } else {
        ' '
    }
}

/// Notes cell: one note a line; none when empty.
pub open spec fn notes_of(text: Seq<char>) -> Seq<Seq<char>> {
    if text.len() == 0 {
        Seq::empty()
    } else {
        lines(text)
    }
}

/// What a transaction row holds, read from its cells: its dates, its RON
/// cells, its amount and its notes.
pub open spec fn transaction_row_read(i: int, cells: Seq<Seq<char>>, row: TransactionRow) -> bool {
    &&& row.id.0 == i + 2
    &&& parsed_date(cell(cells, 0)) == Some(row.accrual_start)
    &&& (if cells.len() > 1 && cells[1].len() > 0 {
        row.accrual_end == parsed_date(cells[1]) && row.accrual_end is Some
    } else {
        row.accrual_end is None
    })
    &&& parsed_date(cell(cells, 2)) == Some(row.payment_date)
    &&& row.accounting_logic@ == cell(cells, 3)
    &&& row.decorators@ == cell(cells, 4)
    &&& row.payee@ == cell(cells, 5)
    &&& row.description@ == cell(cells, 6)
    &&& accounting_amount(if 7 < cells.len() { cells[7] } else { "0"@ }) == Ok::<(bool, Seq<char>), Seq<char>>(
        (row.amount.0, row.amount.1@),
    )
    &&& row.commodity@ == cell(cells, 8)
    &&& row.backing_account@ == cell(cells, 9)
    &&& strings_view(row.notes@) == notes_of(cell(cells, 10))
}

/// Why a transaction row is refused, if it is: the first cell in order
/// that cannot be read, or an accrual that ends before it starts.
pub open spec fn transaction_row_error(i: int, cells: Seq<Seq<char>>) -> Option<SheetError> {
    let until = cells.len() > 1 && cells[1].len() > 0;
    let amount_text = if 7 < cells.len() { cells[7] } else { "0"@ };
    if parsed_date(cell(cells, 0)) is None {
        Some(SheetError::Date(cell(cells, 0)))
    } else if until && parsed_date(cells[1]) is None {
        Some(SheetError::Date(cells[1]))
    } else if parsed_date(cell(cells, 2)) is None {
        Some(SheetError::Date(cell(cells, 2)))
    } else if accounting_amount(amount_text) is Err {
        Some(SheetError::Amount(accounting_amount(amount_text)->Err_0))
    } else if until && date_lt(parsed_date(cells[1])->0, parsed_date(cell(cells, 0))->0) {
        Some(SheetError::UntilBeforeStart((i + 2) as u64))
    } else {
        None
    }
}

/// What a command row holds, read from its trimmed cells.
pub open spec fn command_row_read(i: int, cells: Seq<Seq<char>>, row: CommandRow) -> bool {
    let description = trim(cell(cells, 6));
    let amount = trim(cell(cells, 7));
    let commodity = trim(cell(cells, 8));
    &&& row.id.0 == i + 2
    &&& parsed_date(trim(cell(cells, 2))) == Some(row.date)
    &&& row.logic@ == trim(cell(cells, 3))
    &&& strings_view(row.arguments@) == split_on(trim(cell(cells, 4)), ',')
    &&& (if description.len() == 0 {
        row.description is None
    } else {
        row.description matches Some(d) && d@ == description
    })
    &&& (if amount.len() == 0 {
        row.amount is None
    } else {
        row.amount matches Some((n, t)) && accounting_amount(amount) == Ok::<
            (bool, Seq<char>),
            Seq<char>,
        >((n, t@))
    })
    &&& (if commodity.len() == 0 {
        row.commodity is None
    } else {
        row.commodity matches Some(c) && c@ == commodity
    })
    &&& strings_view(row.notes@) == notes_of(cell(cells, 10))
}

/// Why a command row is refused, if it is.
pub open spec fn command_row_error(cells: Seq<Seq<char>>) -> Option<SheetError> {
    let amount = trim(cell(cells, 7));
    if parsed_date(trim(cell(cells, 2))) is None {
        Some(SheetError::Date(trim(cell(cells, 2))))
    } else if amount.len() > 0 && accounting_amount(amount) is Err {
        Some(SheetError::Amount(accounting_amount(amount)->Err_0))
    } else {
        None
    }
}

/// The kind of a row: 0 skipped (blank or comment), 1 command, 2 transaction.
pub open spec fn row_kind(cells: Seq<Seq<char>>) -> int {
    if row_is_blank(cells) || row_mark(cells) == ';' {
        0
    } else if row_mark(cells) == ':' {
        1
    } else {
        2
    }
}

/// Why the record at `i` is refused, if it is, `f` being the outcomes of
/// reading its RON cells.
pub open spec fn record_error(i: int, record: Option<Seq<Seq<char>>>, f: Seq<Option<Seq<char>>>) -> Option<
    SheetError,
> {
    match record {
        None => Some(SheetError::Csv),
        Some(cells) => if row_kind(cells) == 1 {
            command_error_with(cells, f)
        } else if row_kind(cells) == 2 {
            transaction_error_with(i, cells, f)
        } else {
            None
        },
    }
}

/// Index of the first refused record, or -1; `ron` gives the outcomes of
/// reading the RON cells of each record.
pub open spec fn first_error(records: Seq<Option<Seq<Seq<char>>>>, ron: Seq<Seq<Option<Seq<char>>>>) -> int
    decreases records.len(),
{
    if records.len() == 0 {
        -1
    } else {
        let e = first_error(records.drop_last(), ron);
        if e >= 0 {
            e
        } else if record_error(records.len() - 1, records.last(), ron_at(ron, records.len() - 1)) is Some {
            records.len() - 1
        } else {
            -1
        }
    }
}

/// How many of the records are of kind `kind`.
pub open spec fn count_kind(records: Seq<Option<Seq<Seq<char>>>>, kind: int) -> nat
    decreases records.len(),
{
    if records.len() == 0 {
        0
    } else {
        count_kind(records.drop_last(), kind) + if records.last() matches Some(c) && row_kind(c)
            == kind {
            1nat
        } else {
            0nat
        }
    }
}

/// The index of the `n`-th record of kind `kind`.
pub open spec fn nth_of_kind(records: Seq<Option<Seq<Seq<char>>>>, kind: int, n: int) -> int
    decreases records.len(),
{
    if records.len() == 0 {
        -1
    } else if count_kind(records.drop_last(), kind) == n && (records.last() matches Some(c)
        && row_kind(c) == kind) {
        records.len() - 1
    } else {
        nth_of_kind(records.drop_last(), kind, n)
    }
}

fn cell_chars(cells: &[String], k: usize) -> (r: Vec<char>)
    ensures
        r@ == cell(strings_view(cells@), k as int),
{
    if k < cells.len() {
        to_chars(cells[k].as_str())
    } else {
        Vec::new()
    }
}

fn date_of(text: &[char]) -> (r: Result<Date, Error>)
    ensures
        match parsed_date(text@) {
            Some(d) => r == Ok::<Date, Error>(d),
            None => r.is_err() && error_is(r->Err_0, SheetError::Date(text@)),
        },
{
    let s = chars_to_string(text);
    parse_iso_date(s.as_str())
}

fn amount_of(text: &[char]) -> (r: Result<(bool, String), Error>)
    ensures
        match accounting_amount(text@) {
            Ok((n, t)) => r matches Ok((m, u)) && m == n && u@ == t,
            Err(v) => r.is_err() && error_is(r->Err_0, SheetError::Amount(v)),
        },
{
    let s = chars_to_string(text);
    parse_accounting_amount(s.as_str())
}

fn notes_from(text: &[char]) -> (r: Vec<String>)
    ensures
        strings_view(r@) == notes_of(text@),
{
    let mut out: Vec<String> = Vec::new();
    if text.len() == 0 {
        assert(strings_view(out@) =~= Seq::<Seq<char>>::empty());
        return out;
    }
    let ls = split_lines(text);
    let mut i: usize = 0;
    while i < ls.len()
        invariant
            i <= ls@.len(),
            ls@.len() == lines(text@).len(),
            forall|k: int| 0 <= k < ls@.len() ==> #[trigger] ls@[k]@ == lines(text@)[k],
            out@.len() == i,
            forall|k: int| 0 <= k < i ==> #[trigger] out@[k]@ == lines(text@)[k],
        decreases ls.len() - i,
    {
        out.push(chars_to_string(&ls[i]));
        i = i + 1;
    }
    assert(strings_view(out@) =~= lines(text@));
    out
}

/// Reads a transaction row (the `i`-th record of the sheet).
pub fn read_transaction_row(i: usize, cells: &[String]) -> (r: Result<TransactionRow, Error>)
    requires
        i + 2 <= u64::MAX,
    ensures
        match transaction_row_error(i as int, strings_view(cells@)) {
            Some(e) => r.is_err() && error_is(r->Err_0, e),
            None => r matches Ok(row) && transaction_row_read(i as int, strings_view(cells@), row),
        },
{
    let ghost cv = strings_view(cells@);
    let accrual_start = date_of(&cell_chars(cells, 0))?;
    let until_text = cell_chars(cells, 1);
    let accrual_end = if cells.len() > 1 && until_text.len() > 0 {
        Some(date_of(&until_text)?)
    } else {
        None
    };
    let payment_date = date_of(&cell_chars(cells, 2))?;
    let amount_text = if 7 < cells.len() {
        to_chars(cells[7].as_str())
    } else {
        to_chars("0")
    };
    let amount = amount_of(&amount_text)?;
    if let Some(until) = accrual_end {
        if until.is_before(&accrual_start) {
            return Err(
                Error::InvalidCsvContent {
                    line_id: i as u64 + 2,
                    details: "Until date must be after start date.".to_string(),
                },
            );
        }
    }
    Ok(
        TransactionRow {
            id: TransactionSpecId(i as u64 + 2),
            accrual_start,
            accrual_end,
            payment_date,
            accounting_logic: chars_to_string(&cell_chars(cells, 3)),
            decorators: chars_to_string(&cell_chars(cells, 4)),
            payee: chars_to_string(&cell_chars(cells, 5)),
            description: chars_to_string(&cell_chars(cells, 6)),
            amount,
            commodity: chars_to_string(&cell_chars(cells, 8)),
            backing_account: chars_to_string(&cell_chars(cells, 9)),
            notes: notes_from(&cell_chars(cells, 10)),
        },
    )
}

/// Reads a command row (the `i`-th record of the sheet).
pub fn read_command_row(i: usize, cells: &[String]) -> (r: Result<CommandRow, Error>)
    requires
        i + 2 <= u64::MAX,
    ensures
        match command_row_error(strings_view(cells@)) {
            Some(e) => r.is_err() && error_is(r->Err_0, e),
            None => r matches Ok(row) && command_row_read(i as int, strings_view(cells@), row),
        },
{
    let date = date_of(&trim_chars(&cell_chars(cells, 2)))?;
    let logic = chars_to_string(&trim_chars(&cell_chars(cells, 3)));
    let pieces = split_on_char(&trim_chars(&cell_chars(cells, 4)), ',');
    let mut arguments: Vec<String> = Vec::new();
    let mut k: usize = 0;
    while k < pieces.len()
        invariant
            k <= pieces@.len(),
            arguments@.len() == k,
            forall|m: int| 0 <= m < k ==> #[trigger] arguments@[m]@ == pieces@[m]@,
        decreases pieces.len() - k,
    {
        arguments.push(chars_to_string(&pieces[k]));
        k = k + 1;
    }
    assert(strings_view(arguments@) =~= Seq::new(pieces@.len(), |m: int| pieces@[m]@));
    let d = trim_chars(&cell_chars(cells, 6));
    let description = if d.len() == 0 {
        None
    } else {
        Some(chars_to_string(&d))
    };
    let a = trim_chars(&cell_chars(cells, 7));
    let amount = if a.len() == 0 {
        None
    } else {
        Some(amount_of(&a)?)
    };
    let c = trim_chars(&cell_chars(cells, 8));
    let commodity = if c.len() == 0 {
        None
    } else {
        Some(chars_to_string(&c))
    };
    let notes = notes_from(&cell_chars(cells, 10));
    Ok(
        CommandRow {
            id: CommandSpecId(i as u64 + 2),
            date,
            logic,
            arguments,
            description,
            amount,
            commodity,
            notes,
        },
    )
}

fn is_blank_row(cells: &[String]) -> (r: bool)
    ensures
        r == row_is_blank(strings_view(cells@)),
{
    let mut i: usize = 0;
    while i < cells.len()
        invariant
            i <= cells@.len(),
            forall|k: int| 0 <= k < i ==> #[trigger] trim(strings_view(cells@)[k]).len() == 0,
        decreases cells.len() - i,
    {
        if trim_chars(&to_chars(cells[i].as_str())).len() > 0 {
            assert(trim(strings_view(cells@)[i as int]).len() > 0);
            return false;
        }
        i = i + 1;
    }
    true
}

fn mark_of(cells: &[String]) -> (r: char)
    ensures
        r == row_mark(strings_view(cells@)),
{
    if cells.len() > 0 {
        let t = trim_chars(&to_chars(cells[0].as_str()));
        if t.len() > 0 {
            return t[0];
        }
    }
    ' '
}

/// The kind of a row: 0 skipped, 1 command, 2 transaction.
pub fn kind_of_row(cells: &[String]) -> (r: u8)
    ensures
        r as int == row_kind(strings_view(cells@)),
{
    if is_blank_row(cells) {
        return 0;
    }
    let m = mark_of(cells);
    if m == ';' {
        0
    } else if m == ':' {
        1
    } else {
        2
    }
}


proof fn lemma_first_error_stays(
    records: Seq<Option<Seq<Seq<char>>>>,
    ron: Seq<Seq<Option<Seq<char>>>>,
    j: int,
    k: int,
)
    requires
        0 <= j <= k <= records.len(),
        first_error(records.take(j), ron) >= 0,
    ensures
        first_error(records.take(k), ron) == first_error(records.take(j), ron),
    decreases k - j,
{
    if k > j {
        lemma_first_error_stays(records, ron, j, k - 1);
        assert(records.take(k).drop_last() == records.take(k - 1));
    }
}

/// The transaction rows read from the records `rs`: one for each
/// such record, in order, each read from its record.
pub open spec fn rows_of_kind_tx(rs: Seq<Option<Seq<Seq<char>>>>, rows: Seq<TransactionRow>) -> bool {
    &&& rows.len() == count_kind(rs, 2)
    &&& forall|n: int|
        0 <= n < rows.len() ==> 0 <= nth_of_kind(rs, 2, n) < rs.len() && transaction_row_read(
            nth_of_kind(rs, 2, n),
            rs[nth_of_kind(rs, 2, n)]->0,
            #[trigger] rows[n],
        )
}

proof fn lemma_rows_extend_tx(
    before: Seq<Option<Seq<Seq<char>>>>,
    x: Option<Seq<Seq<char>>>,
    old_rows: Seq<TransactionRow>,
    new_rows: Seq<TransactionRow>,
)
    requires
        rows_of_kind_tx(before, old_rows),
        if (x matches Some(c) && row_kind(c) == 2) {
            new_rows.len() == old_rows.len() + 1 && new_rows.drop_last() == old_rows && transaction_row_read(
                before.len() as int,
                x->0,
                new_rows.last(),
            )
        } else {
            new_rows == old_rows
        },
    ensures
        rows_of_kind_tx(before.push(x), new_rows),
{
    let after = before.push(x);
    assert(after.drop_last() =~= before);
    assert(new_rows.len() == count_kind(after, 2));
    assert forall|n: int| 0 <= n < new_rows.len() implies (0 <= #[trigger] nth_of_kind(after, 2, n)
        && nth_of_kind(after, 2, n) < after.len() && transaction_row_read(
        nth_of_kind(after, 2, n),
        after[nth_of_kind(after, 2, n)]->0,
        new_rows[n],
    )) by {
        if n < old_rows.len() {
            assert(new_rows[n] == old_rows[n]);
            assert(transaction_row_read(
                nth_of_kind(before, 2, n),
                before[nth_of_kind(before, 2, n)]->0,
                old_rows[n],
            ));
            assert(0 <= nth_of_kind(before, 2, n) < before.len());
            assert(nth_of_kind(after, 2, n) == nth_of_kind(before, 2, n));
            assert(after[nth_of_kind(before, 2, n)] == before[nth_of_kind(before, 2, n)]);
        } else {
            assert(nth_of_kind(after, 2, n) == before.len());
        }
    }
}

/// The command rows read from the records `rs`: one for each
/// such record, in order, each read from its record.
pub open spec fn rows_of_kind_cmd(rs: Seq<Option<Seq<Seq<char>>>>, rows: Seq<CommandRow>) -> bool {
    &&& rows.len() == count_kind(rs, 1)
    &&& forall|n: int|
        0 <= n < rows.len() ==> 0 <= nth_of_kind(rs, 1, n) < rs.len() && command_row_read(
            nth_of_kind(rs, 1, n),
            rs[nth_of_kind(rs, 1, n)]->0,
            #[trigger] rows[n],
        )
}

proof fn lemma_rows_extend_cmd(
    before: Seq<Option<Seq<Seq<char>>>>,
    x: Option<Seq<Seq<char>>>,
    old_rows: Seq<CommandRow>,
    new_rows: Seq<CommandRow>,
)
    requires
        rows_of_kind_cmd(before, old_rows),
        if (x matches Some(c) && row_kind(c) == 1) {
            new_rows.len() == old_rows.len() + 1 && new_rows.drop_last() == old_rows && command_row_read(
                before.len() as int,
                x->0,
                new_rows.last(),
            )
        } else {
            new_rows == old_rows
        },
    ensures
        rows_of_kind_cmd(before.push(x), new_rows),
{
    let after = before.push(x);
    assert(after.drop_last() =~= before);
    assert(new_rows.len() == count_kind(after, 1));
    assert forall|n: int| 0 <= n < new_rows.len() implies (0 <= #[trigger] nth_of_kind(after, 1, n)
        && nth_of_kind(after, 1, n) < after.len() && command_row_read(
        nth_of_kind(after, 1, n),
        after[nth_of_kind(after, 1, n)]->0,
        new_rows[n],
    )) by {
        if n < old_rows.len() {
            assert(new_rows[n] == old_rows[n]);
            assert(command_row_read(
                nth_of_kind(before, 1, n),
                before[nth_of_kind(before, 1, n)]->0,
                old_rows[n],
            ));
            assert(0 <= nth_of_kind(before, 1, n) < before.len());
            assert(nth_of_kind(after, 1, n) == nth_of_kind(before, 1, n));
            assert(after[nth_of_kind(before, 1, n)] == before[nth_of_kind(before, 1, n)]);
        } else {
            assert(nth_of_kind(after, 1, n) == before.len());
        }
    }
}

/// The error of the `j`-th RON cell of a row, `ron_type` being what it was
/// to hold, when it could not be read.
fn ron_failure(f: &[Option<String>], j: usize, ron_type: &str) -> (r: Option<Error>)
    ensures
        match ron_fail(fail_view(f@), j as int) {
            Some(d) => r matches Some(Error::InvalidRon { ron_type: t, details }) && t@ == ron_type@
                && details@ == d,
            None => r is None,
        },
{
    if j < f.len() {
        match &f[j] {
            Some(d) => Some(Error::InvalidRon { ron_type: ron_type.to_string(), details: d.clone() }),
            None => None,
        }
    } else {
        None
    }
}

/// Reads a transaction row, `f` being the outcomes of reading its RON cells.
fn read_transaction_row_with(i: usize, cells: &[String], f: &[Option<String>]) -> (r: Result<
    TransactionRow,
    Error,
>)
    requires
        i + 2 <= u64::MAX,
    ensures
        match transaction_error_with(i as int, strings_view(cells@), fail_view(f@)) {
            Some(e) => r.is_err() && error_is(r->Err_0, e),
            None => r matches Ok(row) && transaction_row_read(i as int, strings_view(cells@), row),
        },
{
    let read = read_transaction_row(i, cells);
    if let Err(Error::InvalidIsoDate { date }) = read {
        return Err(Error::InvalidIsoDate { date });
    }
    if let Some(e) = ron_failure(f, 0, "AccountingLogic") {
        return Err(e);
    }
    if let Some(e) = ron_failure(f, 1, "Decorator") {
        return Err(e);
    }
    if let Some(e) = ron_failure(f, 2, "Payee") {
        return Err(e);
    }
    if let Err(Error::InvalidAccountingAmount { value }) = read {
        return Err(Error::InvalidAccountingAmount { value });
    }
    if let Some(e) = ron_failure(f, 3, "Commodity") {
        return Err(e);
    }
    if let Some(e) = ron_failure(f, 4, "BackingAccount") {
        return Err(e);
    }
    read
}

/// Reads a command row, `f` being the outcomes of reading its RON cells.
fn read_command_row_with(i: usize, cells: &[String], f: &[Option<String>]) -> (r: Result<
    CommandRow,
    Error,
>)
    requires
        i + 2 <= u64::MAX,
    ensures
        match command_error_with(strings_view(cells@), fail_view(f@)) {
            Some(e) => r.is_err() && error_is(r->Err_0, e),
            None => r matches Ok(row) && command_row_read(i as int, strings_view(cells@), row),
        },
{
    let read = read_command_row(i, cells);
    if let Err(Error::InvalidIsoDate { date }) = read {
        return Err(Error::InvalidIsoDate { date });
    }
    if let Some(e) = ron_failure(f, 0, "CommandLogic") {
        return Err(e);
    }
    if read.is_err() {
        return read;
    }
    if let Some(e) = ron_failure(f, 1, "Commodity") {
        return Err(e);
    }
    read
}

/// The RON cells of a row, in the order in which they are read.
pub fn ron_cells(cells: &[String]) -> (r: Vec<String>)
    ensures
        strings_view(r@) == ron_texts(strings_view(cells@)),
{
    let kind = kind_of_row(cells);
    let mut out: Vec<String> = Vec::new();
    if kind == 2 {
        out.push(chars_to_string(&cell_chars(cells, 3)));
        let mut list = to_chars("[");
        push_all(&mut list, &cell_chars(cells, 4));
        push_all(&mut list, &to_chars("]"));
        out.push(chars_to_string(&list));
        out.push(chars_to_string(&cell_chars(cells, 5)));
        out.push(chars_to_string(&cell_chars(cells, 8)));
        out.push(chars_to_string(&cell_chars(cells, 9)));
    } else if kind == 1 {
        out.push(chars_to_string(&trim_chars(&cell_chars(cells, 3))));
        let c = trim_chars(&cell_chars(cells, 8));
        if c.len() > 0 {
            out.push(chars_to_string(&c));
        }
    }
    proof {
        reveal_strlit("[");
        reveal_strlit("]");
        assert(strings_view(out@) =~= ron_texts(strings_view(cells@)));
    }
    out
}

/// The data records of a sheet written as CSV with a header row: each the
/// list of its cells, or nothing where the record is not valid CSV.
pub fn sheet_records(text: &str) -> (r: Vec<Option<Vec<String>>>)
    ensures
        records_view(r@) == csv_records_of(text@),
{
    csv_records(text)
}

/// The rows of the sheet given by its CSV records (the header row left
/// out) and the outcomes `ron` of reading the RON cells of each record
/// (`ron[i][j]` is why the `j`-th cell that `ron_cells` gives for record `i`
/// could not be read): its transaction rows and its command rows, each in
/// order; or the error of the first record refused, its cells taken in the
/// order in which they are read.
pub fn read_sheet_records(records: &[Option<Vec<String>>], ron: &[Vec<Option<String>>]) -> (r: Result<
    (Vec<TransactionRow>, Vec<CommandRow>),
    Error,
>)
    requires
        records@.len() + 2 <= u64::MAX,
    ensures
        ({
            let rv = records_view(records@);
            let fv = fails_view(ron@);
            let e = first_error(rv, fv);
            if e >= 0 {
                r.is_err() && error_is(r->Err_0, record_error(e, rv[e], ron_at(fv, e))->0)
            } else {
                r matches Ok((txs, cmds)) && txs@.len() == count_kind(rv, 2) && cmds@.len()
                    == count_kind(rv, 1) && (forall|n: int|
                    0 <= n < txs@.len() ==> transaction_row_read(
                        nth_of_kind(rv, 2, n),
                        rv[nth_of_kind(rv, 2, n)]->0,
                        #[trigger] txs@[n],
                    )) && (forall|n: int|
                    0 <= n < cmds@.len() ==> command_row_read(
                        nth_of_kind(rv, 1, n),
                        rv[nth_of_kind(rv, 1, n)]->0,
                        #[trigger] cmds@[n],
                    ))
            }
        }),
{
    let ghost rv = records_view(records@);
    let ghost fv = fails_view(ron@);
    let none: Vec<Option<String>> = Vec::new();
    let mut txs: Vec<TransactionRow> = Vec::new();
    let mut cmds: Vec<CommandRow> = Vec::new();
    let mut i: usize = 0;
    while i < records.len()
        invariant
            i <= records@.len(),
            records@.len() + 2 <= u64::MAX,
            rv == records_view(records@),
            fv == fails_view(ron@),
            none@.len() == 0,
            first_error(rv.take(i as int), fv) == -1,
            rows_of_kind_tx(rv.take(i as int), txs@),
            rows_of_kind_cmd(rv.take(i as int), cmds@),
        decreases records.len() - i,
    {
        let ghost after = rv.take(i + 1);
        let f: &[Option<String>] = if i < ron.len() {
            ron[i].as_slice()
        } else {
            none.as_slice()
        };
        proof {
            assert(after.drop_last() == rv.take(i as int));
            assert(after.last() == rv[i as int]);
            assert(rv.take(i as int).push(rv[i as int]) == after);
            assert(fail_view(f@) =~= ron_at(fv, i as int));
        }
        match &records[i] {
            None => {
                proof {
                    assert(first_error(after, fv) == i);
                    lemma_first_error_stays(rv, fv, i + 1, rv.len() as int);
                    assert(rv.take(rv.len() as int) == rv);
                }
                return Err(Error::InvalidCsv);
            },
            Some(cells) => {
                assert(rv[i as int] == Some(strings_view(cells@)));
                let kind = kind_of_row(cells.as_slice());
                if kind == 1 {
                    match read_command_row_with(i, cells.as_slice(), f) {
                        Ok(row) => {
                            let ghost old_cmds = cmds@;
                            cmds.push(row);
                            proof {
                                assert(cmds@.drop_last() == old_cmds);
                                assert(command_row_read(i as int, rv[i as int]->0, cmds@.last()));
                                lemma_rows_extend_cmd(rv.take(i as int), rv[i as int], old_cmds, cmds@);
                                lemma_rows_extend_tx(rv.take(i as int), rv[i as int], txs@, txs@);
                            }
                        },
                        Err(e) => {
                            proof {
                                assert(first_error(after, fv) == i);
                                lemma_first_error_stays(rv, fv, i + 1, rv.len() as int);
                                assert(rv.take(rv.len() as int) == rv);
                            }
                            return Err(e);
                        },
                    }
                } else if kind == 2 {
                    match read_transaction_row_with(i, cells.as_slice(), f) {
                        Ok(row) => {
                            let ghost old_txs = txs@;
                            txs.push(row);
                            proof {
                                assert(txs@.drop_last() == old_txs);
                                assert(transaction_row_read(i as int, rv[i as int]->0, txs@.last()));
                                lemma_rows_extend_tx(rv.take(i as int), rv[i as int], old_txs, txs@);
                                lemma_rows_extend_cmd(rv.take(i as int), rv[i as int], cmds@, cmds@);
                            }
                        },
                        Err(e) => {
                            proof {
                                assert(first_error(after, fv) == i);
                                lemma_first_error_stays(rv, fv, i + 1, rv.len() as int);
                                assert(rv.take(rv.len() as int) == rv);
                            }
                            return Err(e);
                        },
                    }
                } else {
                    proof {
                        lemma_rows_extend_cmd(rv.take(i as int), rv[i as int], cmds@, cmds@);
                        lemma_rows_extend_tx(rv.take(i as int), rv[i as int], txs@, txs@);
                    }
                }
            },
        }
        i = i + 1;
    }
    assert(rv.take(rv.len() as int) == rv);
    Ok((txs, cmds))
}

/// The rows of a transactions sheet written as CSV with a header row,
/// `ron` being the outcomes of reading the RON cells of each record.
pub fn read_transactions_sheet(text: &str, ron: &[Vec<Option<String>>]) -> (r: Result<
    (Vec<TransactionRow>, Vec<CommandRow>),
    Error,
>)
    ensures
        ({
            let rv = csv_records_of(text@);
            let fv = fails_view(ron@);
            let e = first_error(rv, fv);
            rv.len() + 2 <= u64::MAX ==> if e >= 0 {
                r.is_err() && error_is(r->Err_0, record_error(e, rv[e], ron_at(fv, e))->0)
            } else {
                r matches Ok((txs, cmds)) && txs@.len() == count_kind(rv, 2) && cmds@.len()
                    == count_kind(rv, 1) && (forall|n: int|
                    0 <= n < txs@.len() ==> transaction_row_read(
                        nth_of_kind(rv, 2, n),
                        rv[nth_of_kind(rv, 2, n)]->0,
                        #[trigger] txs@[n],
                    )) && (forall|n: int|
                    0 <= n < cmds@.len() ==> command_row_read(
                        nth_of_kind(rv, 1, n),
                        rv[nth_of_kind(rv, 1, n)]->0,
                        #[trigger] cmds@[n],
                    ))
            }
        }),
{
    let records = csv_records(text);
    if records.len() as u64 > u64::MAX - 2 {
        return Err(Error::InvalidCsv);
    }
    read_sheet_records(&records, ron)
}


/// A row of the balances sheet: a cash account (RON, as written), the date
/// of the balance, the balance and its commodity (RON, as written).
#[derive(Debug)]
pub struct BalanceRow {
    pub account: String,
    pub date: Date,
    pub balance: (bool, String),
    pub commodity: String,
}

/// What a balance row holds, read from its cells.
pub open spec fn balance_row_read(cells: Seq<Seq<char>>, row: BalanceRow) -> bool {
    &&& row.account@ == cell(cells, 0)
    &&& parsed_date(cell(cells, 1)) == Some(row.date)
    &&& accounting_amount(if 2 < cells.len() { cells[2] } else { "0"@ }) == Ok::<(bool, Seq<char>), Seq<char>>(
        (row.balance.0, row.balance.1@),
    )
    &&& row.commodity@ == cell(cells, 3)
}

/// The RON cells of a balance row, in the order in which they are read:
/// its cash account, then its commodity.
pub open spec fn balance_ron_texts(cells: Seq<Seq<char>>) -> Seq<Seq<char>> {
    seq![cell(cells, 0), cell(cells, 3)]
}

/// Why a record of the balances sheet is refused, if it is, `f` being the
/// outcomes of reading its RON cells: its date, its cash account, its
/// balance, then its commodity.
pub open spec fn balance_record_error(record: Option<Seq<Seq<char>>>, f: Seq<Option<Seq<char>>>) -> Option<
    SheetError,
> {
    match record {
        None => Some(SheetError::Csv),
        Some(cells) => {
            let amount_text = if 2 < cells.len() { cells[2] } else { "0"@ };
            if parsed_date(cell(cells, 1)) is None {
                Some(SheetError::Date(cell(cells, 1)))
            } else if ron_fail(f, 0) is Some {
                Some(SheetError::Ron("Cash"@, ron_fail(f, 0)->0))
            } else if accounting_amount(amount_text) is Err {
                Some(SheetError::Amount(accounting_amount(amount_text)->Err_0))
            } else if ron_fail(f, 1) is Some {
                Some(SheetError::Ron("Commodity"@, ron_fail(f, 1)->0))
            } else {
                None
            }
        },
    }
}

/// Index of the first refused record of the balances sheet, or -1; `ron`
/// gives the outcomes of reading the RON cells of each record.
pub open spec fn first_balance_error(records: Seq<Option<Seq<Seq<char>>>>, ron: Seq<Seq<Option<Seq<char>>>>) -> int
    decreases records.len(),
{
    if records.len() == 0 {
        -1
    } else {
        let e = first_balance_error(records.drop_last(), ron);
        if e >= 0 {
            e
        } else if balance_record_error(records.last(), ron_at(ron, records.len() - 1)) is Some {
            records.len() - 1
        } else {
            -1
        }
    }
}

proof fn lemma_first_balance_error_stays(
    records: Seq<Option<Seq<Seq<char>>>>,
    ron: Seq<Seq<Option<Seq<char>>>>,
    j: int,
    k: int,
)
    requires
        0 <= j <= k <= records.len(),
        first_balance_error(records.take(j), ron) >= 0,
    ensures
        first_balance_error(records.take(k), ron) == first_balance_error(records.take(j), ron),
    decreases k - j,
{
    if k > j {
        lemma_first_balance_error_stays(records, ron, j, k - 1);
        assert(records.take(k).drop_last() == records.take(k - 1));
    }
}

/// The RON cells of a balance row, in the order in which they are read.
pub fn balance_ron_cells(cells: &[String]) -> (r: Vec<String>)
    ensures
        strings_view(r@) == balance_ron_texts(strings_view(cells@)),
{
    let mut out: Vec<String> = Vec::new();
    out.push(chars_to_string(&cell_chars(cells, 0)));
    out.push(chars_to_string(&cell_chars(cells, 3)));
    assert(strings_view(out@) =~= balance_ron_texts(strings_view(cells@)));
    out
}

/// Reads a row of the balances sheet, `f` being the outcomes of reading its
/// RON cells.
pub fn read_balance_row(cells: &[String], f: &[Option<String>]) -> (r: Result<BalanceRow, Error>)
    ensures
        match balance_record_error(Some(strings_view(cells@)), fail_view(f@)) {
            Some(e) => r.is_err() && error_is(r->Err_0, e),
            None => r matches Ok(row) && balance_row_read(strings_view(cells@), row),
        },
{
    let date = date_of(&cell_chars(cells, 1))?;
    if let Some(e) = ron_failure(f, 0, "Cash") {
        return Err(e);
    }
    let amount_text = if 2 < cells.len() {
        to_chars(cells[2].as_str())
    } else {
        to_chars("0")
    };
    let balance = amount_of(&amount_text)?;
    if let Some(e) = ron_failure(f, 1, "Commodity") {
        return Err(e);
    }
    Ok(
        BalanceRow {
            account: chars_to_string(&cell_chars(cells, 0)),
            date,
            balance,
            commodity: chars_to_string(&cell_chars(cells, 3)),
        },
    )
}

/// The rows of the balances sheet given by its CSV records, in order, and
/// the outcomes `ron` of reading the RON cells of each record (as
/// `balance_ron_cells` gives them); or the error of the first record
/// refused.
pub fn read_balance_records(records: &[Option<Vec<String>>], ron: &[Vec<Option<String>>]) -> (r: Result<
    Vec<BalanceRow>,
    Error,
>)
    ensures
        ({
            let rv = records_view(records@);
            let fv = fails_view(ron@);
            let e = first_balance_error(rv, fv);
            if e >= 0 {
                r.is_err() && error_is(r->Err_0, balance_record_error(rv[e], ron_at(fv, e))->0)
            } else {
                r matches Ok(rows) && rows@.len() == rv.len() && forall|k: int|
                    0 <= k < rows@.len() ==> balance_row_read(rv[k]->0, #[trigger] rows@[k])
            }
        }),
{
    let ghost rv = records_view(records@);
    let ghost fv = fails_view(ron@);
    let none: Vec<Option<String>> = Vec::new();
    let mut rows: Vec<BalanceRow> = Vec::new();
    let mut i: usize = 0;
    while i < records.len()
        invariant
            i <= records@.len(),
            rv == records_view(records@),
            fv == fails_view(ron@),
            none@.len() == 0,
            first_balance_error(rv.take(i as int), fv) == -1,
            rows@.len() == i,
            forall|k: int| 0 <= k < i ==> balance_row_read(rv[k]->0, #[trigger] rows@[k]),
        decreases records.len() - i,
    {
        let f: &[Option<String>] = if i < ron.len() {
            ron[i].as_slice()
        } else {
            none.as_slice()
        };
        proof {
            assert(rv.take(i + 1).drop_last() == rv.take(i as int));
            assert(rv.take(i + 1).last() == rv[i as int]);
            assert(fail_view(f@) =~= ron_at(fv, i as int));
        }
        match &records[i] {
            None => {
                proof {
                    lemma_first_balance_error_stays(rv, fv, i + 1, rv.len() as int);
                    assert(rv.take(rv.len() as int) == rv);
                }
                return Err(Error::InvalidCsv);
            },
            Some(cells) => {
                assert(rv[i as int] == Some(strings_view(cells@)));
                match read_balance_row(cells.as_slice(), f) {
                    Ok(row) => {
                        let ghost old_rows = rows@;
                        rows.push(row);
                        proof {
                            assert forall|k: int| 0 <= k < i + 1 implies balance_row_read(
                                rv[k]->0,
                                #[trigger] rows@[k],
                            ) by {
                                if k < i {
                                    assert(rows@[k] == old_rows[k]);
                                    assert(balance_row_read(rv[k]->0, old_rows[k]));
                                }
                            }
                        }
                    },
                    Err(e) => {
                        proof {
                            lemma_first_balance_error_stays(rv, fv, i + 1, rv.len() as int);
                            assert(rv.take(rv.len() as int) == rv);
                        }
                        return Err(e);
                    },
                }
            },
        }
        i = i + 1;
    }
    assert(rv.take(rv.len() as int) == rv);
    Ok(rows)
}

/// The rows of a balances sheet written as CSV with a header row, `ron`
/// being the outcomes of reading the RON cells of each record.
pub fn read_balances_sheet(text: &str, ron: &[Vec<Option<String>>]) -> (r: Result<
    Vec<BalanceRow>,
    Error,
>)
    ensures
        ({
            let rv = csv_records_of(text@);
            let fv = fails_view(ron@);
            let e = first_balance_error(rv, fv);
            if e >= 0 {
                r.is_err() && error_is(r->Err_0, balance_record_error(rv[e], ron_at(fv, e))->0)
            } else {
                r matches Ok(rows) && rows@.len() == rv.len() && forall|k: int|
                    0 <= k < rows@.len() ==> balance_row_read(rv[k]->0, #[trigger] rows@[k])
            }
        }),
{
    let records = csv_records(text);
    read_balance_records(&records, ron)
}

// A single record given cell by cell.
// ---------------------------------------------------------------------------

/// A transaction record given cell by cell: its dates and amount read, and
/// its RON cells as the caller read them into its own types.
#[derive(Debug)]
pub struct CsvRecord<L, D, B> {
    pub accrual_date: Date,
    pub until: Option<Date>,
    pub payment_date: Date,
    pub accounting_logic: L,
    pub decorators: D,
    pub entity: String,
    pub description: String,
    /// Whether the amount is negative, and its number as written plainly.
    pub amount: (bool, String),
    pub commodity: String,
    pub backing_account: B,
}

/// Why a RON cell could not be read, if it could not.
pub open spec fn ron_error<T>(r: Result<T, String>) -> Option<Seq<char>> {
    match r {
        Ok(_) => None,
        Err(d) => Some(d@),
    }
}

/// Why a record given cell by cell is refused, if it is: the first cell, in
/// the order in which they are read, that cannot be read; its dates, its
/// accounting logic and decorators, its amount, then its backing account.
pub open spec fn csv_record_error(
    accrual_date: Seq<char>,
    until: Option<Seq<char>>,
    payment_date: Seq<char>,
    accounting_logic: Option<Seq<char>>,
    decorators: Option<Seq<char>>,
    amount: Seq<char>,
    backing_account: Option<Seq<char>>,
) -> Option<SheetError> {
    if parsed_date(accrual_date) is None {
        Some(SheetError::Date(accrual_date))
    } else if until is Some && parsed_date(until->0) is None {
        Some(SheetError::Date(until->0))
    } else if parsed_date(payment_date) is None {
        Some(SheetError::Date(payment_date))
    } else if accounting_logic is Some {
        Some(SheetError::Ron("AccountingLogic"@, accounting_logic->0))
    } else if decorators is Some {
        Some(SheetError::Ron("Decorator"@, decorators->0))
    } else if accounting_amount(amount) is Err {
        Some(SheetError::Amount(accounting_amount(amount)->Err_0))
    } else if backing_account is Some {
        Some(SheetError::Ron("BackingAccount"@, backing_account->0))
    } else {
        None
    }
}

fn ron_value<T>(r: Result<T, String>, ron_type: &str) -> (v: Result<T, Error>)
    ensures
        match r {
            Ok(x) => v == Ok::<T, Error>(x),
            Err(d) => v matches Err(Error::InvalidRon { ron_type: t, details }) && t@ == ron_type@
                && details@ == d@,
        },
{
    match r {
        Ok(x) => Ok(x),
        Err(d) => Err(Error::InvalidRon { ron_type: ron_type.to_string(), details: d }),
    }
}

impl<L, D, B> CsvRecord<L, D, B> {
    /// Reads a transaction record from its cells, its RON cells given as the
    /// outcomes of reading them (the reason as text where one failed).
    pub fn parse(
        accrual_date: &str,
        until: Option<&str>,
        payment_date: &str,
        accounting_logic: Result<L, String>,
        decorators: Result<D, String>,
        entity: &str,
        description: &str,
        amount: &str,
        commodity: &str,
        backing_account: Result<B, String>,
    ) -> (r: Result<CsvRecord<L, D, B>, Error>)
        ensures
            match csv_record_error(
                accrual_date@,
                match until {
                    Some(u) => Some(u@),
                    None => None,
                },
                payment_date@,
                ron_error(accounting_logic),
                ron_error(decorators),
                amount@,
                ron_error(backing_account),
            ) {
                Some(e) => r.is_err() && error_is(r->Err_0, e),
                None => r matches Ok(rec) && {
                    &&& Some(rec.accrual_date) == parsed_date(accrual_date@)
                    &&& (match until {
                        Some(u) => rec.until == parsed_date(u@),
                        None => rec.until is None,
                    })
                    &&& Some(rec.payment_date) == parsed_date(payment_date@)
                    &&& accounting_logic == Ok::<L, String>(rec.accounting_logic)
                    &&& decorators == Ok::<D, String>(rec.decorators)
                    &&& rec.entity@ == entity@
                    &&& rec.description@ == description@
                    &&& accounting_amount(amount@) == Ok::<(bool, Seq<char>), Seq<char>>(
                        (rec.amount.0, rec.amount.1@),
                    )
                    &&& rec.commodity@ == commodity@
                    &&& backing_account == Ok::<B, String>(rec.backing_account)
                },
            },
    {
        let accrual = date_of(&to_chars(accrual_date))?;
        let until_date = match until {
            Some(u) => Some(date_of(&to_chars(u))?),
            None => None,
        };
        let payment = date_of(&to_chars(payment_date))?;
        let logic = ron_value(accounting_logic, "AccountingLogic")?;
        let decorator_list = ron_value(decorators, "Decorator")?;
        let parsed_amount = amount_of(&to_chars(amount))?;
        let backing = ron_value(backing_account, "BackingAccount")?;
        Ok(
            CsvRecord {
                accrual_date: accrual,
                until: until_date,
                payment_date: payment,
                accounting_logic: logic,
                decorators: decorator_list,
                entity: entity.to_string(),
                description: description.to_string(),
                amount: parsed_amount,
                commodity: commodity.to_string(),
                backing_account: backing,
            },
        )
    }
}

} // verus!
