//! The hledger reports that the statements are computed from: how each
//! query is asked, and which figure of the CSV answer is taken.
use vstd::prelude::*;

use crate::numfmt::{signed_decimal, signed_decimal_chars};
use crate::text::{chars_to_string, strings_view};

verus! {

/// What `{:?}` writes for a string: the text quoted, with escapes.
pub uninterp spec fn str_debug(s: Seq<char>) -> Seq<char>;

/// std's `Debug` for `str`, which quotes and escapes.
#[verifier::external_body]
fn debug_text(s: &str) -> (r: String)
    ensures
        r@ == str_debug(s@),
{
    format!("{:?}", s)
}

/// A balance report of the ledger.
#[derive(Debug, Clone, PartialEq, Eq)]
pub enum Query {
    IncomeStatement,
    ChangeInAccount { account: String },
    ChangeInAccountReverse { account: String },
    ChangeByTag { key: String, value: String },
    CumulativeBalance { account: String },
}

/// Which figure of a CSV balance report is wanted.
#[derive(Debug, Clone, PartialEq, Eq)]
pub enum Return {
    /// The last column of the last row.
    Total,
    /// The last column of the row whose first column is the given text, or
    /// zero when there is no such row.
    SearchRowOrZero(String),
}

pub open spec fn query_debug(q: Query) -> Seq<char> {
    match q {
        Query::IncomeStatement => "IncomeStatement"@,
        Query::ChangeInAccount { account } => "ChangeInAccount { account: "@ + str_debug(account@)
            + " }"@,
        Query::ChangeInAccountReverse { account } => "ChangeInAccountReverse { account: "@
            + str_debug(account@) + " }"@,
        Query::ChangeByTag { key, value } => "ChangeByTag { key: "@ + str_debug(key@) + ", value: "@
            + str_debug(value@) + " }"@,
        Query::CumulativeBalance { account } => "CumulativeBalance { account: "@ + str_debug(
            account@,
        ) + " }"@,
    }
}

pub open spec fn return_debug(r: Return) -> Seq<char> {
    match r {
        Return::Total => "Total"@,
        Return::SearchRowOrZero(s) => "SearchRowOrZero("@ + str_debug(s@) + ")"@,
    }
}

impl Query {
    /// The query as `{:?}` writes it, for error reports.
    pub fn dbg(&self) -> (r: String)
        ensures
            r@ == query_debug(*self),
    {
        let mut out = String::new();
        match self {
            Query::IncomeStatement => {
                out.append("IncomeStatement");
            },
            Query::ChangeInAccount { account } => {
                out.append("ChangeInAccount { account: ");
                out.append(debug_text(account.as_str()).as_str());
                out.append(" }");
            },
            Query::ChangeInAccountReverse { account } => {
                out.append("ChangeInAccountReverse { account: ");
                out.append(debug_text(account.as_str()).as_str());
                out.append(" }");
            },
            Query::ChangeByTag { key, value } => {
                out.append("ChangeByTag { key: ");
                out.append(debug_text(key.as_str()).as_str());
                out.append(", value: ");
                out.append(debug_text(value.as_str()).as_str());
                out.append(" }");
            },
            Query::CumulativeBalance { account } => {
                out.append("CumulativeBalance { account: ");
                out.append(debug_text(account.as_str()).as_str());
                out.append(" }");
            },
        }
        out
    }
}

impl Return {
    /// The figure wanted as `{:?}` writes it, for error reports.
    pub fn dbg(&self) -> (r: String)
        ensures
            r@ == return_debug(*self),
    {
        let mut out = String::new();
        match self {
            Return::Total => {
                out.append("Total");
            },
            Return::SearchRowOrZero(s) => {
                out.append("SearchRowOrZero(");
                out.append(debug_text(s.as_str()).as_str());
                out.append(")");
            },
        }
        out
    }
}

/// The hledger query that matches an account and its subaccounts.
pub open spec fn account_query(account: Seq<char>) -> Seq<char> {
    "^"@ + account + "($|:)"@
}

pub open spec fn tag_query(key: Seq<char>, value: Seq<char>) -> Seq<char> {
    "tag:"@ + key + "="@ + value
}

/// The report and its query, as arguments of hledger.
pub open spec fn query_args(q: Query) -> Seq<Seq<char>> {
    match q {
        Query::IncomeStatement => seq!["incomestatement"@],
        Query::ChangeInAccount { account } => seq!["balance"@, account_query(account@)],
        Query::ChangeInAccountReverse { account } => seq![
            "balance"@,
            account_query(account@),
            "-r"@,
        ],
        Query::ChangeByTag { key, value } => seq!["balance"@, tag_query(key@, value@)],
        Query::CumulativeBalance { account } => seq!["balance"@, account_query(account@), "-H"@],
    }
}

pub open spec fn pivot_args(pivot: Option<Seq<char>>) -> Seq<Seq<char>> {
    match pivot {
        Some(p) => seq!["--pivot"@, p],
        None => Seq::empty(),
    }
}

/// The arguments of hledger for a balance report of `ledger_path` over
/// `period`, answered as bare CSV.
pub open spec fn balance_args(
    ledger_path: Seq<char>,
    period: Seq<char>,
    q: Query,
    pivot: Option<Seq<char>>,
) -> Seq<Seq<char>> {
    seq!["-f"@, ledger_path, "-p"@, period] + query_args(q) + pivot_args(pivot) + seq![
        "--output-format=csv"@,
        "--layout=bare"@,
    ]
}

fn push_arg(args: &mut Vec<String>, a: String)
    ensures
        strings_view(final(args)@) == strings_view(old(args)@).push(a@),
{
    args.push(a);
    assert(strings_view(args@) =~= strings_view(old(args)@).push(a@));
}

fn account_query_text(account: &str) -> (r: String)
    ensures
        r@ == account_query(account@),
{
    let mut s = String::new();
    s.append("^");
    s.append(account);
    s.append("($|:)");
    s
}

fn tag_query_text(key: &str, value: &str) -> (r: String)
    ensures
        r@ == tag_query(key@, value@),
{
    let mut s = String::new();
    s.append("tag:");
    s.append(key);
    s.append("=");
    s.append(value);
    s
}

fn push_pivot(args: &mut Vec<String>, pivot: Option<&str>)
    ensures
        strings_view(final(args)@) == strings_view(old(args)@) + pivot_args(
            match pivot {
                Some(p) => Some(p@),
                None => None,
            },
        ),
{
    match pivot {
        Some(p) => {
            push_arg(args, "--pivot".to_string());
            push_arg(args, p.to_string());
        },
        None => {
            assert(strings_view(args@) =~= strings_view(args@) + Seq::<Seq<char>>::empty());
        },
    }
}

/// The arguments of hledger for the balance of the accounts that `account`
/// matches over `period`, answered as bare CSV.
pub open spec fn account_sum_args(ledger_path: Seq<char>, period: Seq<char>, account: Seq<char>) -> Seq<
    Seq<char>,
> {
    seq![
        "-f"@,
        ledger_path,
        "-p"@,
        period,
        "balance"@,
        account,
        "--output-format=csv"@,
        "--layout=bare"@,
    ]
}

/// The arguments of hledger for the balance of the accounts that `account`
/// matches.
pub fn account_sum_report_args(ledger_path: &str, period: &str, account: &str) -> (r: Vec<String>)
    ensures
        strings_view(r@) == account_sum_args(ledger_path@, period@, account@),
{
    let mut args: Vec<String> = Vec::new();
    push_arg(&mut args, "-f".to_string());
    push_arg(&mut args, ledger_path.to_string());
    push_arg(&mut args, "-p".to_string());
    push_arg(&mut args, period.to_string());
    push_arg(&mut args, "balance".to_string());
    push_arg(&mut args, account.to_string());
    push_arg(&mut args, "--output-format=csv".to_string());
    push_arg(&mut args, "--layout=bare".to_string());
    assert(strings_view(args@) =~= account_sum_args(ledger_path@, period@, account@));
    args
}

/// The arguments of hledger for a balance report.
pub fn balance_report_args(ledger_path: &str, period: &str, query: &Query, pivot: Option<&str>) -> (r:
    Vec<String>)
    ensures
        strings_view(r@) == balance_args(
            ledger_path@,
            period@,
            *query,
            match pivot {
                Some(p) => Some(p@),
                None => None,
            },
        ),
{
    let mut args: Vec<String> = Vec::new();
    push_arg(&mut args, "-f".to_string());
    push_arg(&mut args, ledger_path.to_string());
    push_arg(&mut args, "-p".to_string());
    push_arg(&mut args, period.to_string());
    match query {
        Query::IncomeStatement => {
            push_arg(&mut args, "incomestatement".to_string());
        },
        Query::ChangeInAccount { account } => {
            push_arg(&mut args, "balance".to_string());
            push_arg(&mut args, account_query_text(account.as_str()));
        },
        Query::ChangeInAccountReverse { account } => {
            push_arg(&mut args, "balance".to_string());
            push_arg(&mut args, account_query_text(account.as_str()));
            push_arg(&mut args, "-r".to_string());
        },
        Query::ChangeByTag { key, value } => {
            push_arg(&mut args, "balance".to_string());
            push_arg(&mut args, tag_query_text(key.as_str(), value.as_str()));
        },
        Query::CumulativeBalance { account } => {
            push_arg(&mut args, "balance".to_string());
            push_arg(&mut args, account_query_text(account.as_str()));
            push_arg(&mut args, "-H".to_string());
        },
    }
    push_pivot(&mut args, pivot);
    push_arg(&mut args, "--output-format=csv".to_string());
    push_arg(&mut args, "--layout=bare".to_string());
    args
}

// The figure taken from the CSV answer.
// ---------------------------------------------------------------------------

/// The data records of `text` read as CSV with a header row, as csv 1.x
/// `Reader::from_reader(..).records()` yields them: each a list of fields,
/// or nothing where the record could not be read.
pub uninterp spec fn csv_records_of(text: Seq<char>) -> Seq<Option<Seq<Seq<char>>>>;

pub open spec fn records_view(v: Seq<Option<Vec<String>>>) -> Seq<Option<Seq<Seq<char>>>> {
    Seq::new(
        v.len(),
        |k: int|
            match v[k] {
                Some(r) => Some(strings_view(r@)),
                None => None,
            },
    )
}

/// `csv::Reader::from_reader(text.as_bytes()).records()`, each record
/// taken as its fields, or as nothing when it is an error.
#[verifier::external_body]
pub(crate) fn csv_records(text: &str) -> (r: Vec<Option<Vec<String>>>)
    ensures
        records_view(r@) == csv_records_of(text@),
{
    csv::Reader::from_reader(text.as_bytes()).records().map(
        |rec| rec.ok().map(|fields| fields.iter().map(|f| f.to_string()).collect()),
    ).collect()
}

/// The index of the first record read whose first field is `search`.
pub open spec fn first_row_with(records: Seq<Option<Seq<Seq<char>>>>, search: Seq<char>) -> int
    decreases records.len(),
{
    if records.len() == 0 {
        -1
    } else {
        let rest = first_row_with(records.drop_first(), search);
        if (records[0] matches Some(r) && r.len() > 0 && r[0] == search) {
            0
        } else if rest < 0 {
            -1
        } else {
            rest + 1
        }
    }
}

/// The text of the wanted figure: for `Total` the last field of the last
/// record (nothing when that record could not be read or is empty); for
/// `SearchRowOrZero` the last field of the first row starting with the
/// searched text, else `0`.
pub open spec fn selected_amount(records: Seq<Option<Seq<Seq<char>>>>, fetch: Return) -> Option<
    Seq<char>,
> {
    match fetch {
        Return::Total => if records.len() > 0 && (records.last() matches Some(r) && r.len() > 0) {
            Some(records.last()->0.last())
        } else {
            None
        },
        Return::SearchRowOrZero(search) => {
            let i = first_row_with(records, search@);
            if i >= 0 && records[i]->0.len() > 0 {
                Some(records[i]->0.last())
            } else {
                Some("0"@)
            }
        },
    }
}

/// The text of the wanted figure among the records of a CSV answer.
pub fn select_amount(records: &[Option<Vec<String>>], fetch: &Return) -> (r: Option<String>)
    ensures
        match (r, selected_amount(records_view(records@), *fetch)) {
            (Some(s), Some(t)) => s@ == t,
            (None, None) => true,
            _ => false,
        },
{
    let ghost rv = records_view(records@);
    match fetch {
        Return::Total => {
            let n = records.len();
            if n == 0 {
                return None;
            }
            match &records[n - 1] {
                Some(rec) => {
                    if rec.len() == 0 {
                        None
                    } else {
                        Some(rec[rec.len() - 1].clone())
                    }
                },
                None => None,
            }
        },
        Return::SearchRowOrZero(search) => {
            let mut i: usize = 0;
            assert(rv.skip(0) == rv);
            while i < records.len()
                invariant
                    i <= records@.len(),
                    rv == records_view(records@),
                    *fetch == Return::SearchRowOrZero(*search),
                    forall|k: int| 0 <= k < i ==> !(#[trigger] rv[k] matches Some(r) && r.len() > 0
                        && r[0] == search@),
                    first_row_with(rv, search@) == (if first_row_with(rv.skip(i as int), search@) < 0 {
                        -1
                    } else {
                        first_row_with(rv.skip(i as int), search@) + i
                    }),
                decreases records.len() - i,
            {
                assert(rv.skip(i as int).drop_first() == rv.skip(i + 1));
                assert(rv.skip(i as int)[0] == rv[i as int]);
                match &records[i] {
                    Some(rec) => {
                        if rec.len() > 0 && rec[0] == *search {
                            assert(rv[i as int] == Some(strings_view(rec@)));
                            assert(first_row_with(rv.skip(i as int), search@) == 0);
                            assert(first_row_with(rv, search@) == i);
                            let res = rec[rec.len() - 1].clone();
                            assert(res@ == strings_view(rec@).last());
                            return Some(res);
                        }
                    },
                    None => {},
                }
                i = i + 1;
            }
            Some("0".to_string())
        },
    }
}

/// The text of the wanted figure in a CSV answer of hledger.
pub fn amount_text_of_report(output_csv: &str, fetch: &Return) -> (r: Option<String>)
    ensures
        match (r, selected_amount(csv_records_of(output_csv@), *fetch)) {
            (Some(s), Some(t)) => s@ == t,
            (None, None) => true,
            _ => false,
        },
{
    let records = csv_records(output_csv);
    select_amount(&records, fetch)
}

// Register reports.
// ---------------------------------------------------------------------------

/// The postings a register report lists.
#[derive(Debug, Clone, PartialEq, Eq)]
pub enum RegisterQuery {
    Account(String),
    Tag { key: String, value: String },
    TagReverse { key: String, value: String },
}

/// How a register report is printed.
#[derive(Debug, Clone, Copy, PartialEq, Eq, Structural)]
pub enum RegisterOutput {
    Raw { width: i64 },
}

pub open spec fn register_query_args(q: RegisterQuery) -> Seq<Seq<char>> {
    match q {
        RegisterQuery::Account(a) => seq![account_query(a@)],
        RegisterQuery::Tag { key, value } => seq![tag_query(key@, value@)],
        RegisterQuery::TagReverse { key, value } => seq![tag_query(key@, value@), "-r"@],
    }
}

/// The arguments of hledger for a register report of `ledger_path` over
/// `period`.
pub open spec fn register_args(
    ledger_path: Seq<char>,
    period: Seq<char>,
    q: RegisterQuery,
    pivot: Option<Seq<char>>,
    format: RegisterOutput,
) -> Seq<Seq<char>> {
    seq!["-f"@, ledger_path, "-p"@, period, "register"@] + register_query_args(q) + pivot_args(pivot)
        + match format {
        RegisterOutput::Raw { width } => seq!["-w"@, signed_decimal(width as int)],
    }
}

/// The arguments of hledger for a register report.
pub fn register_report_args(
    ledger_path: &str,
    period: &str,
    query: &RegisterQuery,
    pivot: Option<&str>,
    format: RegisterOutput,
) -> (r: Vec<String>)
    ensures
        strings_view(r@) == register_args(
            ledger_path@,
            period@,
            *query,
            match pivot {
                Some(p) => Some(p@),
                None => None,
            },
            format,
        ),
{
    let mut args: Vec<String> = Vec::new();
    push_arg(&mut args, "-f".to_string());
    push_arg(&mut args, ledger_path.to_string());
    push_arg(&mut args, "-p".to_string());
    push_arg(&mut args, period.to_string());
    push_arg(&mut args, "register".to_string());
    match query {
        RegisterQuery::Account(a) => {
            push_arg(&mut args, account_query_text(a.as_str()));
        },
        RegisterQuery::Tag { key, value } => {
            push_arg(&mut args, tag_query_text(key.as_str(), value.as_str()));
        },
        RegisterQuery::TagReverse { key, value } => {
            push_arg(&mut args, tag_query_text(key.as_str(), value.as_str()));
            push_arg(&mut args, "-r".to_string());
        },
    }
    push_pivot(&mut args, pivot);
    match format {
        RegisterOutput::Raw { width } => {
            push_arg(&mut args, "-w".to_string());
            push_arg(&mut args, chars_to_string(&signed_decimal_chars(width)));
        },
    }
    args
}


/// The balance reports on one account differ by a flag put right after
/// the account's query: the cumulative balance is the change in the account
/// made historical (`-H`, counting from the start of the journal), and the
/// reversed change is that change with its sign reversed (`-r`); the change
/// itself carries neither flag. Each query matches the account and its
/// subaccounts.
pub proof fn lemma_account_report_flags(
    ledger_path: Seq<char>,
    period: Seq<char>,
    account: String,
    pivot: Option<Seq<char>>,
)
    ensures
        balance_args(ledger_path, period, Query::CumulativeBalance { account }, pivot) == balance_args(
            ledger_path,
            period,
            Query::ChangeInAccount { account },
            pivot,
        ).insert(6, "-H"@),
        balance_args(ledger_path, period, Query::ChangeInAccountReverse { account }, pivot) == balance_args(
            ledger_path,
            period,
            Query::ChangeInAccount { account },
            pivot,
        ).insert(6, "-r"@),
        balance_args(ledger_path, period, Query::ChangeInAccount { account }, pivot)[4] == "balance"@,
        balance_args(ledger_path, period, Query::ChangeInAccount { account }, pivot)[5] == "^"@ + account@
            + "($|:)"@,
        balance_args(ledger_path, period, Query::CumulativeBalance { account }, pivot) != balance_args(
            ledger_path,
            period,
            Query::ChangeInAccount { account },
            pivot,
        ),
{
    let c = balance_args(ledger_path, period, Query::ChangeInAccount { account }, pivot);
    let h = balance_args(ledger_path, period, Query::CumulativeBalance { account }, pivot);
    let r = balance_args(ledger_path, period, Query::ChangeInAccountReverse { account }, pivot);
    assert(h =~= c.insert(6, "-H"@));
    assert(r =~= c.insert(6, "-r"@));
    assert(h.len() != c.len());
}


/// A reversed register report on a tag is the register report on that tag
/// with its sign reversed: `-r` put right after the tag's query, which
/// matches the postings tagged `key=value`; a register report on an account
/// matches the account and its subaccounts.
pub proof fn lemma_register_report_flags(
    ledger_path: Seq<char>,
    period: Seq<char>,
    key: String,
    value: String,
    account: String,
    pivot: Option<Seq<char>>,
    format: RegisterOutput,
)
    ensures
        register_args(ledger_path, period, RegisterQuery::TagReverse { key, value }, pivot, format) == register_args(
            ledger_path,
            period,
            RegisterQuery::Tag { key, value },
            pivot,
            format,
        ).insert(6, "-r"@),
        register_args(ledger_path, period, RegisterQuery::Tag { key, value }, pivot, format)[4] == "register"@,
        register_args(ledger_path, period, RegisterQuery::Tag { key, value }, pivot, format)[5] == "tag:"@ + key@
            + "="@ + value@,
        register_args(ledger_path, period, RegisterQuery::Account(account), pivot, format)[5] == "^"@ + account@
            + "($|:)"@,
{
    let t = register_args(ledger_path, period, RegisterQuery::Tag { key, value }, pivot, format);
    let r = register_args(ledger_path, period, RegisterQuery::TagReverse { key, value }, pivot, format);
    assert(r =~= t.insert(6, "-r"@));
}

} // verus!
