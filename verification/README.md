# ifrs_hledger

A bookkeeping toolkit that turns two spreadsheets (transactions and cash
balances, as CSV) into an [hledger](https://hledger.org) journal kept along
IFRS lines, and that derives year-end closing entries and a cash flow
statement from such a journal.

## Layout

- `src/` is the verified library (Verus). It holds the chart of accounts and
  their hledger names, the calendar and the monthly accrual periods, the
  reading of the sheets (dates, amounts, rows, commands), the planning of the
  journal entries of each accounting treatment (which accounts are debited
  and credited, on which dates, with which comments), the entries that the
  standard decorators add (payment fees, Korean VAT, card payments in a
  foreign currency), the entry that reimburses queued payments, the text of the journal
  (postings, declarations, notes, closing sections, corrections), the reading
  of `hledger close` output and the close tags, and the layout of the cash
  flow statement and its template.
- `app/` is ordinary Rust around it: reading files, running hledger,
  deserializing the RON cells of the sheets into the user's own types, and
  all arithmetic on amounts, which are floating-point numbers.
- `tests/` exercises the library.

Two treatments are planned by the library but refused by the toolkit at run
time: reimbursements, which settle a queue of unreimbursed payments taken by
amount that the toolkit does not keep, and card payments in a foreign
currency, whose conversion needs an exchange-rate service that the toolkit
does not reach.

Calls into outside crates (chrono, regex, csv, base64, textwrap) are made
from the library through small trusted wrappers whose contracts state what
those crates document.
