//! The closing section appended to the end of a ledger: the year-end closing
//! transactions, each kept as the text it was given in, with the account
//! declarations they need listed once before them.
use vstd::prelude::*;

use crate::date::{chrono_parse_iso, chrono_parse_ymd, date_le, Date};
use crate::numfmt::{signed_decimal, signed_decimal_chars};
use crate::sorted_texts::{insert_text_sorted, texts_sorted};
use crate::text::{
    chars_lt, chars_to_string, join, join_chars, lemma_text_lt_asym, lemma_text_lt_total,
    lemma_text_lt_trans, lines, push_all, push_repeat, repeat_char, slice_chars, split_lines,
    starts_with, starts_with_chars, strings_view, text_lt, to_chars, trim_end, trim_end_chars,
    trim_start, trim_start_chars,
};

verus! {

broadcast use vstd::seq_lib::group_to_multiset_ensures, vstd::seq_lib::to_multiset_insert, vstd::multiset::group_multiset_axioms;

// Byte lengths of UTF-8 text.
// ---------------------------------------------------------------------------

/// Number of bytes of `c` in UTF-8.
pub open spec fn utf8_len(c: char) -> nat {
    let u = c as u32;
    if u < 0x80 {
        1
    } else if u < 0x800 {
        2
    } else if u < 0x10000 {
        3
    } else {
        4
    }
}

/// Number of bytes of `s` in UTF-8, which `str::len` gives.
pub open spec fn byte_len(s: Seq<char>) -> nat
    decreases s.len(),
{
    if s.len() == 0 {
        0
    } else {
        utf8_len(s[0]) + byte_len(s.drop_first())
    }
}

/// How many characters of `s` the first `n` bytes of it hold, if the
/// `n`-th byte ends a character.
pub open spec fn chars_in_bytes(s: Seq<char>, n: int) -> Option<nat>
    decreases s.len(),
{
    if n == 0 {
        Some(0)
    } else if n < 0 || s.len() == 0 {
        None
    } else {
        match chars_in_bytes(s.drop_first(), n - utf8_len(s[0])) {
            Some(k) => Some(k + 1),
            None => None,
        }
    }
}

spec fn shifted(o: Option<nat>, i: nat) -> Option<nat> {
    match o {
        Some(k) => Some(k + i),
        None => None,
    }
}

fn utf8_len_of(c: char) -> (r: u64)
    ensures
        r == utf8_len(c),
{
    let u = c as u32;
    if u < 0x80 {
        1
    } else if u < 0x800 {
        2
    } else if u < 0x10000 {
        3
    } else {
        4
    }
}

/// Counts the bytes of `v`, stopping once `cap` is reached: the result is
/// the byte length when that is below `cap`, else some number from `cap`.
fn byte_len_capped(v: &[char], cap: u64) -> (r: u64)
    requires
        cap < 0x1000,
    ensures
        r < cap ==> r == byte_len(v@),
        r >= cap ==> byte_len(v@) >= cap,
{
    let mut acc: u64 = 0;
    let mut i: usize = 0;
    assert(v@.skip(0) == v@);
    while i < v.len() && acc < cap
        invariant
            i <= v@.len(),
            acc < cap + 4,
            cap < 0x1000,
            byte_len(v@) == acc + byte_len(v@.skip(i as int)),
        decreases v.len() - i,
    {
        assert(v@.skip(i as int).drop_first() == v@.skip(i + 1));
        acc = acc + utf8_len_of(v[i]);
        i = i + 1;
    }
    if i == v.len() {
        assert(v@.skip(i as int).len() == 0);
    }
    acc
}

// The date a closing record starts with.
// ---------------------------------------------------------------------------

/// Whether reading the date at the start of `line` can take its first ten
/// bytes: the line is shorter, or its tenth byte ends a character.
pub open spec fn date_prefix_ok(line: Seq<char>) -> bool {
    byte_len(line) < 10 || chars_in_bytes(line, 10) is Some
}

/// The date written in the first ten bytes of `line`, as chrono reads it
/// with the format `%Y-%m-%d`.
pub open spec fn record_date(line: Seq<char>) -> Option<Date> {
    if byte_len(line) < 10 {
        None
    } else {
        match chars_in_bytes(line, 10) {
            Some(k) => match chrono_parse_ymd(line.take(k as int)) {
                Some((y, m, d)) => Some(Date { year: y, month: m, day: d }),
                None => None,
            },
            None => None,
        }
    }
}

/// The date that starts `line`, read from its first ten bytes.
pub fn parse_record_date(line: &[char]) -> (r: Option<Date>)
    requires
        date_prefix_ok(line@),
    ensures
        r == record_date(line@),
{
    let mut acc: u64 = 0;
    let mut i: usize = 0;
    assert(line@.skip(0) == line@);
    while i < line.len() && acc < 10
        invariant
            i <= line@.len(),
            acc < 14,
            byte_len(line@) == acc + byte_len(line@.skip(i as int)),
            chars_in_bytes(line@, 10) == shifted(chars_in_bytes(line@.skip(i as int), 10 - acc), i as nat),
        decreases line.len() - i,
    {
        assert(line@.skip(i as int).drop_first() == line@.skip(i + 1));
        acc = acc + utf8_len_of(line[i]);
        i = i + 1;
    }
    if acc < 10 {
        assert(line@.skip(i as int).len() == 0);
        return None;
    }
    if acc > 10 {
        return None;
    }
    let prefix = chars_to_string(&slice_chars(line, 0, i));
    assert(line@.subrange(0, i as int) == line@.take(i as int));
    chrono_parse_iso(prefix.as_str())
}


// Reading a source of closing statements.
// ---------------------------------------------------------------------------

/// What has been read of a source so far: the account declarations, the
/// records completed, and the record being read (its date and lines).
pub type ScanState = (Seq<Seq<char>>, Seq<(Date, Seq<char>)>, Option<(Date, Seq<Seq<char>>)>);

/// `done`, with the record being read completed: its lines joined.
pub open spec fn flushed(done: Seq<(Date, Seq<char>)>, cur: Option<(Date, Seq<Seq<char>>)>) -> Seq<
    (Date, Seq<char>),
> {
    match cur {
        Some((d, ls)) => done.push((d, join(ls, seq!['\n']))),
        None => done,
    }
}

/// Reading one more line: comments are skipped, account declarations kept
/// aside, a dated line starts a new record, and any other line continues
/// the record being read (outside a record it is dropped).
pub open spec fn scan_step(st: ScanState, line: Seq<char>) -> ScanState {
    let ts = trim_start(line);
    if starts_with(ts, seq![';']) {
        st
    } else if starts_with(ts, "account "@) {
        (st.0.push(trim_end(line)), st.1, st.2)
    } else {
        match record_date(ts) {
            Some(d) => (st.0, flushed(st.1, st.2), Some((d, seq![trim_end(line)]))),
            None => match st.2 {
                Some((d, ls)) => (st.0, st.1, Some((d, ls.push(trim_end(line))))),
                None => st,
            },
        }
    }
}

pub open spec fn scan(ls: Seq<Seq<char>>) -> ScanState
    decreases ls.len(),
{
    if ls.len() == 0 {
        (Seq::empty(), Seq::empty(), None)
    } else {
        scan_step(scan(ls.drop_last()), ls.last())
    }
}

/// The account declarations of a source, in their order, trimmed at the end.
pub open spec fn source_declarations(src: Seq<char>) -> Seq<Seq<char>> {
    scan(lines(src)).0
}

/// The closing records of a source, in their order: each from a dated line
/// to the next dated line or the end, comments and declarations left out.
pub open spec fn source_records(src: Seq<char>) -> Seq<(Date, Seq<char>)> {
    flushed(scan(lines(src)).1, scan(lines(src)).2)
}

/// Whether reading a line can look at its date: it is a comment, a
/// declaration, or its first ten bytes end a character.
pub open spec fn line_readable(line: Seq<char>) -> bool {
    let ts = trim_start(line);
    starts_with(ts, seq![';']) || starts_with(ts, "account "@) || date_prefix_ok(ts)
}

pub open spec fn source_readable(src: Seq<char>) -> bool {
    forall|k: int| 0 <= k < lines(src).len() ==> line_readable(#[trigger] lines(src)[k])
}

// Order of the section.
// ---------------------------------------------------------------------------

/// Records are ordered by date, then by text.
pub open spec fn record_le(a: (Date, Seq<char>), b: (Date, Seq<char>)) -> bool {
    (date_le(a.0, b.0) && a.0 != b.0) || (a.0 == b.0 && !text_lt(b.1, a.1))
}

pub open spec fn records_sorted(s: Seq<(Date, Seq<char>)>) -> bool {
    forall|i: int, j: int| 0 <= i < j < s.len() ==> record_le(#[trigger] s[i], #[trigger] s[j])
}

proof fn lemma_record_le_total(a: (Date, Seq<char>), b: (Date, Seq<char>))
    ensures
        record_le(a, b) || record_le(b, a),
{
    lemma_text_lt_asym(a.1, b.1);
}

proof fn lemma_record_le_trans(a: (Date, Seq<char>), b: (Date, Seq<char>), c: (Date, Seq<char>))
    requires
        record_le(a, b),
        record_le(b, c),
    ensures
        record_le(a, c),
{
    if a.0 == b.0 && b.0 == c.0 {
        lemma_text_lt_total(a.1, c.1);
        if text_lt(c.1, a.1) {
            lemma_text_lt_total(b.1, a.1);
            lemma_text_lt_total(c.1, b.1);
            if text_lt(a.1, b.1) {
                lemma_text_lt_trans(c.1, a.1, b.1);
            }
        }
    }
}

/// The record being read, from its date and its lines so far.
pub open spec fn pending(date: Option<Date>, ls: Seq<Vec<char>>) -> Option<(Date, Seq<Seq<char>>)> {
    match date {
        Some(d) => Some((d, Seq::new(ls.len(), |k: int| ls[k]@))),
        None => None,
    }
}

proof fn lemma_flushed_multiset(done: Seq<(Date, Seq<char>)>, cur: Option<(Date, Seq<Seq<char>>)>)
    ensures
        flushed(done, cur).to_multiset() =~= done.to_multiset().add(flushed(Seq::empty(), cur).to_multiset()),
{
    let e: Seq<(Date, Seq<char>)> = Seq::empty();
    assert(e.to_multiset() =~= vstd::multiset::Multiset::empty());
    match cur {
        Some((d, ls)) => {
            let x = (d, join(ls, seq!['\n']));
            assert(e.push(x).to_multiset() =~= e.to_multiset().insert(x));
        },
        None => {},
    }
}

/// The texts of a sequence of `&str`.
pub open spec fn str_views(v: Seq<&str>) -> Seq<Seq<char>> {
    Seq::new(v.len(), |k: int| v[k]@)
}

/// The declarations of all the sources.
pub open spec fn all_declarations(srcs: Seq<Seq<char>>) -> Set<Seq<char>>
    decreases srcs.len(),
{
    if srcs.len() == 0 {
        Set::empty()
    } else {
        all_declarations(srcs.drop_last()).union(source_declarations(srcs.last()).to_set())
    }
}

/// The records of all the sources, source after source.
pub open spec fn all_records(srcs: Seq<Seq<char>>) -> Seq<(Date, Seq<char>)>
    decreases srcs.len(),
{
    if srcs.len() == 0 {
        Seq::empty()
    } else {
        all_records(srcs.drop_last()) + source_records(srcs.last())
    }
}

/// The title of a section with these records: the year of the first, and
/// of the last when that differs (year 0 stands for a missing record).
pub open spec fn title_text(records: Seq<(Date, Seq<char>)>) -> Seq<char> {
    let start = if records.len() > 0 { records[0].0.year as int } else { 0 };
    let end = if records.len() > 0 { records.last().0.year as int } else { 0 };
    if start == end {
        "Closing "@ + signed_decimal(start)
    } else {
        "Closing "@ + signed_decimal(start) + seq!['-'] + signed_decimal(end)
    }
}

/// A section header comment: `; --- title ` filled with `-` up to 100 bytes.
pub open spec fn header_text(title: Seq<char>) -> Seq<char> {
    let h = "; --- "@ + title + seq![' '];
    if byte_len(h) < 100 {
        h + repeat_char('-', (100 - byte_len(h)) as nat)
    } else {
        h
    }
}

/// The text of a section with these declarations and records.
pub open spec fn section_text(decls: Seq<Seq<char>>, records: Seq<(Date, Seq<char>)>) -> Seq<char> {
    header_text(title_text(records)) + seq!['\n', '\n'] + join(
        decls + Seq::new(records.len(), |k: int| records[k].1),
        seq!['\n'],
    )
}

/// The header comment of a section titled `title`.
pub fn comment_header(title: &str) -> (r: String)
    ensures
        r@ == header_text(title@),
{
    let mut h = to_chars("; --- ");
    push_all(&mut h, &to_chars(title));
    h.push(' ');
    assert(h@ == "; --- "@ + title@ + seq![' ']);
    let n = byte_len_capped(&h, 100);
    if n < 100 {
        push_repeat(&mut h, '-', (100 - n) as usize);
    }
    chars_to_string(&h)
}

/// One closing record: the date it starts with and its lines.
#[derive(Clone)]
struct ClosingTransaction {
    date: Date,
    raw_statement: String,
}

/// The closing section: the account declarations of the closing
/// statements, each once and sorted, and their records, sorted by date and
/// then by text.
pub struct ClosingSection {
    account_declarations: Vec<String>,
    closing_transactions: Vec<ClosingTransaction>,
}

impl ClosingSection {
    /// The account declarations, sorted.
    pub closed spec fn declarations(&self) -> Seq<Seq<char>> {
        strings_view(self.account_declarations@)
    }

    /// The records, each as its date and its text.
    pub closed spec fn records(&self) -> Seq<(Date, Seq<char>)> {
        Seq::new(
            self.closing_transactions@.len(),
            |k: int| (self.closing_transactions@[k].date, self.closing_transactions@[k].raw_statement@),
        )
    }

    pub open spec fn wf(&self) -> bool {
        texts_sorted(self.declarations()) && records_sorted(self.records())
    }

    fn insert_declaration(&mut self, d: String)
        requires
            old(self).wf(),
        ensures
            final(self).wf(),
            final(self).declarations().to_set() == old(self).declarations().to_set().insert(d@),
            final(self).records() == old(self).records(),
    {
        insert_text_sorted(&mut self.account_declarations, d);
    }

    fn insert_record(&mut self, date: Date, raw_statement: String)
        requires
            old(self).wf(),
        ensures
            final(self).wf(),
            final(self).records().to_multiset() == old(self).records().to_multiset().insert(
                (date, raw_statement@),
            ),
            final(self).declarations() == old(self).declarations(),
    {
        let ghost before = self.records();
        let ghost x = (date, raw_statement@);
        let sv = to_chars(raw_statement.as_str());
        let mut p: usize = 0;
        while p < self.closing_transactions.len() && self.record_not_after(p, &date, &sv)
            invariant
                p <= self.closing_transactions@.len(),
                before == self.records(),
                records_sorted(before),
                sv@ == raw_statement@,
                x == (date, raw_statement@),
                forall|k: int| 0 <= k < p ==> record_le(#[trigger] before[k], x),
            decreases self.closing_transactions.len() - p,
        {
            p = p + 1;
        }
        proof {
            if p < before.len() {
                lemma_record_le_total(before[p as int], x);
            }
            assert forall|k: int| p <= k < before.len() implies record_le(x, #[trigger] before[k]) by {
                if k > p {
                    lemma_record_le_trans(x, before[p as int], before[k]);
                }
            }
        }
        self.closing_transactions.insert(p, ClosingTransaction { date, raw_statement });
        proof {
            let after = self.records();
            assert(after =~= before.insert(p as int, x));
            assert forall|i: int, j: int| 0 <= i < j < after.len() implies record_le(
                #[trigger] after[i],
                #[trigger] after[j],
            ) by {
                if j < p {
                } else if i < p && j == p {
                } else if i < p {
                    assert(after[j] == before[j - 1]);
                    lemma_record_le_trans(before[i], x, before[j - 1]);
                } else if i == p {
                    assert(after[j] == before[j - 1]);
                } else {
                    assert(after[i] == before[i - 1]);
                    assert(after[j] == before[j - 1]);
                }
            }
        }
    }

    /// Whether the record at `p` sorts no later than a record of `date` and
    /// text `text`.
    fn record_not_after(&self, p: usize, date: &Date, text: &Vec<char>) -> (r: bool)
        requires
            p < self.closing_transactions@.len(),
        ensures
            r == record_le(self.records()[p as int], (*date, text@)),
    {
        let t = &self.closing_transactions[p];
        t.date.is_before(date) || (t.date == *date && !chars_lt(text, &to_chars(t.raw_statement.as_str())))
    }

    /// Completes the record being read, if any, and adds it to the section.
    fn flush_record(&mut self, current_record_date: &mut Option<Date>, current_record_lines: &mut Vec<Vec<char>>)
        requires
            old(self).wf(),
        ensures
            final(self).wf(),
            final(self).declarations() == old(self).declarations(),
            *final(current_record_date) == None::<Date>,
            final(current_record_lines)@.len() == 0,
            final(self).records().to_multiset() == old(self).records().to_multiset().add(
                flushed(Seq::empty(), pending(*old(current_record_date), old(current_record_lines)@)).to_multiset(),
            ),
    {
        let ghost e: Seq<(Date, Seq<char>)> = Seq::empty();
        assert(e.to_multiset() =~= vstd::multiset::Multiset::empty());
        if current_record_date.is_none() {
            current_record_lines.clear();
            assert(self.records().to_multiset().add(e.to_multiset()) =~= self.records().to_multiset());
        } else {
            let date = current_record_date.take().unwrap();
            let mut sep: Vec<char> = Vec::new();
            sep.push('\n');
            assert(sep@ == seq!['\n']);
            let statement = join_chars(current_record_lines, sep.as_slice());
            current_record_lines.clear();
            let ghost old_ms = self.records().to_multiset();
            self.insert_record(date, chars_to_string(&statement));
            proof {
                assert(e.push((date, statement@)).to_multiset() =~= e.to_multiset().insert((date, statement@)));
                assert(old_ms.insert((date, statement@)) =~= old_ms.add(vstd::multiset::Multiset::empty().insert((date, statement@))));
            }
        }
    }

    /// Reads one source of closing statements into the section.
    fn ingest(&mut self, source: &str)
        requires
            old(self).wf(),
            source_readable(source@),
        ensures
            final(self).wf(),
            final(self).declarations().to_set() == old(self).declarations().to_set().union(
                source_declarations(source@).to_set(),
            ),
            final(self).records().to_multiset() == old(self).records().to_multiset().add(
                source_records(source@).to_multiset(),
            ),
    {
        let ghost ls = lines(source@);
        let src = to_chars(source);
        let all_lines = split_lines(&src);
        let mut current_record_date: Option<Date> = None;
        let mut current_record_lines: Vec<Vec<char>> = Vec::new();
        let mut semicolon: Vec<char> = Vec::new();
        semicolon.push(';');
        let account_prefix = to_chars("account ");
        let ghost old_decls = old(self).declarations().to_set();
        let ghost old_ms = old(self).records().to_multiset();
        let mut i: usize = 0;
        proof {
            assert(ls.take(0) =~= Seq::<Seq<char>>::empty());
            assert(Seq::<Seq<char>>::empty().to_set() =~= Set::<Seq<char>>::empty());
            assert(old_decls.union(Set::empty()) =~= old_decls);
            assert(Seq::<(Date, Seq<char>)>::empty().to_multiset() =~= vstd::multiset::Multiset::empty());
            assert(old_ms.add(vstd::multiset::Multiset::empty()) =~= old_ms);
        }
        while i < all_lines.len()
            invariant
                self.wf(),
                ls == lines(source@),
                source_readable(source@),
                all_lines@.len() == ls.len(),
                forall|k: int| 0 <= k < all_lines@.len() ==> #[trigger] all_lines@[k]@ == ls[k],
                i <= ls.len(),
                semicolon@ == seq![';'],
                account_prefix@ == "account "@,
                self.declarations().to_set() == old_decls.union(scan(ls.take(i as int)).0.to_set()),
                self.records().to_multiset() == old_ms.add(scan(ls.take(i as int)).1.to_multiset()),
                pending(current_record_date, current_record_lines@) == scan(ls.take(i as int)).2,
            decreases all_lines.len() - i,
        {
            let line = &all_lines[i];
            let ghost st = scan(ls.take(i as int));
            proof {
                assert(ls.take(i + 1).drop_last() =~= ls.take(i as int));
                assert(ls.take(i + 1).last() == ls[i as int]);
                assert(line_readable(ls[i as int]));
            }
            let ts = trim_start_chars(line);
            if starts_with_chars(&ts, &semicolon) {
            } else if starts_with_chars(&ts, &account_prefix) {
                let d = trim_end_chars(line);
                self.insert_declaration(chars_to_string(&d));
                proof {
                    st.0.lemma_push_to_set_commute(d@);
                    assert(old_decls.union(st.0.to_set()).insert(d@) =~= old_decls.union(st.0.to_set().insert(d@)));
                }
            } else {
                match parse_record_date(&ts) {
                    Some(d) => {
                        let ghost before_ms = self.records().to_multiset();
                        self.flush_record(&mut current_record_date, &mut current_record_lines);
                        proof {
                            lemma_flushed_multiset(st.1, st.2);
                            assert(old_ms.add(st.1.to_multiset()).add(flushed(Seq::empty(), st.2).to_multiset())
                                =~= old_ms.add(st.1.to_multiset().add(flushed(Seq::empty(), st.2).to_multiset())));
                        }
                        current_record_date = Some(d);
                        current_record_lines.push(trim_end_chars(line));
                        proof {
                            assert(Seq::new(current_record_lines@.len(), |k: int| current_record_lines@[k]@) =~= seq![trim_end(ls[i as int])]);
                        }
                    },
                    None => {
                        if current_record_date.is_some() {
                            let ghost before = current_record_lines@;
                            current_record_lines.push(trim_end_chars(line));
                            proof {
                                assert(Seq::new(current_record_lines@.len(), |k: int| current_record_lines@[k]@)
                                    =~= Seq::new(before.len(), |k: int| before[k]@).push(trim_end(ls[i as int])));
                            }
                        }
                    },
                }
            }
            i = i + 1;
        }
        let ghost st = scan(ls);
        proof {
            assert(ls.take(ls.len() as int) =~= ls);
        }
        self.flush_record(&mut current_record_date, &mut current_record_lines);
        proof {
            lemma_flushed_multiset(st.1, st.2);
            assert(old_ms.add(st.1.to_multiset()).add(flushed(Seq::empty(), st.2).to_multiset())
                =~= old_ms.add(st.1.to_multiset().add(flushed(Seq::empty(), st.2).to_multiset())));
        }
    }

    /// The section of the given closing statements: their declarations,
    /// each once and sorted, and their records, sorted by date and then by
    /// text.
    pub fn new(closing_statements: &[&str]) -> (r: Self)
        requires
            forall|k: int| 0 <= k < closing_statements@.len() ==> source_readable(#[trigger] closing_statements@[k]@),
        ensures
            r.wf(),
            r.declarations().to_set() == all_declarations(str_views(closing_statements@)),
            r.records().to_multiset() == all_records(str_views(closing_statements@)).to_multiset(),
    {
        let mut section = ClosingSection { account_declarations: Vec::new(), closing_transactions: Vec::new() };
        let ghost sv = str_views(closing_statements@);
        proof {
            assert(sv.take(0) =~= Seq::<Seq<char>>::empty());
            assert(section.declarations().to_set() =~= Set::empty());
            assert(section.records() =~= Seq::empty());
        }
        let mut i: usize = 0;
        while i < closing_statements.len()
            invariant
                section.wf(),
                i <= closing_statements@.len(),
                sv == str_views(closing_statements@),
                forall|k: int| 0 <= k < closing_statements@.len() ==> source_readable(#[trigger] closing_statements@[k]@),
                section.declarations().to_set() == all_declarations(sv.take(i as int)),
                section.records().to_multiset() == all_records(sv.take(i as int)).to_multiset(),
            decreases closing_statements.len() - i,
        {
            proof {
                assert(sv.take(i + 1).drop_last() =~= sv.take(i as int));
                assert(sv.take(i + 1).last() == closing_statements@[i as int]@);
                vstd::seq_lib::lemma_multiset_commutative(
                    all_records(sv.take(i as int)),
                    source_records(closing_statements@[i as int]@),
                );
            }
            section.ingest(closing_statements[i]);
            i = i + 1;
        }
        assert(sv.take(sv.len() as int) =~= sv);
        section
    }

    /// The title of the section: the year of its first record, and of its
    /// last when that differs.
    pub fn title(&self) -> (r: String)
        ensures
            r@ == title_text(self.records()),
    {
        let n = self.closing_transactions.len();
        let start_year: i32 = if n > 0 { self.closing_transactions[0].date.year } else { 0 };
        let end_year: i32 = if n > 0 { self.closing_transactions[n - 1].date.year } else { 0 };
        let mut v = to_chars("Closing ");
        push_all(&mut v, &signed_decimal_chars(start_year as i64));
        if start_year != end_year {
            v.push('-');
            push_all(&mut v, &signed_decimal_chars(end_year as i64));
        }
        chars_to_string(&v)
    }

    /// The section as ledger text: a header comment with its title, a blank
    /// line, then its declarations and its records, one after the other.
    /// Nothing when there is no record.
    pub fn render(&self) -> (r: Option<String>)
        ensures
            self.records().len() == 0 ==> r is None,
            self.records().len() > 0 ==> (r matches Some(s) && s@ == section_text(self.declarations(), self.records())),
    {
        if self.closing_transactions.len() == 0 {
            return None;
        }
        let title = self.title();
        let mut entries: Vec<Vec<char>> = Vec::new();
        let mut i: usize = 0;
        while i < self.account_declarations.len()
            invariant
                i <= self.account_declarations@.len(),
                entries@.len() == i,
                forall|k: int| 0 <= k < i ==> #[trigger] entries@[k]@ == self.declarations()[k],
            decreases self.account_declarations.len() - i,
        {
            entries.push(to_chars(self.account_declarations[i].as_str()));
            i = i + 1;
        }
        let nd = self.account_declarations.len();
        let mut j: usize = 0;
        while j < self.closing_transactions.len()
            invariant
                j <= self.closing_transactions@.len(),
                nd == self.declarations().len(),
                entries@.len() == nd + j,
                forall|k: int| 0 <= k < nd ==> #[trigger] entries@[k]@ == self.declarations()[k],
                forall|k: int| 0 <= k < j ==> #[trigger] entries@[nd + k]@ == self.records()[k].1,
            decreases self.closing_transactions.len() - j,
        {
            entries.push(to_chars(self.closing_transactions[j].raw_statement.as_str()));
            j = j + 1;
        }
        let mut sep: Vec<char> = Vec::new();
        sep.push('\n');
        let body = join_chars(&entries, sep.as_slice());
        let mut out = to_chars(comment_header(title.as_str()).as_str());
        out.push('\n');
        out.push('\n');
        push_all(&mut out, &body);
        proof {
            let parts = self.declarations() + Seq::new(self.records().len(), |k: int| self.records()[k].1);
            assert forall|k: int| 0 <= k < entries@.len() implies #[trigger] entries@[k]@ == parts[k] by {
                if k >= nd {
                    assert(entries@[nd + (k - nd)]@ == self.records()[k - nd].1);
                }
            }
            assert(Seq::new(entries@.len(), |k: int| entries@[k]@) =~= parts);
            assert(sep@ == seq!['\n']);
        }
        Some(chars_to_string(&out))
    }
}

} // verus!
