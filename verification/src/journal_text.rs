//! Layout of journal text: account declarations, posting lines and notes,
//! and the normalisation of journal text that was written elsewhere.
use vstd::prelude::*;

use crate::account::Account;
use crate::ledger_names::{ledger_name, type_tag_of};
use crate::text::{
    chars_to_string, first_index_of, is_ws, join, join_chars, lemma_first_index_at,
    lemma_first_index_none, lemma_lines_no_newline, lemma_lines_of_join, lemma_trim_end_take, lemma_trim_start_skip, lines, push_all,
    push_repeat, rejoinable, repeat_char, slice_chars, strip_cr, split_lines, starts_with, starts_with_chars, to_chars,
    trim, trim_chars, trim_end, trim_end_chars, trim_start, trim_start_chars,
};

verus! {

/// Indentation of a posting line.
pub const POSTING_INDENT: &'static str = "    ";

/// Width of a posting line, indentation included.
pub const POSTING_TOTAL_WIDTH: usize = 100;

/// Least number of spaces between an account and its amount.
pub const POSTING_MIN_GAP: usize = 2;

/// Width to which the account name of a declaration is padded.
pub const DECLARATION_NAME_WIDTH: usize = 81;

/// Width at which notes are wrapped.
pub const NOTE_WRAP_WIDTH: usize = 94;

pub open spec fn indent() -> Seq<char> {
    "    "@
}

/// `l` and `r` with spaces between them so that the whole is `total`
/// characters wide, or with exactly `gap` spaces if it would be wider.
pub open spec fn padded_join(l: Seq<char>, r: Seq<char>, total: nat, gap: nat) -> Seq<char> {
    let g: nat = if l.len() + r.len() + gap >= total {
        gap
    } else {
        (total - l.len() - r.len()) as nat
    };
    l + repeat_char(' ', g) + r
}

/// A posting line: indentation, then account and amount spread over the
/// posting width.
pub open spec fn posting_line(l: Seq<char>, r: Seq<char>) -> Seq<char> {
    indent() + padded_join(l, r, 96, 2)
}

/// `s` padded with spaces on the right to at least `w` characters.
pub open spec fn pad_right(s: Seq<char>, w: nat) -> Seq<char> {
    s + repeat_char(' ', if s.len() < w { (w - s.len()) as nat } else { 0 })
}

/// An account declaration line, e.g. `account Assets:Cash ...  ; type: C`.
pub open spec fn declaration_line(name: Seq<char>, tag: char) -> Seq<char> {
    "account "@ + pad_right(name, 81) + "  ; type: "@ + seq![tag]
}

pub open spec fn is_account_declaration_spec(line: Seq<char>) -> bool {
    starts_with(trim_start(line), "account "@)
}

/// `s` split around its first `c`.
pub open spec fn split_once(s: Seq<char>, c: char) -> Option<(Seq<char>, Seq<char>)> {
    let i = first_index_of(s, c);
    if i < 0 {
        None
    } else {
        Some((s.take(i), s.skip(i + 1)))
    }
}

/// The account name and type letter of a declaration line
/// `account NAME ; type: T`, where NAME is non-empty and T one character.
pub open spec fn parse_declaration(line: Seq<char>) -> Option<(Seq<char>, char)> {
    let t = trim(line);
    if !starts_with(t, "account"@) {
        None
    } else {
        let rest = trim_start(t.skip(7));
        match split_once(rest, ';') {
            None => None,
            Some((name_part, type_part)) => {
                let name = trim(name_part);
                let a = trim(type_part);
                if !starts_with(a, "type"@) {
                    None
                } else {
                    let b = trim_start(a.skip(4));
                    if !starts_with(b, ":"@) {
                        None
                    } else {
                        let ts = trim(trim_start(b.skip(1)));
                        if ts.len() == 1 && name.len() > 0 {
                            Some((name, ts[0]))
                        } else {
                            None
                        }
                    }
                }
            },
        }
    }
}

/// Position of the last match when scanning `s` from `i` for
/// non-overlapping pairs of spaces; `last` is the match found so far.
pub open spec fn last_double_space(s: Seq<char>, i: int, last: int) -> int
    decreases s.len() - i,
{
    if i < 0 || i + 1 >= s.len() {
        last
    } else if s[i] == ' ' && s[i + 1] == ' ' {
        last_double_space(s, i + 2, i)
    } else {
        last_double_space(s, i + 1, last)
    }
}

/// The account and amount of an indented posting line: what lies left and
/// right of its last run of two or more spaces.
pub open spec fn parse_posting(line: Seq<char>) -> Option<(Seq<char>, Seq<char>)> {
    if is_account_declaration_spec(line) || !starts_with(line, indent()) {
        None
    } else {
        let body = line.skip(4);
        if starts_with(trim_start(body), ";"@) {
            None
        } else {
            let k = last_double_space(body, 0, -1);
            if k < 0 {
                None
            } else {
                let left = trim_end(body.take(k));
                let right = trim(body.skip(k));
                if left.len() == 0 || right.len() == 0 {
                    None
                } else {
                    Some((left, right))
                }
            }
        }
    }
}

/// A line with its posting re-spaced, when it is a posting line.
pub open spec fn normalize_line(line: Seq<char>) -> Seq<char> {
    match parse_posting(line) {
        Some((l, r)) => posting_line(l, r),
        None => line,
    }
}

/// Whether `s` has two spaces in a row at `j`.
pub open spec fn space_pair_at(s: Seq<char>, j: int) -> bool {
    0 <= j && j + 1 < s.len() && s[j] == ' ' && s[j + 1] == ' '
}

/// The scan for the last pair of spaces arrives at `p` when the character
/// before `p` is not a space.
proof fn lemma_scan_reaches(s: Seq<char>, i: int, p: int, last: int) -> (l2: int)
    requires
        0 <= i <= p < s.len(),
        p == 0 || s[p - 1] != ' ',
    ensures
        last_double_space(s, i, last) == last_double_space(s, p, l2),
    decreases p - i,
{
    if i == p {
        last
    } else if s[i] == ' ' && s[i + 1] == ' ' {
        lemma_scan_reaches(s, i + 2, p, i)
    } else {
        lemma_scan_reaches(s, i + 1, p, last)
    }
}

/// Past `i`, with no pair of spaces from `i` on, the scan keeps what it found.
proof fn lemma_scan_none(s: Seq<char>, i: int, last: int)
    requires
        0 <= i,
        forall|j: int| i <= j ==> !#[trigger] space_pair_at(s, j),
    ensures
        last_double_space(s, i, last) == last,
    decreases s.len() - i,
{
    if i + 1 < s.len() {
        assert(!space_pair_at(s, i));
        lemma_scan_none(s, i + 1, last);
    }
}

/// Through a run of `g >= 2` spaces at `p`, followed by a non-space, the
/// scan ends on the last whole pair of the run.
proof fn lemma_scan_gap(s: Seq<char>, p: int, g: int, m: int, last: int)
    requires
        0 <= p,
        2 <= g,
        p + g < s.len(),
        forall|j: int| p <= j < p + g ==> #[trigger] s[j] == ' ',
        s[p + g] != ' ',
        0 <= 2 * m <= g,
        m > 0 ==> last == p + 2 * m - 2,
    ensures
        last_double_space(s, p + 2 * m, last) == last_double_space(s, p + g, p + 2 * (g / 2) - 2),
    decreases g - 2 * m,
{
    let i = p + 2 * m;
    if g - 2 * m >= 2 {
        assert(s[i] == ' ' && s[i + 1] == ' ');
        lemma_scan_gap(s, p, g, m + 1, i);
    } else if g - 2 * m == 1 {
        assert(s[i] == ' ');
        assert(s[i + 1] == s[p + g]);
    }
}

proof fn lemma_trim_end_of_padded(x: Seq<char>, n: nat)
    requires
        x.len() > 0,
        !is_ws(x.last()),
    ensures
        trim_end(x + repeat_char(' ', n)) == x,
{
    let y = x + repeat_char(' ', n);
    assert forall|j: int| x.len() <= j < y.len() implies is_ws(#[trigger] y[j]) by {
        assert(y[j] == ' ');
    }
    assert(y[x.len() - 1] == x.last());
    lemma_trim_end_take(y, x.len() as int);
    assert(y.take(x.len() as int) =~= x);
}

proof fn lemma_trim_of_padded(y: Seq<char>, n: nat)
    requires
        y.len() > 0,
        !is_ws(y[0]),
        !is_ws(y.last()),
    ensures
        trim(repeat_char(' ', n) + y) == y,
{
    let z = repeat_char(' ', n) + y;
    assert forall|j: int| 0 <= j < n implies is_ws(#[trigger] z[j]) by {
        assert(z[j] == ' ');
    }
    assert(z[n as int] == y[0]);
    lemma_trim_start_skip(z, n as int);
    assert(z.skip(n as int) =~= y);
    lemma_trim_end_take(y, y.len() as int);
    assert(y.take(y.len() as int) =~= y);
}

/// In an account, a run of `g >= 2` spaces and an amount without two spaces
/// in a row, the last pair of spaces found is the last whole pair of the run.
proof fn lemma_last_pair_in_gap(l: Seq<char>, g: nat, r: Seq<char>)
    requires
        l.len() > 0,
        r.len() > 0,
        g >= 2,
        l.last() != ' ',
        r[0] != ' ',
        forall|j: int| !#[trigger] space_pair_at(r, j),
    ensures
        last_double_space(l + repeat_char(' ', g) + r, 0, -1) == l.len() + 2 * (g as int / 2) - 2,
{
    let body = l + repeat_char(' ', g) + r;
    let p = l.len() as int;
    assert(body[p - 1] == l.last());
    assert forall|j: int| p <= j < p + g implies #[trigger] body[j] == ' ' by {
        assert(body[j] == repeat_char(' ', g)[j - p]);
    }
    assert(body[p + g] == r[0]);
    let l2 = lemma_scan_reaches(body, 0, p, -1);
    lemma_scan_gap(body, p, g as int, 0, l2);
    let k = p + 2 * (g as int / 2) - 2;
    assert forall|j: int| p + g <= j implies !#[trigger] space_pair_at(body, j) by {
        if space_pair_at(body, j) {
            assert(body[j] == r[j - p - g] && body[j + 1] == r[j + 1 - p - g]);
            assert(space_pair_at(r, j - p - g));
        }
    }
    lemma_scan_none(body, p + g, k);
}

/// An indented line that begins with the account is neither a declaration
/// nor a comment.
proof fn lemma_indented_account_line(l: Seq<char>, g: nat, r: Seq<char>)
    requires
        l.len() > 0,
        g >= 1,
        !is_ws(l[0]),
        l[0] != ';',
        !starts_with(l + seq![' '], "account "@),
    ensures
        ({
            let body = l + repeat_char(' ', g) + r;
            &&& trim_start(indent() + body) == body
            &&& !is_account_declaration_spec(indent() + body)
            &&& !starts_with(trim_start(body), ";"@)
        }),
{
    reveal_strlit("    ");
    reveal_strlit("account ");
    reveal_strlit(";");
    let body = l + repeat_char(' ', g) + r;
    let line = indent() + body;
    let p = l.len() as int;
    assert(body[0] == l[0]);
    assert forall|j: int| 0 <= j < 4 implies is_ws(#[trigger] line[j]) by {
        assert(line[j] == ' ');
    }
    assert(line[4] == body[0]);
    lemma_trim_start_skip(line, 4);
    assert(line.skip(4) =~= body);
    lemma_trim_start_skip(body, 0);
    assert(body.skip(0) =~= body);
    assert("account "@ =~= seq!['a', 'c', 'c', 'o', 'u', 'n', 't', ' ']);
    let lp = l + seq![' '];
    if p >= 8 {
        assert(body.take(8) =~= lp.take(8));
        assert(lp.take(8) != "account "@);
    } else if p == 7 {
        assert(body[7] == ' ');
        assert(body.take(8) =~= lp);
        assert(lp.take(8) =~= lp);
    } else if body.len() >= 8 {
        assert(body[p] == ' ');
        assert("account "@[p] != ' ');
        assert(body.take(8)[p] == body[p]);
    }
    assert(";"@ =~= seq![';']);
    assert(body.take(1)[0] == body[0]);
    assert(trim_start(line) == body);
    assert(!starts_with(body, "account "@));
    assert(!is_account_declaration_spec(line));
    assert(!starts_with(trim_start(body), ";"@));
}

/// Reading back a posting line that `format_posting_line` writes gives the
/// same account and amount, so re-spacing it changes nothing: for an
/// account that neither begins nor ends with whitespace, does not begin
/// with `;` and does not read as an account declaration, and an amount that
/// neither begins nor ends with whitespace and has no two spaces in a row.
pub proof fn lemma_posting_line_round_trip(l: Seq<char>, r: Seq<char>)
    requires
        l.len() > 0,
        r.len() > 0,
        !is_ws(l[0]),
        !is_ws(l.last()),
        l[0] != ';',
        !starts_with(l + seq![' '], "account "@),
        !is_ws(r[0]),
        !is_ws(r.last()),
        forall|j: int| !#[trigger] space_pair_at(r, j),
    ensures
        parse_posting(posting_line(l, r)) == Some((l, r)),
        normalize_line(posting_line(l, r)) == posting_line(l, r),
{
    reveal_strlit("    ");
    let g: nat = if l.len() + r.len() + 2 >= 96 {
        2
    } else {
        (96 - l.len() - r.len()) as nat
    };
    let body = l + repeat_char(' ', g) + r;
    let line = indent() + body;
    let p = l.len() as int;
    assert(padded_join(l, r, 96, 2) == body);
    assert(posting_line(l, r) == line);
    assert(is_ws(' '));
    lemma_indented_account_line(l, g, r);
    assert(indent() =~= seq![' ', ' ', ' ', ' ']);
    assert(line.take(4) =~= indent());
    assert(line.skip(4) =~= body);
    lemma_last_pair_in_gap(l, g, r);
    let k = p + 2 * (g as int / 2) - 2;
    assert(body.take(k) =~= l + repeat_char(' ', (k - p) as nat));
    lemma_trim_end_of_padded(l, (k - p) as nat);
    assert(body.skip(k) =~= repeat_char(' ', (g - (k - p)) as nat) + r);
    lemma_trim_of_padded(r, (g - (k - p)) as nat);
}

proof fn lemma_trim_plain(y: Seq<char>)
    requires
        y.len() > 0,
        !is_ws(y[0]),
        !is_ws(y.last()),
    ensures
        trim(y) == y,
        trim_start(y) == y,
{
    lemma_trim_start_skip(y, 0);
    assert(y.skip(0) =~= y);
    lemma_trim_end_take(y, y.len() as int);
    assert(y.take(y.len() as int) =~= y);
}

/// Reading back a declaration line that `format_account_declaration_raw`
/// writes gives the same account name and type letter: for a name that
/// neither begins nor ends with whitespace and holds no `;`, and a type
/// letter that is not whitespace.
pub proof fn lemma_declaration_round_trip(name: Seq<char>, tag: char)
    requires
        name.len() > 0,
        !is_ws(name[0]),
        !is_ws(name.last()),
        forall|j: int| 0 <= j < name.len() ==> name[j] != ';',
        !is_ws(tag),
    ensures
        parse_declaration(declaration_line(name, tag)) == Some((name, tag)),
{
    reveal_strlit("account ");
    reveal_strlit("account");
    reveal_strlit("  ; type: ");
    reveal_strlit("type");
    reveal_strlit("type: ");
    reveal_strlit(":");
    let pad: nat = if name.len() < 81 {
        (81 - name.len()) as nat
    } else {
        0
    };
    let spaces = repeat_char(' ', pad);
    let tail = "  ; type: "@ + seq![tag];
    let line = declaration_line(name, tag);
    assert(line =~= "account "@ + (name + spaces) + tail);
    assert(is_ws(' '));
    // The line is already trimmed.
    assert(line[0] == 'a');
    assert(line.last() == tag);
    lemma_trim_plain(line);
    let t = trim(line);
    assert(t.take(7) =~= "account"@);
    // The name follows the keyword.
    let rest0 = t.skip(7);
    assert(rest0 =~= seq![' '] + (name + spaces + tail));
    let rest = name + spaces + tail;
    assert(rest[0] == name[0]);
    assert forall|j: int| 0 <= j < 1 implies is_ws(#[trigger] rest0[j]) by {
        assert(rest0[j] == ' ');
    }
    assert(rest0[1] == rest[0]);
    lemma_trim_start_skip(rest0, 1);
    assert(rest0.skip(1) =~= rest);
    // The first `;` ends the name.
    let k: int = (name.len() + pad + 2) as int;
    assert(rest[k] == ';');
    assert forall|j: int| 0 <= j < k implies rest[j] != ';' by {
        if j < name.len() {
            assert(rest[j] == name[j]);
        } else {
            assert(rest[j] == ' ');
        }
    }
    lemma_first_index_at(rest, ';', k);
    let name_part = rest.take(k);
    let type_part = rest.skip(k + 1);
    assert(name_part =~= name + repeat_char(' ', pad + 2));
    lemma_trim_end_of_padded(name, pad + 2);
    lemma_trim_start_skip(name_part, 0);
    assert(name_part.skip(0) =~= name_part);
    assert(trim_start(name_part) == name_part);
    assert(trim(name_part) == name);
    // Then `type: T`.
    assert(type_part =~= seq![' '] + ("type: "@ + seq![tag]));
    let a0 = "type: "@ + seq![tag];
    assert(a0[0] == 't');
    assert(a0.last() == tag);
    lemma_trim_plain(a0);
    assert forall|j: int| 0 <= j < 1 implies is_ws(#[trigger] type_part[j]) by {
        assert(type_part[j] == ' ');
    }
    assert(type_part[1] == a0[0]);
    lemma_trim_start_skip(type_part, 1);
    assert(type_part.skip(1) =~= a0);
    lemma_trim_end_take(a0, a0.len() as int);
    assert(a0.take(a0.len() as int) =~= a0);
    let a = trim(type_part);
    assert(a == a0);
    assert(a.take(4) =~= "type"@);
    let b0 = a.skip(4);
    assert(b0 =~= seq![':', ' ', tag]);
    lemma_trim_start_skip(b0, 0);
    assert(b0.skip(0) =~= b0);
    assert(b0.take(1) =~= ":"@);
    let c0 = b0.skip(1);
    assert(c0 =~= seq![' ', tag]);
    assert forall|j: int| 0 <= j < 1 implies is_ws(#[trigger] c0[j]) by {}
    lemma_trim_start_skip(c0, 1);
    assert(c0.skip(1) =~= seq![tag]);
    lemma_trim_plain(seq![tag]);
}

/// The declarations among `ls`, each re-spaced.
pub open spec fn declarations_of(ls: Seq<Seq<char>>) -> Seq<Seq<char>>
    decreases ls.len(),
{
    if ls.len() == 0 {
        Seq::empty()
    } else {
        let rest = declarations_of(ls.drop_last());
        let l = ls.last();
        if is_account_declaration_spec(l) {
            match parse_declaration(l) {
                Some((name, tag)) => rest.push(declaration_line(name, tag)),
                None => rest,
            }
        } else {
            rest
        }
    }
}

/// The lines of `ls` that are not declarations, posting lines re-spaced.
pub open spec fn non_declarations_of(ls: Seq<Seq<char>>) -> Seq<Seq<char>>
    decreases ls.len(),
{
    if ls.len() == 0 {
        Seq::empty()
    } else {
        let rest = non_declarations_of(ls.drop_last());
        let l = ls.last();
        if is_account_declaration_spec(l) {
            rest
        } else {
            rest.push(normalize_line(l))
        }
    }
}

pub open spec fn is_digit(c: char) -> bool {
    '0' <= c && c <= '9'
}

/// ASCII whitespace as `u8::is_ascii_whitespace` has it.
pub open spec fn is_ascii_ws(c: char) -> bool {
    c == ' ' || c == '\t' || c == '\n' || c == '\x0C' || c == '\r'
}

/// Whether `s` begins with a `YYYY-MM-DD` date followed by whitespace or
/// nothing.
pub open spec fn starts_with_date(s: Seq<char>) -> bool {
    &&& s.len() >= 10
    &&& is_digit(s[0]) && is_digit(s[1]) && is_digit(s[2]) && is_digit(s[3])
    &&& s[4] == '-'
    &&& is_digit(s[5]) && is_digit(s[6])
    &&& s[7] == '-'
    &&& is_digit(s[8]) && is_digit(s[9])
    &&& (s.len() == 10 || is_ascii_ws(s[10]))
}

/// Whether line `i` of `ls` opens a transaction: it starts with a date and
/// the next line is indented.
pub open spec fn is_header(ls: Seq<Seq<char>>, i: int) -> bool {
    0 <= i && ls.len() > i + 1 && starts_with_date(ls[i]) && starts_with(ls[i + 1], indent())
}

pub open spec fn contains(s: Seq<char>, p: Seq<char>) -> bool {
    exists|i: int| 0 <= i && i + p.len() <= s.len() && #[trigger] s.subrange(i, i + p.len()) == p
}

/// Line `i` of `ls`, with `  ; tag` appended when it opens a transaction
/// that does not carry `; tag` yet.
pub open spec fn tagged_line(ls: Seq<Seq<char>>, i: int, tag: Seq<char>) -> Seq<char> {
    if is_header(ls, i) {
        if contains(ls[i], "; "@ + tag) {
            ls[i]
        } else {
            ls[i] + "  ; "@ + tag
        }
    } else {
        ls[i]
    }
}

/// The lines `ls`, each transaction header tagged with `tag`.
pub open spec fn tag_lines(ls: Seq<Seq<char>>, tag: Seq<char>) -> Seq<Seq<char>> {
    Seq::new(ls.len(), |i: int| tagged_line(ls, i, tag))
}

proof fn lemma_tagged_line_facts(ls: Seq<Seq<char>>, i: int, tag: Seq<char>)
    requires
        0 <= i < ls.len(),
    ensures
        starts_with_date(tagged_line(ls, i, tag)) == starts_with_date(ls[i]),
        starts_with(tagged_line(ls, i, tag), indent()) == starts_with(ls[i], indent()),
        is_header(ls, i) ==> contains(tagged_line(ls, i, tag), "; "@ + tag),
{
    reveal_strlit("    ");
    reveal_strlit("  ; ");
    reveal_strlit("; ");
    let t = tagged_line(ls, i, tag);
    if is_header(ls, i) && !contains(ls[i], "; "@ + tag) {
        let suffix = "  ; "@ + tag;
        assert(t == ls[i] + suffix);
        let l = ls[i];
        assert(l.len() >= 10);
        assert forall|k: int| 0 <= k < l.len() implies t[k] == l[k] by {}
        if l.len() == 10 {
            assert(t[10] == ' ');
        }
        assert(indent() =~= seq![' ', ' ', ' ', ' ']);
        assert(t.take(4) =~= l.take(4));
        let p = "; "@ + tag;
        let at: int = (l.len() + 2) as int;
        assert(t.subrange(at, at + p.len()) =~= p);
    }
}

/// Tagging the transaction headers of a journal twice tags them as once:
/// the headers stay the headers, and each carries the tag after the first
/// time.
pub proof fn lemma_tag_lines_idempotent(ls: Seq<Seq<char>>, tag: Seq<char>)
    ensures
        tag_lines(tag_lines(ls, tag), tag) == tag_lines(ls, tag),
        forall|i: int| is_header(ls, i) ==> contains(#[trigger] tag_lines(ls, tag)[i], "; "@ + tag),
{
    reveal_strlit("    ");
    let t = tag_lines(ls, tag);
    assert forall|i: int| 0 <= i < ls.len() implies is_header(t, i) == is_header(ls, i) && (is_header(ls, i)
        ==> contains(#[trigger] t[i], "; "@ + tag)) by {
        lemma_tagged_line_facts(ls, i, tag);
        if i + 1 < ls.len() {
            lemma_tagged_line_facts(ls, i + 1, tag);
        }
    }
    assert forall|i: int| 0 <= i < t.len() implies #[trigger] tagged_line(t, i, tag) == t[i] by {
        lemma_tagged_line_facts(ls, i, tag);
        if i + 1 < ls.len() {
            lemma_tagged_line_facts(ls, i + 1, tag);
        }
    }
    assert(tag_lines(t, tag) =~= t);
}

/// The journal `content` with its transaction headers tagged with `tag`,
/// its lines joined by newlines.
pub open spec fn tagged_text(content: Seq<char>, tag: Seq<char>) -> Seq<char> {
    join(tag_lines(lines(content), tag), "\n"@)
}

/// Tagging a journal's transactions twice gives the text of tagging them
/// once, and every transaction header then carries `; tag`: for a journal
/// whose lines, but the last, end without `\r`, whose last line is not
/// empty, and a tag that holds no newline and does not end with `\r`.
pub proof fn lemma_tagged_text_idempotent(content: Seq<char>, tag: Seq<char>)
    requires
        forall|k: int| 0 <= k < lines(content).len() - 1 ==> strip_cr(#[trigger] lines(content)[k])
            == lines(content)[k],
        lines(content).len() == 0 || lines(content).last().len() > 0,
        forall|j: int| 0 <= j < tag.len() ==> tag[j] != '\n',
        tag.len() == 0 || tag.last() != '\r',
    ensures
        tagged_text(tagged_text(content, tag), tag) == tagged_text(content, tag),
        lines(tagged_text(content, tag)) == tag_lines(lines(content), tag),
        forall|i: int|
            is_header(lines(content), i) ==> contains(#[trigger] lines(tagged_text(content, tag))[i], "; "@ + tag),
{
    reveal_strlit("  ; ");
    let ls = lines(content);
    let t = tag_lines(ls, tag);
    let suffix = "  ; "@ + tag;
    lemma_lines_no_newline(content);
    assert forall|k: int, j: int| 0 <= k < t.len() && 0 <= j < t[k].len() implies #[trigger] t[k][j] != '\n' by {
        if t[k] != ls[k] {
            assert(t[k] == ls[k] + suffix);
            if j >= ls[k].len() {
                let q = j - ls[k].len();
                assert(t[k][j] == suffix[q]);
                if q >= 4 {
                    assert(suffix[q] == tag[q - 4]);
                }
            }
        }
    }
    assert forall|k: int| 0 <= k < t.len() - 1 implies strip_cr(#[trigger] t[k]) == t[k] by {
        if t[k] != ls[k] {
            let w = ls[k] + suffix;
            assert(t[k] == w);
            if tag.len() > 0 {
                assert(w.last() == tag.last());
            } else {
                assert(w.last() == ' ');
            }
        }
    }
    if ls.len() > 0 {
        assert(!is_header(ls, ls.len() - 1));
        assert(t.last() == ls.last());
    }
    assert(rejoinable(t));
    lemma_lines_of_join(t);
    lemma_tag_lines_idempotent(ls, tag);
}

/// The first index from `j` on whose line is not indented.
pub open spec fn run_end(ls: Seq<Seq<char>>, j: int) -> int
    decreases ls.len() - j,
{
    if 0 <= j < ls.len() && starts_with(ls[j], indent()) {
        run_end(ls, j + 1)
    } else {
        j
    }
}

pub proof fn lemma_run_end(ls: Seq<Seq<char>>, j: int)
    requires
        0 <= j,
    ensures
        j <= run_end(ls, j),
        j <= ls.len() ==> run_end(ls, j) <= ls.len(),
        forall|k: int| j <= k < run_end(ls, j) ==> starts_with(#[trigger] ls[k], indent()),
        run_end(ls, j) < ls.len() ==> !starts_with(ls[run_end(ls, j)], indent()),
    decreases ls.len() - j,
{
    if 0 <= j < ls.len() && starts_with(ls[j], indent()) {
        lemma_run_end(ls, j + 1);
    }
}

/// The lines of `ls` from `i` on, with `notes` inserted after the postings
/// of every transaction.
pub open spec fn with_notes(ls: Seq<Seq<char>>, i: int, notes: Seq<Seq<char>>) -> Seq<Seq<char>>
    decreases ls.len() - i,
{
    if i < 0 || i >= ls.len() {
        Seq::empty()
    } else if is_header(ls, i) {
        let e = run_end(ls, i + 1);
        proof {
            lemma_run_end(ls, i + 1);
        }
        seq![ls[i]] + ls.subrange(i + 1, e) + notes + with_notes(ls, e, notes)
    } else {
        seq![ls[i]] + with_notes(ls, i + 1, notes)
    }
}

/// Lines that textwrap 0.16 `wrap` makes of `text` at `width` columns.
pub uninterp spec fn textwrap_wrap(text: Seq<char>, width: usize) -> Seq<Seq<char>>;

/// The comment lines of a note: an empty `    ;` line, then each wrapped
/// line of the note behind `    ; `.
pub open spec fn note_lines(note: Seq<char>) -> Seq<Seq<char>> {
    let w = textwrap_wrap(note, 94);
    seq!["    ;"@] + Seq::new(w.len(), |k: int| "    ; "@ + w[k])
}

/// The note lines of each note, one note after the other.
pub open spec fn notes_lines(notes: Seq<Seq<char>>) -> Seq<Seq<char>>
    decreases notes.len(),
{
    if notes.len() == 0 {
        Seq::empty()
    } else {
        notes_lines(notes.drop_last()) + note_lines(notes.last())
    }
}

// Executable helpers on characters.
// ---------------------------------------------------------------------------

fn indent_chars() -> (r: Vec<char>)
    ensures
        r@ == indent(),
{
    to_chars(POSTING_INDENT)
}

fn pad_between_chars(l: &[char], r: &[char], total: usize, gap: usize) -> (out: Vec<char>)
    ensures
        out@ == padded_join(l@, r@, total as nat, gap as nat),
{
    let ll = l.len();
    let rl = r.len();
    let wide = ll >= total || rl >= total - ll || gap >= total - ll - rl;
    let g: usize = if wide {
        gap
    } else {
        total - ll - rl
    };
    let mut out: Vec<char> = Vec::new();
    push_all(&mut out, l);
    push_repeat(&mut out, ' ', g);
    push_all(&mut out, r);
    out
}

fn posting_line_chars(l: &[char], r: &[char]) -> (out: Vec<char>)
    ensures
        out@ == posting_line(l@, r@),
{
    let mut out = indent_chars();
    let body = pad_between_chars(l, r, POSTING_TOTAL_WIDTH - 4, POSTING_MIN_GAP);
    push_all(&mut out, &body);
    out
}

fn declaration_line_chars(name: &[char], tag: char) -> (out: Vec<char>)
    ensures
        out@ == declaration_line(name@, tag),
{
    let mut out = to_chars("account ");
    push_all(&mut out, name);
    let pad: usize = if name.len() < DECLARATION_NAME_WIDTH {
        DECLARATION_NAME_WIDTH - name.len()
    } else {
        0
    };
    push_repeat(&mut out, ' ', pad);
    let sep = to_chars("  ; type: ");
    push_all(&mut out, &sep);
    out.push(tag);
    assert(out@ == "account "@ + pad_right(name@, 81) + "  ; type: "@ + seq![tag]);
    out
}

fn is_declaration_chars(line: &[char]) -> (r: bool)
    ensures
        r == is_account_declaration_spec(line@),
{
    let t = trim_start_chars(line);
    let p = to_chars("account ");
    starts_with_chars(&t, &p)
}

fn first_index_chars(s: &[char], c: char) -> (r: Option<usize>)
    ensures
        match r {
            Some(i) => i < s@.len() && first_index_of(s@, c) == i,
            None => first_index_of(s@, c) == -1,
        },
{
    let mut i: usize = 0;
    while i < s.len()
        invariant
            i <= s@.len(),
            forall|j: int| 0 <= j < i ==> s@[j] != c,
        decreases s.len() - i,
    {
        if s[i] == c {
            proof {
                lemma_first_index_at(s@, c, i as int);
            }
            return Some(i);
        }
        i = i + 1;
    }
    proof {
        lemma_first_index_none(s@, c);
    }
    None
}

fn split_once_chars(s: &[char], c: char) -> (r: Option<(Vec<char>, Vec<char>)>)
    ensures
        match r {
            Some((a, b)) => split_once(s@, c) == Some((a@, b@)),
            None => split_once(s@, c) is None,
        },
{
    let found = first_index_chars(s, c);
    match found {
        Some(i) => {
            let n = s.len();
            assert(i < n);
            Some((slice_chars(s, 0, i), slice_chars(s, i + 1, s.len())))
        },
        None => None,
    }
}

fn skip_chars(s: &[char], n: usize) -> (r: Vec<char>)
    requires
        n <= s@.len(),
    ensures
        r@ == s@.skip(n as int),
{
    slice_chars(s, n, s.len())
}

fn parse_declaration_chars(line: &[char]) -> (r: Option<(Vec<char>, char)>)
    ensures
        match r {
            Some((n, c)) => parse_declaration(line@) == Some((n@, c)),
            None => parse_declaration(line@) is None,
        },
{
    proof {
        reveal_strlit("account");
        reveal_strlit("type");
    reveal_strlit("type: ");
        reveal_strlit(":");
    }
    let t = trim_chars(line);
    let kw = to_chars("account");
    if !starts_with_chars(&t, &kw) {
        return None;
    }
    let rest = trim_start_chars(&skip_chars(&t, 7));
    let (name_part, type_part) = match split_once_chars(&rest, ';') {
        Some(p) => p,
        None => return None,
    };
    let name = trim_chars(&name_part);
    let a = trim_chars(&type_part);
    let kw_type = to_chars("type");
    if !starts_with_chars(&a, &kw_type) {
        return None;
    }
    let b = trim_start_chars(&skip_chars(&a, 4));
    let colon = to_chars(":");
    if !starts_with_chars(&b, &colon) {
        return None;
    }
    let ts = trim_chars(&trim_start_chars(&skip_chars(&b, 1)));
    if ts.len() == 1 && name.len() > 0 {
        Some((name, ts[0]))
    } else {
        None
    }
}

fn last_double_space_chars(s: &[char]) -> (r: Option<usize>)
    ensures
        match r {
            Some(k) => k < s@.len() && last_double_space(s@, 0, -1) == k,
            None => last_double_space(s@, 0, -1) < 0,
        },
{
    let mut i: usize = 0;
    let mut last: Option<usize> = None;
    while i < s.len() && i + 1 < s.len()
        invariant
            i <= s@.len(),
            match last {
                Some(k) => k < s@.len() && last_double_space(s@, 0, -1) == last_double_space(
                    s@,
                    i as int,
                    k as int,
                ),
                None => last_double_space(s@, 0, -1) == last_double_space(s@, i as int, -1),
            },
        decreases s.len() - i,
    {
        if s[i] == ' ' && s[i + 1] == ' ' {
            last = Some(i);
            i = i + 2;
        } else {
            i = i + 1;
        }
    }
    last
}

fn parse_posting_chars(line: &[char]) -> (r: Option<(Vec<char>, Vec<char>)>)
    ensures
        match r {
            Some((a, b)) => parse_posting(line@) == Some((a@, b@)),
            None => parse_posting(line@) is None,
        },
{
    proof {
        reveal_strlit("    ");
    }
    if is_declaration_chars(line) {
        return None;
    }
    let ind = indent_chars();
    if !starts_with_chars(line, &ind) {
        return None;
    }
    let body = skip_chars(line, 4);
    let semi = to_chars(";");
    if starts_with_chars(&trim_start_chars(&body), &semi) {
        return None;
    }
    let k = match last_double_space_chars(&body) {
        Some(k) => k,
        None => return None,
    };
    let left = trim_end_chars(&slice_chars(&body, 0, k));
    let right = trim_chars(&skip_chars(&body, k));
    if left.len() == 0 || right.len() == 0 {
        None
    } else {
        Some((left, right))
    }
}

fn normalize_line_chars(line: &[char]) -> (r: Vec<char>)
    ensures
        r@ == normalize_line(line@),
{
    match parse_posting_chars(line) {
        Some((l, r)) => posting_line_chars(&l, &r),
        None => slice_chars(line, 0, line.len()),
    }
}

fn contains_chars(s: &[char], p: &[char]) -> (r: bool)
    ensures
        r == contains(s@, p@),
{
    if p.len() > s.len() {
        return false;
    }
    if p.len() == 0 {
        assert(s@.subrange(0int, 0int + p@.len()) =~= p@);
        return true;
    }
    let mut i: usize = 0;
    while i <= s.len() - p.len()
        invariant
            1 <= p@.len() <= s@.len(),
            i <= s@.len() - p@.len() + 1,
            forall|j: int| 0 <= j < i ==> #[trigger] s@.subrange(j, j + p@.len()) != p@,
        decreases s.len() + 1 - i,
    {
        let window = slice_chars(s, i, i + p.len());
        if starts_with_chars(&window, p) {
            assert(window@.take(p@.len() as int) == window@);
            return true;
        }
        assert(window@.take(p@.len() as int) == window@);
        i = i + 1;
    }
    false
}

fn is_digit_char(c: char) -> (r: bool)
    ensures
        r == is_digit(c),
{
    '0' <= c && c <= '9'
}

fn starts_with_date_chars(s: &[char]) -> (r: bool)
    ensures
        r == starts_with_date(s@),
{
    if s.len() < 10 {
        return false;
    }
    let digits = is_digit_char(s[0]) && is_digit_char(s[1]) && is_digit_char(s[2])
        && is_digit_char(s[3]) && s[4] == '-' && is_digit_char(s[5]) && is_digit_char(s[6])
        && s[7] == '-' && is_digit_char(s[8]) && is_digit_char(s[9]);
    if !digits {
        return false;
    }
    if s.len() == 10 {
        return true;
    }
    let c = s[10];
    c == ' ' || c == '\t' || c == '\n' || c == '\x0C' || c == '\r'
}

fn is_header_chars(ls: &Vec<Vec<char>>, i: usize) -> (r: bool)
    ensures
        r == is_header(Seq::new(ls@.len(), |k: int| ls@[k]@), i as int),
{
    let ghost v = Seq::new(ls@.len(), |k: int| ls@[k]@);
    if i >= ls.len() || ls.len() - i <= 1 {
        return false;
    }
    let ind = indent_chars();
    starts_with_date_chars(&ls[i]) && starts_with_chars(&ls[i + 1], &ind)
}

fn views(ls: &Vec<Vec<char>>) -> (r: Ghost<Seq<Seq<char>>>)
    ensures
        r@ == Seq::new(ls@.len(), |k: int| ls@[k]@),
{
    Ghost(Seq::new(ls@.len(), |k: int| ls@[k]@))
}

fn string_lines(content: &str) -> (r: Vec<Vec<char>>)
    ensures
        Seq::new(r@.len(), |k: int| r@[k]@) == lines(content@),
{
    let v = to_chars(content);
    let r = split_lines(&v);
    assert(Seq::new(r@.len(), |k: int| r@[k]@) =~= lines(v@));
    r
}

// Public interface.
// ---------------------------------------------------------------------------

/// The number of characters of `s`.
pub fn char_width(s: &str) -> (r: usize)
    ensures
        r == s@.len(),
{
    to_chars(s).len()
}

/// `left` and `right` joined with spaces, to `total_width` characters when
/// they fit with `min_gap` spaces between, else with exactly `min_gap`.
pub fn join_and_pad_between(left: &str, right: &str, total_width: usize, min_gap: usize) -> (r:
    String)
    ensures
        r@ == padded_join(left@, right@, total_width as nat, min_gap as nat),
        r@.len() == if left@.len() + right@.len() + min_gap >= total_width {
            left@.len() + right@.len() + min_gap
        } else {
            total_width as int
        },
        r@.take(left@.len() as int) == left@,
        r@.skip(r@.len() - right@.len()) == right@,
{
    let l = to_chars(left);
    let rr = to_chars(right);
    let out = pad_between_chars(&l, &rr, total_width, min_gap);
    proof {
        let g = out@.len() - l@.len() - rr@.len();
        assert(out@.take(l@.len() as int) =~= l@);
        assert(out@.skip(out@.len() - rr@.len()) =~= rr@);
    }
    chars_to_string(&out)
}

/// Whether `line` starts with the posting indentation.
pub fn is_indented_line(line: &str) -> (r: bool)
    ensures
        r == starts_with(line@, indent()),
{
    let v = to_chars(line);
    let ind = indent_chars();
    starts_with_chars(&v, &ind)
}

/// A posting line with `left` (the account) and `right` (the amount).
pub fn format_posting_line(left: &str, right: &str) -> (r: String)
    ensures
        r@ == posting_line(left@, right@),
{
    let out = posting_line_chars(&to_chars(left), &to_chars(right));
    chars_to_string(&out)
}

/// The account and amount of an indented posting line, if it is one.
pub fn parse_posting_line(line: &str) -> (r: Option<(String, String)>)
    ensures
        match r {
            Some((a, b)) => parse_posting(line@) == Some((a@, b@)),
            None => parse_posting(line@) is None,
        },
{
    match parse_posting_chars(&to_chars(line)) {
        Some((a, b)) => Some((chars_to_string(&a), chars_to_string(&b))),
        None => None,
    }
}

/// An account declaration line for the account named `ledger`.
pub fn format_account_declaration_raw(ledger: &str, type_tag: char) -> (r: String)
    ensures
        r@ == declaration_line(ledger@, type_tag),
{
    chars_to_string(&declaration_line_chars(&to_chars(ledger), type_tag))
}

/// The declaration line of `account`, with its hledger name and type letter.
pub fn format_account_declaration(account: &Account) -> (r: String)
    ensures
        r@ == declaration_line(ledger_name(*account), type_tag_of(*account)),
{
    format_account_declaration_raw(account.ledger().as_str(), account.type_tag())
}

/// Whether `line` is an account declaration.
pub fn is_account_declaration(line: &str) -> (r: bool)
    ensures
        r == is_account_declaration_spec(line@),
{
    is_declaration_chars(&to_chars(line))
}

/// The name and type letter of a declaration line, if it is a well-formed one.
pub fn parse_account_declaration(line: &str) -> (r: Option<(String, char)>)
    ensures
        match r {
            Some((n, c)) => parse_declaration(line@) == Some((n@, c)),
            None => parse_declaration(line@) is None,
        },
{
    match parse_declaration_chars(&to_chars(line)) {
        Some((n, c)) => Some((chars_to_string(&n), c)),
        None => None,
    }
}

/// Whether line `index` of `lines` opens a transaction: it starts with a
/// `YYYY-MM-DD` date and the line after it is indented.
pub fn is_transaction_header_line(lines: &[&str], index: usize) -> (r: bool)
    ensures
        r == is_header(Seq::new(lines@.len(), |k: int| lines@[k]@), index as int),
{
    if index >= lines.len() || lines.len() - index <= 1 {
        return false;
    }
    let first = to_chars(lines[index]);
    let ind = indent_chars();
    starts_with_date_chars(&first) && starts_with_chars(&to_chars(lines[index + 1]), &ind)
}

/// The account declarations found in `ledger_content`, each re-spaced.
pub fn extract_and_normalize_account_declarations(ledger_content: &str) -> (r: Vec<String>)
    ensures
        r@.len() == declarations_of(lines(ledger_content@)).len(),
        forall|k: int|
            0 <= k < r@.len() ==> #[trigger] r@[k]@ == declarations_of(lines(ledger_content@))[k],
{
    let ls = string_lines(ledger_content);
    let ghost lv = Seq::new(ls@.len(), |k: int| ls@[k]@);
    let mut out: Vec<String> = Vec::new();
    let mut i: usize = 0;
    while i < ls.len()
        invariant
            i <= ls@.len(),
            lv == Seq::new(ls@.len(), |k: int| ls@[k]@),
            out@.len() == declarations_of(lv.take(i as int)).len(),
            forall|k: int|
                0 <= k < out@.len() ==> #[trigger] out@[k]@ == declarations_of(lv.take(i as int))[k],
        decreases ls.len() - i,
    {
        assert(lv.take(i + 1).drop_last() == lv.take(i as int));
        assert(lv.take(i + 1).last() == ls@[i as int]@);
        if is_declaration_chars(&ls[i]) {
            match parse_declaration_chars(&ls[i]) {
                Some((n, c)) => {
                    out.push(chars_to_string(&declaration_line_chars(&n, c)));
                },
                None => {},
            }
        }
        i = i + 1;
    }
    assert(lv.take(ls@.len() as int) == lv);
    out
}

/// The lines of `ledger_content` that are not account declarations,
/// posting lines re-spaced, joined by newlines and trimmed.
#[verifier::spinoff_prover]
pub fn extract_and_normalize_non_account_lines(ledger_content: &str) -> (r: String)
    ensures
        r@ == trim(join(non_declarations_of(lines(ledger_content@)), "\n"@)),
{
    let ls = string_lines(ledger_content);
    let ghost lv = Seq::new(ls@.len(), |k: int| ls@[k]@);
    let mut out: Vec<Vec<char>> = Vec::new();
    let mut i: usize = 0;
    while i < ls.len()
        invariant
            i <= ls@.len(),
            lv == Seq::new(ls@.len(), |k: int| ls@[k]@),
            Seq::new(out@.len(), |k: int| out@[k]@) == non_declarations_of(lv.take(i as int)),
        decreases ls.len() - i,
    {
        assert(lv.take(i + 1).drop_last() == lv.take(i as int));
        assert(lv.take(i + 1).last() == ls@[i as int]@);
        let ghost before = Seq::new(out@.len(), |k: int| out@[k]@);
        if !is_declaration_chars(&ls[i]) {
            let n = normalize_line_chars(&ls[i]);
            out.push(n);
            assert(Seq::new(out@.len(), |k: int| out@[k]@) =~= before.push(n@));
        }
        i = i + 1;
    }
    assert(lv.take(ls@.len() as int) == lv);
    let nl = to_chars("\n");
    let joined = join_chars(&out, &nl);
    chars_to_string(&trim_chars(&joined))
}

/// `ledger_content` with `  ; tag` appended to every transaction header
/// line that does not carry `; tag` yet; its lines joined by newlines.
pub fn attach_transaction_tag(ledger_content: String, tag: &str) -> (r: String)
    ensures
        r@ == tagged_text(ledger_content@, tag@),
{
    let ls = string_lines(ledger_content.as_str());
    let ghost lv = Seq::new(ls@.len(), |k: int| ls@[k]@);
    let mut needle = to_chars("; ");
    push_all(&mut needle, &to_chars(tag));
    let mut suffix = to_chars("  ; ");
    push_all(&mut suffix, &to_chars(tag));
    let mut out: Vec<Vec<char>> = Vec::new();
    let mut i: usize = 0;
    while i < ls.len()
        invariant
            i <= ls@.len(),
            lv == Seq::new(ls@.len(), |k: int| ls@[k]@),
            lv == lines(ledger_content@),
            needle@ == "; "@ + tag@,
            suffix@ == "  ; "@ + tag@,
            out@.len() == i,
            forall|k: int| 0 <= k < i ==> #[trigger] out@[k]@ == tagged_line(lv, k, tag@),
        decreases ls.len() - i,
    {
        let line = slice_chars(&ls[i], 0, ls[i].len());
        if is_header_chars(&ls, i) {
            if contains_chars(&ls[i], &needle) {
                out.push(line);
            } else {
                let mut l = line;
                push_all(&mut l, &suffix);
                assert(l@ == lv[i as int] + "  ; "@ + tag@);
                out.push(l);
            }
        } else {
            out.push(line);
        }
        i = i + 1;
    }
    let nl = to_chars("\n");
    let joined = join_chars(&out, &nl);
    assert(Seq::new(out@.len(), |k: int| out@[k]@) =~= tag_lines(lv, tag@));
    chars_to_string(&joined)
}

/// textwrap 0.16 `wrap`, each line taken as an owned string.
#[verifier::external_body]
fn wrap_text(text: &str, width: usize) -> (r: Vec<String>)
    ensures
        r@.len() == textwrap_wrap(text@, width).len(),
        forall|k: int| 0 <= k < r@.len() ==> #[trigger] r@[k]@ == textwrap_wrap(text@, width)[k],
{
    textwrap::wrap(text, width).into_iter().map(|line| line.into_owned()).collect()
}

/// The comment lines of a note: `    ;`, then the note wrapped at 94
/// columns, each line behind `    ; `.
pub fn format_note(note: &str) -> (r: Vec<String>)
    ensures
        r@.len() == note_lines(note@).len(),
        forall|k: int| 0 <= k < r@.len() ==> #[trigger] r@[k]@ == note_lines(note@)[k],
{
    let wrapped = wrap_text(note, NOTE_WRAP_WIDTH);
    let ghost w = textwrap_wrap(note@, 94);
    let mut lines: Vec<String> = Vec::new();
    lines.push("    ;".to_owned());
    let mut i: usize = 0;
    while i < wrapped.len()
        invariant
            i <= wrapped@.len(),
            w == textwrap_wrap(note@, 94),
            wrapped@.len() == w.len(),
            forall|k: int| 0 <= k < wrapped@.len() ==> #[trigger] wrapped@[k]@ == w[k],
            lines@.len() == i + 1,
            lines@[0]@ == "    ;"@,
            forall|k: int| 0 <= k < i ==> #[trigger] lines@[k + 1]@ == "    ; "@ + w[k],
        decreases wrapped.len() - i,
    {
        let mut l = String::new();
        l.append("    ; ");
        l.append(wrapped[i].as_str());
        lines.push(l);
        i = i + 1;
    }
    proof {
        let n = note_lines(note@);
        assert forall|k: int| 0 <= k < lines@.len() implies #[trigger] lines@[k]@ == n[k] by {
            if k > 0 {
                assert(lines@[(k - 1) + 1]@ == "    ; "@ + w[k - 1]);
            }
        }
    }
    lines
}


proof fn lemma_run_end_at(ls: Seq<Seq<char>>, j: int, e: int)
    requires
        0 <= j <= e <= ls.len(),
        forall|k: int| j <= k < e ==> starts_with(#[trigger] ls[k], indent()),
        e == ls.len() || !starts_with(ls[e], indent()),
    ensures
        run_end(ls, j) == e,
    decreases e - j,
{
    if j < e {
        lemma_run_end_at(ls, j + 1, e);
    }
}

fn note_block(notes: &[String]) -> (r: Vec<Vec<char>>)
    ensures
        Seq::new(r@.len(), |k: int| r@[k]@) == notes_lines(
            Seq::new(notes@.len(), |k: int| notes@[k]@),
        ),
{
    let ghost nv = Seq::new(notes@.len(), |k: int| notes@[k]@);
    let mut out: Vec<Vec<char>> = Vec::new();
    let mut i: usize = 0;
    while i < notes.len()
        invariant
            i <= notes@.len(),
            nv == Seq::new(notes@.len(), |k: int| notes@[k]@),
            Seq::new(out@.len(), |k: int| out@[k]@) == notes_lines(nv.take(i as int)),
        decreases notes.len() - i,
    {
        let formatted = format_note(notes[i].as_str());
        let ghost before = Seq::new(out@.len(), |k: int| out@[k]@);
        let mut j: usize = 0;
        while j < formatted.len()
            invariant
                j <= formatted@.len(),
                formatted@.len() == note_lines(notes@[i as int]@).len(),
                forall|k: int|
                    0 <= k < formatted@.len() ==> #[trigger] formatted@[k]@ == note_lines(
                        notes@[i as int]@,
                    )[k],
                Seq::new(out@.len(), |k: int| out@[k]@) == before + note_lines(
                    notes@[i as int]@,
                ).take(j as int),
            decreases formatted.len() - j,
        {
            let ghost prev = Seq::new(out@.len(), |k: int| out@[k]@);
            out.push(to_chars(formatted[j].as_str()));
            assert(Seq::new(out@.len(), |k: int| out@[k]@) =~= prev.push(formatted@[j as int]@));
            assert(note_lines(notes@[i as int]@).take(j + 1) =~= note_lines(
                notes@[i as int]@,
            ).take(j as int).push(formatted@[j as int]@));
            j = j + 1;
        }
        assert(note_lines(notes@[i as int]@).take(j as int) =~= note_lines(notes@[i as int]@));
        assert(nv.take(i + 1).drop_last() =~= nv.take(i as int));
        assert(nv.take(i + 1).last() == notes@[i as int]@);
        i = i + 1;
    }
    assert(nv.take(notes@.len() as int) =~= nv);
    out
}

/// `ledger_content` with the comment lines of `notes` inserted after the
/// postings of every transaction; unchanged when there are no notes.
pub fn attach_transaction_notes(ledger_content: String, notes: &[String]) -> (r: String)
    ensures
        notes@.len() == 0 ==> r@ == ledger_content@,
        notes@.len() > 0 ==> r@ == join(
            with_notes(
                lines(ledger_content@),
                0,
                notes_lines(Seq::new(notes@.len(), |k: int| notes@[k]@)),
            ),
            "\n"@,
        ),
{
    if notes.len() == 0 {
        return ledger_content;
    }
    let ls = string_lines(ledger_content.as_str());
    let ghost lv = Seq::new(ls@.len(), |k: int| ls@[k]@);
    let block = note_block(notes);
    let ghost nb = Seq::new(block@.len(), |k: int| block@[k]@);
    let mut out: Vec<Vec<char>> = Vec::new();
    let mut index: usize = 0;
    while index < ls.len()
        invariant
            index <= ls@.len(),
            lv == Seq::new(ls@.len(), |k: int| ls@[k]@),
            nb == Seq::new(block@.len(), |k: int| block@[k]@),
            with_notes(lv, 0, nb) == Seq::new(out@.len(), |k: int| out@[k]@) + with_notes(
                lv,
                index as int,
                nb,
            ),
        decreases ls.len() - index,
    {
        let ghost before = Seq::new(out@.len(), |k: int| out@[k]@);
        if is_header_chars(&ls, index) {
            let h = index;
            let x = slice_chars(&ls[h], 0, ls[h].len());
            assert(x@ == lv[h as int]);
            out.push(x);
            assert(Seq::new(out@.len(), |k: int| out@[k]@) =~= before + seq![lv[h as int]]
                + lv.subrange(h + 1, h + 1));
            index = index + 1;
            let ind = indent_chars();
            while index < ls.len() && starts_with_chars(&ls[index], &ind)
                invariant
                    h < index <= ls@.len(),
                    lv == Seq::new(ls@.len(), |k: int| ls@[k]@),
                    ind@ == indent(),
                    forall|k: int| h + 1 <= k < index ==> starts_with(#[trigger] lv[k], indent()),
                    Seq::new(out@.len(), |k: int| out@[k]@) == before + seq![lv[h as int]]
                        + lv.subrange(h + 1, index as int),
                decreases ls.len() - index,
            {
                let ghost prev = Seq::new(out@.len(), |k: int| out@[k]@);
                let x = slice_chars(&ls[index], 0, ls[index].len());
                assert(x@ == lv[index as int]);
                out.push(x);
                assert(Seq::new(out@.len(), |k: int| out@[k]@) =~= prev.push(lv[index as int]));
                assert(lv.subrange(h + 1, index + 1) =~= lv.subrange(h + 1, index as int).push(
                    lv[index as int],
                ));
                index = index + 1;
            }
            proof {
                lemma_run_end_at(lv, h + 1, index as int);
            }
            let mut j: usize = 0;
            let ghost mid = Seq::new(out@.len(), |k: int| out@[k]@);
            while j < block.len()
                invariant
                    j <= block@.len(),
                    nb == Seq::new(block@.len(), |k: int| block@[k]@),
                    Seq::new(out@.len(), |k: int| out@[k]@) == mid + nb.take(j as int),
                decreases block.len() - j,
            {
                let ghost prev = Seq::new(out@.len(), |k: int| out@[k]@);
                let x = slice_chars(&block[j], 0, block[j].len());
                assert(x@ == nb[j as int]);
                out.push(x);
                assert(Seq::new(out@.len(), |k: int| out@[k]@) =~= prev.push(nb[j as int]));
                assert(nb.take(j + 1) =~= nb.take(j as int).push(nb[j as int]));
                j = j + 1;
            }
            assert(nb.take(j as int) =~= nb);
            assert(with_notes(lv, h as int, nb) == seq![lv[h as int]] + lv.subrange(
                h + 1,
                index as int,
            ) + nb + with_notes(lv, index as int, nb));
            assert(Seq::new(out@.len(), |k: int| out@[k]@) =~= before + (seq![lv[h as int]]
                + lv.subrange(h + 1, index as int) + nb));
        } else {
            let x = slice_chars(&ls[index], 0, ls[index].len());
            assert(x@ == lv[index as int]);
            out.push(x);
            assert(Seq::new(out@.len(), |k: int| out@[k]@) =~= before.push(lv[index as int]));
            index = index + 1;
        }
    }
    assert(with_notes(lv, index as int, nb) =~= Seq::<Seq<char>>::empty());
    let nl = to_chars("\n");
    let joined = join_chars(&out, &nl);
    assert(Seq::new(out@.len(), |k: int| out@[k]@) =~= with_notes(lv, 0, nb));
    chars_to_string(&joined)
}

} // verus!
