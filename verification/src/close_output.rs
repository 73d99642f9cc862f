//! Reading the postings that `hledger close` prints, and the text forms in
//! which the closing of a year is handed back to the user.
use vstd::prelude::*;

use crate::errors::Error;
use crate::journal_text::is_digit;
use crate::numfmt::{signed_decimal, signed_decimal_chars};
use crate::spec_types::CloseLogic;
use crate::text::{
    chars_to_string, first_index_of, is_whitespace_char, is_ws, join, join_chars,
    lemma_first_index_at, lemma_first_index_none, lines, push_all, slice_chars, split_lines,
    starts_with, starts_with_chars, strings_view, to_chars, trim, trim_chars,
};

verus! {

// Numbers as std's `f64::from_str` accepts them.
// ---------------------------------------------------------------------------

pub open spec fn all_digits(s: Seq<char>) -> bool {
    forall|i: int| 0 <= i < s.len() ==> is_digit(#[trigger] s[i])
}

/// `Digit+ | Digit+ '.' Digit* | Digit* '.' Digit+`
pub open spec fn mantissa_ok(m: Seq<char>) -> bool {
    let d = first_index_of(m, '.');
    if d < 0 {
        m.len() > 0 && all_digits(m)
    } else {
        let a = m.take(d);
        let b = m.skip(d + 1);
        all_digits(a) && all_digits(b) && (a.len() > 0 || b.len() > 0)
    }
}

pub open spec fn strip_sign(s: Seq<char>) -> Seq<char> {
    if s.len() > 0 && (s[0] == '+' || s[0] == '-') {
        s.drop_first()
    } else {
        s
    }
}

/// Index of the first `e` or `E`, or -1.
pub open spec fn exp_index(s: Seq<char>) -> int {
    let a = first_index_of(s, 'e');
    let b = first_index_of(s, 'E');
    if a < 0 {
        b
    } else if b < 0 {
        a
    } else if a < b {
        a
    } else {
        b
    }
}

/// `Number ::= Mantissa ( [eE] Sign? Digit+ )?`
pub open spec fn number_ok(s: Seq<char>) -> bool {
    let e = exp_index(s);
    if e < 0 {
        mantissa_ok(s)
    } else {
        let x = strip_sign(s.skip(e + 1));
        mantissa_ok(s.take(e)) && x.len() > 0 && all_digits(x)
    }
}

pub open spec fn lower(c: char) -> char {
    if 'A' <= c && c <= 'Z' {
        ((c as u32) + 32) as char
    } else {
        c
    }
}

pub open spec fn lowercase(s: Seq<char>) -> Seq<char> {
    Seq::new(s.len(), |i: int| lower(s[i]))
}

/// Whether std's `f64::from_str` accepts `s`: an optional sign, then
/// `inf`, `infinity`, `nan` (in any case) or a decimal number.
pub open spec fn is_float_text(s: Seq<char>) -> bool {
    let t = strip_sign(s);
    let l = lowercase(t);
    l == "inf"@ || l == "infinity"@ || l == "nan"@ || number_ok(t)
}

fn lower_char(c: char) -> (r: char)
    ensures
        r == lower(c),
{
    if 'A' <= c && c <= 'Z' {
        let b: u8 = ((c as u32) + 32) as u8;
        b as char
    } else {
        c
    }
}

fn all_digits_chars(s: &[char]) -> (r: bool)
    ensures
        r == all_digits(s@),
{
    let mut i: usize = 0;
    while i < s.len()
        invariant
            i <= s@.len(),
            forall|j: int| 0 <= j < i ==> is_digit(#[trigger] s@[j]),
        decreases s.len() - i,
    {
        if !('0' <= s[i] && s[i] <= '9') {
            return false;
        }
        i = i + 1;
    }
    true
}

fn first_index(s: &[char], c: char) -> (r: Option<usize>)
    ensures
        match r {
            Some(i) => i < s@.len() && first_index_of(s@, c) == i,
            None => first_index_of(s@, c) == -1,
        },
{
    let mut i: usize = 0;
    while i < s.len()
        invariant
            i <= s@.len(),
            forall|j: int| 0 <= j < i ==> s@[j] != c,
        decreases s.len() - i,
    {
        if s[i] == c {
            proof {
                lemma_first_index_at(s@, c, i as int);
            }
            return Some(i);
        }
        i = i + 1;
    }
    proof {
        lemma_first_index_none(s@, c);
    }
    None
}

fn mantissa_ok_chars(m: &[char]) -> (r: bool)
    ensures
        r == mantissa_ok(m@),
{
    match first_index(m, '.') {
        None => m.len() > 0 && all_digits_chars(m),
        Some(d) => {
            let n = m.len();
            assert(d < n);
            let a = slice_chars(m, 0, d);
            let b = slice_chars(m, d + 1, m.len());
            all_digits_chars(&a) && all_digits_chars(&b) && (a.len() > 0 || b.len() > 0)
        },
    }
}

fn strip_sign_chars(s: &[char]) -> (r: Vec<char>)
    ensures
        r@ == strip_sign(s@),
{
    if s.len() > 0 && (s[0] == '+' || s[0] == '-') {
        slice_chars(s, 1, s.len())
    } else {
        slice_chars(s, 0, s.len())
    }
}

fn number_ok_chars(s: &[char]) -> (r: bool)
    ensures
        r == number_ok(s@),
{
    let a = first_index(s, 'e');
    let b = first_index(s, 'E');
    let e: Option<usize> = match (a, b) {
        (None, b) => b,
        (a, None) => a,
        (Some(x), Some(y)) => if x < y {
            Some(x)
        } else {
            Some(y)
        },
    };
    match e {
        None => mantissa_ok_chars(s),
        Some(e) => {
            let n = s.len();
            assert(e < n);
            let x = strip_sign_chars(&slice_chars(s, e + 1, s.len()));
            mantissa_ok_chars(&slice_chars(s, 0, e)) && x.len() > 0 && all_digits_chars(&x)
        },
    }
}

fn lowercase_chars(s: &[char]) -> (r: Vec<char>)
    ensures
        r@ == lowercase(s@),
{
    let mut r: Vec<char> = Vec::new();
    let mut i: usize = 0;
    while i < s.len()
        invariant
            i <= s@.len(),
            r@ == lowercase(s@).take(i as int),
        decreases s.len() - i,
    {
        r.push(lower_char(s[i]));
        i = i + 1;
        assert(r@ =~= lowercase(s@).take(i as int));
    }
    assert(lowercase(s@).take(s@.len() as int) =~= lowercase(s@));
    r
}

fn equals_chars(a: &[char], b: &[char]) -> (r: bool)
    ensures
        r == (a@ == b@),
{
    crate::text::chars_equal(a, b)
}

/// Whether std's `f64::from_str` accepts the text `s`.
pub fn is_float_text_chars(s: &[char]) -> (r: bool)
    ensures
        r == is_float_text(s@),
{
    let t = strip_sign_chars(s);
    let l = lowercase_chars(&t);
    equals_chars(&l, &to_chars("inf")) || equals_chars(&l, &to_chars("infinity")) || equals_chars(
        &l,
        &to_chars("nan"),
    ) || number_ok_chars(&t)
}

// Amounts as hledger prints them.
// ---------------------------------------------------------------------------

/// `s` without its commas.
pub open spec fn without_commas(s: Seq<char>) -> Seq<char>
    decreases s.len(),
{
    if s.len() == 0 {
        Seq::empty()
    } else if s.last() == ',' {
        without_commas(s.drop_last())
    } else {
        without_commas(s.drop_last()).push(s.last())
    }
}

/// An hledger amount like `-4,000.` made plain: commas removed, and one
/// trailing decimal point dropped.
pub open spec fn plain_number(value: Seq<char>) -> Seq<char> {
    let n = without_commas(value);
    if n.len() > 0 && n.last() == '.' {
        n.drop_last()
    } else {
        n
    }
}

pub open spec fn invalid_amount_message(value: Seq<char>) -> Seq<char> {
    "invalid close amount '"@ + value + "'"@
}

/// The plain number that an hledger amount stands for, when std reads it
/// as a float; else the error for it.
pub open spec fn formatted_number(value: Seq<char>) -> Result<Seq<char>, Seq<char>> {
    let p = plain_number(value);
    if is_float_text(p) {
        Ok(p)
    } else {
        Err(invalid_amount_message(value))
    }
}

pub(crate) fn without_commas_chars(s: &[char]) -> (r: Vec<char>)
    ensures
        r@ == without_commas(s@),
{
    let mut r: Vec<char> = Vec::new();
    let mut i: usize = 0;
    while i < s.len()
        invariant
            i <= s@.len(),
            r@ == without_commas(s@.take(i as int)),
        decreases s.len() - i,
    {
        assert(s@.take(i + 1).drop_last() == s@.take(i as int));
        if s[i] != ',' {
            r.push(s[i]);
        }
        i = i + 1;
    }
    assert(s@.take(s@.len() as int) == s@);
    r
}

fn plain_number_chars(value: &[char]) -> (r: Vec<char>)
    ensures
        r@ == plain_number(value@),
{
    let mut n = without_commas_chars(value);
    if n.len() > 0 && n[n.len() - 1] == '.' {
        n.pop();
    }
    n
}

fn quoted_message(prefix: &str, value: &[char]) -> (r: String)
    ensures
        r@ == prefix@ + value@ + "'"@,
{
    let mut m = to_chars(prefix);
    push_all(&mut m, value);
    push_all(&mut m, &to_chars("'"));
    chars_to_string(&m)
}

fn formatted_number_chars(value: &[char]) -> (r: Result<Vec<char>, Error>)
    ensures
        match formatted_number(value@) {
            Ok(p) => r matches Ok(v) && v@ == p,
            Err(m) => r matches Err(Error::HledgerCloseInvalidResponse { details }) && details@
                == m,
        },
{
    let p = plain_number_chars(value);
    if is_float_text_chars(&p) {
        Ok(p)
    } else {
        Err(Error::HledgerCloseInvalidResponse {
            details: quoted_message("invalid close amount '", value),
        })
    }
}

/// The plain number that an hledger amount like `-4,000.` stands for, as
/// std's `f64::from_str` will read it; an error when it does not read it.
pub fn parse_formatted_number(value: &str) -> (r: Result<String, Error>)
    ensures
        match formatted_number(value@) {
            Ok(p) => r matches Ok(v) && v@ == p,
            Err(m) => r matches Err(Error::HledgerCloseInvalidResponse { details }) && details@
                == m,
        },
{
    match formatted_number_chars(&to_chars(value)) {
        Ok(p) => Ok(chars_to_string(&p)),
        Err(e) => Err(e),
    }
}

/// The same reading of an amount, under the name the record generator uses.
pub fn parse_hledger_amount(value: &str) -> (r: Result<String, Error>)
    ensures
        match formatted_number(value@) {
            Ok(p) => r matches Ok(v) && v@ == p,
            Err(m) => r matches Err(Error::HledgerCloseInvalidResponse { details }) && details@
                == m,
        },
{
    parse_formatted_number(value)
}


// Words and patterns.
// ---------------------------------------------------------------------------

/// Index of the first whitespace character of `s`, or its length.
pub open spec fn first_ws(s: Seq<char>) -> int
    decreases s.len(),
{
    if s.len() == 0 || is_ws(s[0]) {
        0
    } else {
        1 + first_ws(s.drop_first())
    }
}

pub proof fn lemma_first_ws_bounds(s: Seq<char>)
    ensures
        0 <= first_ws(s) <= s.len(),
        s.len() > 0 && !is_ws(s[0]) ==> first_ws(s) >= 1,
    decreases s.len(),
{
    if s.len() > 0 && !is_ws(s[0]) {
        lemma_first_ws_bounds(s.drop_first());
    }
}

pub proof fn lemma_trim_start_shorter(s: Seq<char>)
    ensures
        crate::text::trim_start(s).len() <= s.len(),
        crate::text::trim_start(s).len() > 0 ==> !is_ws(crate::text::trim_start(s)[0]),
        exists|k: int| 0 <= k <= s.len() && crate::text::trim_start(s) == #[trigger] s.skip(k),
    decreases s.len(),
{
    if s.len() > 0 && is_ws(s[0]) {
        lemma_trim_start_shorter(s.drop_first());
        let k = choose|k: int|
            0 <= k <= s.drop_first().len() && crate::text::trim_start(s.drop_first())
                == #[trigger] s.drop_first().skip(k);
        assert(s.drop_first().skip(k) == s.skip(k + 1));
    } else {
        assert(s.skip(0) == s);
    }
}

/// The whitespace-separated words of `s`, as `str::split_whitespace`
/// yields them.
pub open spec fn words(s: Seq<char>) -> Seq<Seq<char>>
    decreases s.len(),
{
    let t = crate::text::trim_start(s);
    proof {
        lemma_trim_start_shorter(s);
        lemma_first_ws_bounds(t);
    }
    if t.len() == 0 {
        Seq::empty()
    } else {
        let k = first_ws(t);
        seq![t.take(k)] + words(t.skip(k))
    }
}

/// Index of the first occurrence of `p` in `s` at or after `i`, or -1.
pub open spec fn find_from(s: Seq<char>, p: Seq<char>, i: int) -> int
    decreases s.len() + 1 - i,
{
    if i < 0 || i + p.len() > s.len() {
        -1
    } else if s.subrange(i, i + p.len()) == p {
        i
    } else {
        find_from(s, p, i + 1)
    }
}

pub open spec fn find(s: Seq<char>, p: Seq<char>) -> int {
    find_from(s, p, 0)
}

proof fn lemma_find_from_bounds(s: Seq<char>, p: Seq<char>, i: int)
    ensures
        find_from(s, p, i) == -1 || (i <= find_from(s, p, i) && find_from(s, p, i) + p.len()
            <= s.len()),
    decreases s.len() + 1 - i,
{
    if !(i < 0 || i + p.len() > s.len()) && s.subrange(i, i + p.len()) != p {
        lemma_find_from_bounds(s, p, i + 1);
    }
}

/// Whether `c` is kept when a token is cleaned of non-numeric ends.
pub open spec fn numeric_char(c: char) -> bool {
    is_digit(c) || c == '-' || c == '+' || c == ',' || c == '.'
}

/// `s` without leading characters that cannot belong to a number.
pub open spec fn strip_nonnumeric_start(s: Seq<char>) -> Seq<char>
    decreases s.len(),
{
    if s.len() > 0 && !numeric_char(s[0]) {
        strip_nonnumeric_start(s.drop_first())
    } else {
        s
    }
}

/// `s` without trailing characters that cannot belong to a number.
pub open spec fn strip_nonnumeric_end(s: Seq<char>) -> Seq<char>
    decreases s.len(),
{
    if s.len() > 0 && !numeric_char(s.last()) {
        strip_nonnumeric_end(s.drop_last())
    } else {
        s
    }
}

/// A token cleaned of characters that cannot belong to a number at either end.
pub open spec fn cleaned_token(s: Seq<char>) -> Seq<char> {
    strip_nonnumeric_end(strip_nonnumeric_start(s))
}

/// The number of the first token of `ws` that reads as one, either as it
/// stands or cleaned of non-numeric ends.
pub open spec fn first_amount(ws: Seq<Seq<char>>) -> Option<Seq<char>>
    decreases ws.len(),
{
    if ws.len() == 0 {
        None
    } else {
        let t = ws[0];
        let c = cleaned_token(t);
        if formatted_number(t) is Ok {
            Some(formatted_number(t)->Ok_0)
        } else if c.len() > 0 && formatted_number(c) is Ok {
            Some(formatted_number(c)->Ok_0)
        } else {
            first_amount(ws.drop_first())
        }
    }
}

pub open spec fn amount_expr_message(expr: Seq<char>) -> Seq<char> {
    "could not parse amount from close posting expression '"@ + expr + "'"@
}

/// The amount of an expression such as `-4,000. ₩` or `USD -4,000.45`.
pub open spec fn amount_expr(expr: Seq<char>) -> Result<Seq<char>, Seq<char>> {
    match first_amount(words(expr)) {
        Some(a) => Ok(a),
        None => Err(amount_expr_message(expr)),
    }
}

pub open spec fn output_context_text(line: Seq<char>) -> Seq<char> {
    "invalid close output line: '"@ + line + "'"@
}

/// A posting line of `hledger close` output read by the entry generator:
/// nothing for header lines, blank lines and the `VoidOut` line; else the
/// account and the plain amount of the debit side.
pub open spec fn close_posting(raw: Seq<char>) -> Result<Option<(Seq<char>, Seq<char>)>, Seq<char>> {
    if !starts_with(raw, "    "@) {
        Ok(None)
    } else {
        let line = trim(raw);
        if line.len() == 0 || line == "VoidOut"@ {
            Ok(None)
        } else {
            let e = find(line, " = "@);
            if e < 0 {
                Err(output_context_text(raw))
            } else {
                let debit = line.take(e);
                let k = first_ws(debit);
                if k >= debit.len() {
                    Err(output_context_text(raw))
                } else {
                    match amount_expr(debit.skip(k + 1)) {
                        Ok(a) => Ok(Some((debit.take(k), a))),
                        Err(m) => Err(m),
                    }
                }
            }
        }
    }
}

/// A posting line of `hledger close` output read by the record generator:
/// nothing for blank lines, the `VoidOut` line and header lines; else the
/// first two words before ` = `, the account and its plain amount.
pub open spec fn close_entry(raw: Seq<char>) -> Result<Option<(Seq<char>, Seq<char>)>, Seq<char>> {
    let line = trim(raw);
    if line.len() == 0 || line == "VoidOut"@ {
        Ok(None)
    } else if !starts_with(raw, "    "@) {
        Ok(None)
    } else {
        let e = find(line, " = "@);
        if e < 0 {
            Err(output_context_text(raw))
        } else {
            let ws = words(line.take(e));
            if ws.len() < 2 {
                Err(output_context_text(raw))
            } else {
                match formatted_number(ws[1]) {
                    Ok(a) => Ok(Some((ws[0], a))),
                    Err(m) => Err(m),
                }
            }
        }
    }
}

/// The postings of all lines of `output` read by `f`, or the first error.
pub open spec fn collect_lines(
    ls: Seq<Seq<char>>,
    f: spec_fn(Seq<char>) -> Result<Option<(Seq<char>, Seq<char>)>, Seq<char>>,
) -> Result<Seq<(Seq<char>, Seq<char>)>, Seq<char>>
    decreases ls.len(),
{
    if ls.len() == 0 {
        Ok(Seq::empty())
    } else {
        match collect_lines(ls.drop_last(), f) {
            Err(m) => Err(m),
            Ok(acc) => match f(ls.last()) {
                Err(m) => Err(m),
                Ok(None) => Ok(acc),
                Ok(Some(p)) => Ok(acc.push(p)),
            },
        }
    }
}


proof fn lemma_first_ws_at(s: Seq<char>, j: int, k: int)
    requires
        0 <= j <= k <= s.len(),
        forall|m: int| j <= m < k ==> !is_ws(#[trigger] s[m]),
        k == s.len() || is_ws(s[k]),
    ensures
        first_ws(s.skip(j)) == k - j,
    decreases k - j,
{
    let t = s.skip(j);
    if j < k {
        lemma_first_ws_at(s, j + 1, k);
        assert(t.drop_first() == s.skip(j + 1));
        assert(t[0] == s[j]);
    } else if k < s.len() {
        assert(t[0] == s[k]);
    }
}

proof fn lemma_trim_start_from(s: Seq<char>, i: int, j: int)
    requires
        0 <= i <= j <= s.len(),
        forall|m: int| i <= m < j ==> is_ws(#[trigger] s[m]),
        j == s.len() || !is_ws(s[j]),
    ensures
        crate::text::trim_start(s.skip(i)) == s.skip(j),
    decreases j - i,
{
    let t = s.skip(i);
    if i < j {
        assert(t[0] == s[i]);
        assert(t.drop_first() == s.skip(i + 1));
        lemma_trim_start_from(s, i + 1, j);
    } else if j < s.len() {
        assert(t[0] == s[j]);
    }
}

/// The whitespace-separated words of `v`.
pub fn words_chars(v: &[char]) -> (r: Vec<Vec<char>>)
    ensures
        Seq::new(r@.len(), |k: int| r@[k]@) == words(v@),
{
    let mut out: Vec<Vec<char>> = Vec::new();
    let mut i: usize = 0;
    assert(v@.skip(0) == v@);
    while i < v.len()
        invariant
            i <= v@.len(),
            words(v@) == Seq::new(out@.len(), |k: int| out@[k]@) + words(v@.skip(i as int)),
        decreases v.len() - i,
    {
        let ghost before = Seq::new(out@.len(), |k: int| out@[k]@);
        let mut j = i;
        while j < v.len() && is_whitespace_char(v[j])
            invariant
                i <= j <= v@.len(),
                forall|m: int| i <= m < j ==> is_ws(#[trigger] v@[m]),
            decreases v.len() - j,
        {
            j = j + 1;
        }
        proof {
            lemma_trim_start_from(v@, i as int, j as int);
        }
        if j == v.len() {
            proof {
                assert(crate::text::trim_start(v@.skip(i as int)).len() == 0);
                assert(words(v@.skip(i as int)) == Seq::<Seq<char>>::empty());
                assert(v@.skip(j as int).len() == 0);
                assert(words(v@.skip(j as int)) == Seq::<Seq<char>>::empty());
            }
            i = j;
        } else {
            let mut k = j;
            while k < v.len() && !is_whitespace_char(v[k])
                invariant
                    j <= k <= v@.len(),
                    forall|m: int| j <= m < k ==> !is_ws(#[trigger] v@[m]),
                decreases v.len() - k,
            {
                k = k + 1;
            }
            proof {
                lemma_first_ws_at(v@, j as int, k as int);
                let t = v@.skip(j as int);
                assert(t.take(k - j) == v@.subrange(j as int, k as int));
                assert(t.skip(k - j) == v@.skip(k as int));
                assert(t.len() > 0);
            }
            let word = slice_chars(v, j, k);
            out.push(word);
            assert(Seq::new(out@.len(), |q: int| out@[q]@) =~= before.push(word@));
            i = k;
        }
    }
    proof {
        assert(v@.skip(i as int).len() == 0);
        assert(words(v@.skip(i as int)) == Seq::<Seq<char>>::empty());
    }
    assert(Seq::new(out@.len(), |k: int| out@[k]@) + Seq::<Seq<char>>::empty() =~= Seq::new(
        out@.len(),
        |k: int| out@[k]@,
    ));
    out
}

fn find_chars(s: &[char], p: &[char]) -> (r: Option<usize>)
    ensures
        match r {
            Some(i) => find(s@, p@) == i && i + p@.len() <= s@.len(),
            None => find(s@, p@) == -1,
        },
{
    if p.len() == 0 {
        assert(s@.subrange(0, 0) =~= p@);
        return Some(0);
    }
    let mut i: usize = 0;
    while i <= s.len() && p.len() <= s.len() - i
        invariant
            i <= s@.len() + 1,
            p@.len() >= 1,
            find(s@, p@) == find_from(s@, p@, i as int),
        decreases s.len() + 1 - i,
    {
        let window = slice_chars(s, i, i + p.len());
        if crate::text::chars_equal(&window, p) {
            return Some(i);
        }
        i = i + 1;
    }
    None
}

fn strip_nonnumeric_chars(s: &[char]) -> (r: Vec<char>)
    ensures
        r@ == cleaned_token(s@),
{
    let mut i: usize = 0;
    assert(s@.skip(0) == s@);
    while i < s.len() && !('0' <= s[i] && s[i] <= '9' || s[i] == '-' || s[i] == '+' || s[i]
        == ',' || s[i] == '.')
        invariant
            i <= s@.len(),
            strip_nonnumeric_start(s@) == strip_nonnumeric_start(s@.skip(i as int)),
        decreases s.len() - i,
    {
        assert(s@.skip(i as int).drop_first() == s@.skip(i + 1));
        i = i + 1;
    }
    let mut j: usize = s.len();
    let ghost a = s@.skip(i as int);
    assert(strip_nonnumeric_start(s@.skip(i as int)) == a);
    while j > i && !('0' <= s[j - 1] && s[j - 1] <= '9' || s[j - 1] == '-' || s[j - 1] == '+'
        || s[j - 1] == ',' || s[j - 1] == '.')
        invariant
            i <= j <= s@.len(),
            a == s@.skip(i as int),
            strip_nonnumeric_end(a) == strip_nonnumeric_end(s@.subrange(i as int, j as int)),
        decreases j,
    {
        assert(s@.subrange(i as int, j as int).drop_last() == s@.subrange(i as int, j - 1));
        j = j - 1;
    }
    assert(a == s@.subrange(i as int, s@.len() as int));
    slice_chars(s, i, j)
}

fn first_amount_chars(ws: &Vec<Vec<char>>) -> (r: Option<Vec<char>>)
    ensures
        match first_amount(Seq::new(ws@.len(), |k: int| ws@[k]@)) {
            Some(a) => r matches Some(v) && v@ == a,
            None => r is None,
        },
{
    let ghost all = Seq::new(ws@.len(), |k: int| ws@[k]@);
    let mut i: usize = 0;
    assert(all.skip(0) == all);
    while i < ws.len()
        invariant
            i <= ws@.len(),
            all == Seq::new(ws@.len(), |k: int| ws@[k]@),
            first_amount(all) == first_amount(all.skip(i as int)),
        decreases ws.len() - i,
    {
        let t = &ws[i];
        let ghost rest = all.skip(i as int);
        assert(rest[0] == t@);
        assert(rest.drop_first() == all.skip(i + 1));
        match formatted_number_chars(t) {
            Ok(p) => {
                return Some(p);
            },
            Err(_) => {},
        }
        let c = strip_nonnumeric_chars(t);
        if c.len() > 0 {
            match formatted_number_chars(&c) {
                Ok(p) => {
                    return Some(p);
                },
                Err(_) => {},
            }
        }
        i = i + 1;
    }
    assert(all.skip(i as int).len() == 0);
    None
}

fn amount_expr_chars(expr: &[char]) -> (r: Result<Vec<char>, Error>)
    ensures
        match amount_expr(expr@) {
            Ok(a) => r matches Ok(v) && v@ == a,
            Err(m) => r matches Err(Error::HledgerCloseInvalidResponse { details }) && details@
                == m,
        },
{
    let ws = words_chars(expr);
    match first_amount_chars(&ws) {
        Some(a) => Ok(a),
        None => Err(Error::HledgerCloseInvalidResponse {
            details: quoted_message("could not parse amount from close posting expression '", expr),
        }),
    }
}

/// The plain number of the first token of `expr` that reads as one, as it
/// stands or cleaned of characters like currency symbols at its ends.
pub fn parse_amount_expr(expr: &str) -> (r: Result<String, Error>)
    ensures
        match amount_expr(expr@) {
            Ok(a) => r matches Ok(v) && v@ == a,
            Err(m) => r matches Err(Error::HledgerCloseInvalidResponse { details }) && details@
                == m,
        },
{
    match amount_expr_chars(&to_chars(expr)) {
        Ok(a) => Ok(chars_to_string(&a)),
        Err(e) => Err(e),
    }
}

fn close_error(raw: &[char]) -> (r: Error)
    ensures
        r matches Error::HledgerCloseInvalidResponse { details } && details@ == output_context_text(
            raw@,
        ),
{
    Error::HledgerCloseInvalidResponse {
        details: quoted_message("invalid close output line: '", raw),
    }
}

proof fn lemma_collect_err(
    ls: Seq<Seq<char>>,
    f: spec_fn(Seq<char>) -> Result<Option<(Seq<char>, Seq<char>)>, Seq<char>>,
    n: int,
    m: Seq<char>,
)
    requires
        0 <= n <= ls.len(),
        collect_lines(ls.take(n), f) == Err::<Seq<(Seq<char>, Seq<char>)>, Seq<char>>(m),
    ensures
        collect_lines(ls, f) == Err::<Seq<(Seq<char>, Seq<char>)>, Seq<char>>(m),
    decreases ls.len() - n,
{
    if n < ls.len() {
        assert(ls.take(n + 1).drop_last() == ls.take(n));
        lemma_collect_err(ls, f, n + 1, m);
    } else {
        assert(ls.take(n) == ls);
    }
}

pub open spec fn posting_result_matches(
    r: Result<Option<(String, String)>, Error>,
    s: Result<Option<(Seq<char>, Seq<char>)>, Seq<char>>,
) -> bool {
    match s {
        Ok(None) => r matches Ok(None),
        Ok(Some((a, b))) => r matches Ok(Some((x, y))) && x@ == a && y@ == b,
        Err(m) => r matches Err(Error::HledgerCloseInvalidResponse { details }) && details@ == m,
    }
}

fn close_posting_chars(raw: &[char]) -> (r: Result<Option<(String, String)>, Error>)
    ensures
        posting_result_matches(r, close_posting(raw@)),
{
    proof {
        reveal_strlit("    ");
        reveal_strlit(" = ");
    }
    if !starts_with_chars(raw, &to_chars("    ")) {
        return Ok(None);
    }
    let line = trim_chars(raw);
    if line.len() == 0 || crate::text::chars_equal(&line, &to_chars("VoidOut")) {
        return Ok(None);
    }
    let e = match find_chars(&line, &to_chars(" = ")) {
        Some(e) => e,
        None => return Err(close_error(raw)),
    };
    let debit = slice_chars(&line, 0, e);
    let mut k: usize = 0;
    while k < debit.len() && !is_whitespace_char(debit[k])
        invariant
            k <= debit@.len(),
            forall|m: int| 0 <= m < k ==> !is_ws(#[trigger] debit@[m]),
        decreases debit.len() - k,
    {
        k = k + 1;
    }
    proof {
        lemma_first_ws_at(debit@, 0, k as int);
        assert(debit@.skip(0) == debit@);
    }
    if k >= debit.len() {
        return Err(close_error(raw));
    }
    let account = slice_chars(&debit, 0, k);
    let rest = slice_chars(&debit, k + 1, debit.len());
    match amount_expr_chars(&rest) {
        Ok(a) => Ok(Some((chars_to_string(&account), chars_to_string(&a)))),
        Err(err) => Err(err),
    }
}

/// A line of `hledger close` output as the entry generator reads it:
/// nothing for header, blank and `VoidOut` lines, else the account and the
/// plain amount of the posting.
pub fn parse_close_posting(raw_line: &str) -> (r: Result<Option<(String, String)>, Error>)
    ensures
        posting_result_matches(r, close_posting(raw_line@)),
{
    close_posting_chars(&to_chars(raw_line))
}

fn close_entry_chars(raw: &[char]) -> (r: Result<Option<(String, String)>, Error>)
    ensures
        posting_result_matches(r, close_entry(raw@)),
{
    proof {
        reveal_strlit("    ");
        reveal_strlit(" = ");
    }
    let line = trim_chars(raw);
    if line.len() == 0 || crate::text::chars_equal(&line, &to_chars("VoidOut")) {
        return Ok(None);
    }
    if !starts_with_chars(raw, &to_chars("    ")) {
        return Ok(None);
    }
    let e = match find_chars(&line, &to_chars(" = ")) {
        Some(e) => e,
        None => return Err(close_error(raw)),
    };
    let ws = words_chars(&slice_chars(&line, 0, e));
    if ws.len() < 2 {
        return Err(close_error(raw));
    }
    match formatted_number_chars(&ws[1]) {
        Ok(a) => Ok(Some((chars_to_string(&ws[0]), chars_to_string(&a)))),
        Err(err) => Err(err),
    }
}

/// A line of `hledger close` output as the record generator reads it:
/// nothing for blank, `VoidOut` and header lines, else the first two words
/// before ` = `: the account and its plain amount.
pub fn parse_close_entry(raw_line: &str) -> (r: Result<Option<(String, String)>, Error>)
    ensures
        posting_result_matches(r, close_entry(raw_line@)),
{
    close_entry_chars(&to_chars(raw_line))
}

pub open spec fn postings_result_matches(
    r: Result<Vec<(String, String)>, Error>,
    s: Result<Seq<(Seq<char>, Seq<char>)>, Seq<char>>,
) -> bool {
    match s {
        Ok(ps) => r matches Ok(v) && v@.len() == ps.len() && forall|k: int|
            0 <= k < ps.len() ==> (#[trigger] v@[k]).0@ == ps[k].0 && v@[k].1@ == ps[k].1,
        Err(m) => r matches Err(Error::HledgerCloseInvalidResponse { details }) && details@ == m,
    }
}

/// Every posting that the lines of `output` hold, as the entry generator
/// reads them, or the first line's error.
pub fn parse_close_postings(output: &str) -> (r: Result<Vec<(String, String)>, Error>)
    ensures
        postings_result_matches(r, collect_lines(lines(output@), |l: Seq<char>| close_posting(l))),
{
    let ls = split_lines(&to_chars(output));
    let ghost lv = lines(output@);
    let ghost f = |l: Seq<char>| close_posting(l);
    let mut acc: Vec<(String, String)> = Vec::new();
    let mut i: usize = 0;
    while i < ls.len()
        invariant
            i <= ls@.len(),
            lv == lines(output@),
            ls@.len() == lv.len(),
            forall|k: int| 0 <= k < ls@.len() ==> #[trigger] ls@[k]@ == lv[k],
            f == (|l: Seq<char>| close_posting(l)),
            postings_result_matches(Ok(acc), collect_lines(lv.take(i as int), f)),
        decreases ls.len() - i,
    {
        assert(lv.take(i + 1).drop_last() == lv.take(i as int));
        assert(lv.take(i + 1).last() == ls@[i as int]@);
        let ghost before = acc@;
        match close_posting_chars(&ls[i]) {
            Err(e) => {
                proof {
                    if e is HledgerCloseInvalidResponse {
                        lemma_collect_err(lv, f, i + 1, e->HledgerCloseInvalidResponse_details@);
                    }
                }
                return Err(e);
            },
            Ok(None) => {},
            Ok(Some(p)) => {
                acc.push(p);
            },
        }
        i = i + 1;
    }
    assert(lv.take(ls@.len() as int) == lv);
    Ok(acc)
}

/// Every entry that the lines of `output` hold, as the record generator
/// reads them, or the first line's error.
pub fn parse_close_entries(output: &str) -> (r: Result<Vec<(String, String)>, Error>)
    ensures
        postings_result_matches(r, collect_lines(lines(output@), |l: Seq<char>| close_entry(l))),
{
    let ls = split_lines(&to_chars(output));
    let ghost lv = lines(output@);
    let ghost f = |l: Seq<char>| close_entry(l);
    let mut acc: Vec<(String, String)> = Vec::new();
    let mut i: usize = 0;
    while i < ls.len()
        invariant
            i <= ls@.len(),
            lv == lines(output@),
            ls@.len() == lv.len(),
            forall|k: int| 0 <= k < ls@.len() ==> #[trigger] ls@[k]@ == lv[k],
            f == (|l: Seq<char>| close_entry(l)),
            postings_result_matches(Ok(acc), collect_lines(lv.take(i as int), f)),
        decreases ls.len() - i,
    {
        assert(lv.take(i + 1).drop_last() == lv.take(i as int));
        assert(lv.take(i + 1).last() == ls@[i as int]@);
        match close_entry_chars(&ls[i]) {
            Err(e) => {
                proof {
                    if e is HledgerCloseInvalidResponse {
                        lemma_collect_err(lv, f, i + 1, e->HledgerCloseInvalidResponse_details@);
                    }
                }
                return Err(e);
            },
            Ok(None) => {},
            Ok(Some(p)) => {
                acc.push(p);
            },
        }
        i = i + 1;
    }
    assert(lv.take(ls@.len() as int) == lv);
    Ok(acc)
}


// What is handed back to the user.
// ---------------------------------------------------------------------------

/// How a character is written inside a JSON string.
pub open spec fn escape_char(c: char) -> Seq<char> {
    if c == '\\' {
        seq!['\\', '\\']
    } else if c == '"' {
        seq!['\\', '"']
    } else if c == '\n' {
        seq!['\\', 'n']
    } else if c == '\r' {
        seq!['\\', 'r']
    } else if c == '\t' {
        seq!['\\', 't']
    } else {
        seq![c]
    }
}

/// `s` with backslashes, quotes, newlines, carriage returns and tabs escaped.
pub open spec fn json_escape(s: Seq<char>) -> Seq<char>
    decreases s.len(),
{
    if s.len() == 0 {
        Seq::empty()
    } else {
        json_escape(s.drop_last()) + escape_char(s.last())
    }
}

/// `value` with backslashes, quotes, newlines, carriage returns and tabs
/// escaped, to stand inside a JSON string.
pub fn escape_json_string(value: &str) -> (r: String)
    ensures
        r@ == json_escape(value@),
{
    let v = to_chars(value);
    let mut out: Vec<char> = Vec::new();
    let mut i: usize = 0;
    while i < v.len()
        invariant
            i <= v@.len(),
            out@ == json_escape(v@.take(i as int)),
        decreases v.len() - i,
    {
        assert(v@.take(i + 1).drop_last() == v@.take(i as int));
        let c = v[i];
        if c == '\\' {
            out.push('\\');
            out.push('\\');
        } else if c == '"' {
            out.push('\\');
            out.push('"');
        } else if c == '\n' {
            out.push('\\');
            out.push('n');
        } else if c == '\r' {
            out.push('\\');
            out.push('r');
        } else if c == '\t' {
            out.push('\\');
            out.push('t');
        } else {
            out.push(c);
        }
        assert(out@ =~= json_escape(v@.take(i as int)) + escape_char(c));
        i = i + 1;
    }
    assert(v@.take(v@.len() as int) == v@);
    chars_to_string(&out)
}

/// One closing entry as a JSON pair: `["account",amount]`.
pub open spec fn entry_json(account: Seq<char>, amount: Seq<char>) -> Seq<char> {
    "[\""@ + json_escape(account) + "\","@ + amount + "]"@
}

/// The closing entries as a minified JSON array of `[account, amount]`
/// pairs; each amount is given as the text that stands for it.
pub fn close_record_json(entries: &[(String, String)]) -> (r: String)
    ensures
        r@ == "["@ + join(
            Seq::new(entries@.len(), |k: int| entry_json(entries@[k].0@, entries@[k].1@)),
            ","@,
        ) + "]"@,
{
    let mut parts: Vec<Vec<char>> = Vec::new();
    let mut i: usize = 0;
    while i < entries.len()
        invariant
            i <= entries@.len(),
            parts@.len() == i,
            forall|k: int|
                0 <= k < i ==> #[trigger] parts@[k]@ == entry_json(entries@[k].0@, entries@[k].1@),
        decreases entries.len() - i,
    {
        let mut p = to_chars("[\"");
        push_all(&mut p, &to_chars(escape_json_string(entries[i].0.as_str()).as_str()));
        push_all(&mut p, &to_chars("\","));
        push_all(&mut p, &to_chars(entries[i].1.as_str()));
        push_all(&mut p, &to_chars("]"));
        parts.push(p);
        i = i + 1;
    }
    let body = join_chars(&parts, &to_chars(","));
    assert(Seq::new(parts@.len(), |k: int| parts@[k]@) =~= Seq::new(
        entries@.len(),
        |k: int| entry_json(entries@[k].0@, entries@[k].1@),
    ));
    let mut out = to_chars("[");
    push_all(&mut out, &body);
    push_all(&mut out, &to_chars("]"));
    chars_to_string(&out)
}

/// A spreadsheet row, tab separated, that records the closing command:
/// `:`, the closing date, the close logic placeholder, the tag and the total.
pub fn format_clipboard_row(closing_date: &str, tag: &str, total_amount: &str) -> (r: String)
    ensures
        r@ == ":\t\t"@ + closing_date@ + "\tClose(<CloseLogic>)\t"@ + tag@ + "\t\t\t"@
            + total_amount@,
{
    let mut out = String::new();
    out.append(":\t\t");
    out.append(closing_date);
    out.append("\tClose(<CloseLogic>)\t");
    out.append(tag);
    out.append("\t\t\t");
    out.append(total_amount);
    out
}

/// How a close entry is shown to the user: its year, closing date and
/// total amount, its tag, and how to enter it in the transactions sheet.
pub open spec fn close_entry_display(year: i32, closing_date: Seq<char>, total_amount: Seq<char>, tag: Seq<char>) -> Seq<char> {
    "\x1b[1mYear:\x1b[0m "@ + signed_decimal(year as int) + "\n\x1b[1mClosing Date:\x1b[0m "@ + closing_date
        + "\n\x1b[1mTotal Amount:\x1b[0m "@ + total_amount + "\n\n\x1b[1mTag:\x1b[0m "@ + tag
        + close_entry_instructions()
}

pub open spec fn close_entry_instructions() -> Seq<char> {
    "\n\n\x1b[1mInstructions:\x1b[0m In the transactions CSV, create a 'Close(<CLOSE_LOGIC>)' entry by setting the first column to ':' (to indicate a command), the `Accounting Logic` column to the desired close logic (for example 'Close(Retain)'), the `Decorators` column to the `Tag` value, and the `Amount` column to the `Total Amount` value."@
}

/// The text of a close entry, with its total amount as written.
pub fn close_entry_text(year: i32, closing_date: &str, total_amount: &str, tag: &str) -> (r: String)
    ensures
        r@ == close_entry_display(year, closing_date@, total_amount@, tag@),
{
    let mut out = String::new();
    out.append("\x1b[1mYear:\x1b[0m ");
    let y = chars_to_string(&signed_decimal_chars(year as i64));
    out.append(y.as_str());
    out.append("\n\x1b[1mClosing Date:\x1b[0m ");
    out.append(closing_date);
    out.append("\n\x1b[1mTotal Amount:\x1b[0m ");
    out.append(total_amount);
    out.append("\n\n\x1b[1mTag:\x1b[0m ");
    out.append(tag);
    out.append("\n\n\x1b[1mInstructions:\x1b[0m In the transactions CSV, create a 'Close(<CLOSE_LOGIC>)' entry by setting the first column to ':' (to indicate a command), the `Accounting Logic` column to the desired close logic (for example 'Close(Retain)'), the `Decorators` column to the `Tag` value, and the `Amount` column to the `Total Amount` value.");
    out
}

/// The line context given when a line of `hledger close` output is not
/// understood.
pub fn output_context(line: &str) -> (r: String)
    ensures
        r@ == output_context_text(line@),
{
    quoted_message("invalid close output line: '", &to_chars(line))
}

/// December 31st of `year`, written `YYYY-12-31`.
pub fn closing_date(year: i32) -> (r: String)
    ensures
        r@ == signed_decimal(year as int) + "-12-31"@,
{
    let mut v = signed_decimal_chars(year as i64);
    push_all(&mut v, &to_chars("-12-31"));
    chars_to_string(&v)
}

/// Generates the closing entry of a year from `hledger close`.
#[derive(Debug, Clone, PartialEq, Eq)]
pub struct CloseEntryGenerator {
    pub ledger_path: String,
    pub year: i32,
}

/// The arguments of the `hledger close` run for the closing entry.
pub open spec fn entry_close_args(ledger_path: Seq<char>, year: i32) -> Seq<Seq<char>> {
    seq![
        "--strict"@,
        "-f"@,
        ledger_path,
        "-p"@,
        signed_decimal(year as int),
        "close"@,
        "--retain"@,
        "--close-desc=Auto-Generated: Temporary Close Entry"@,
        "--close-acct=VoidOut"@
    ]
}

impl CloseEntryGenerator {
    /// A generator for `year` over the ledger at `ledger_path`, which the
    /// caller has resolved to a canonical path.
    pub fn new(ledger_path: String, year: i32) -> (r: Self)
        ensures
            r.ledger_path == ledger_path,
            r.year == year,
    {
        CloseEntryGenerator { ledger_path, year }
    }

    /// The arguments with which `hledger` is run to close the year.
    pub fn close_args(&self) -> (r: Vec<String>)
        ensures
            strings_view(r@) == entry_close_args(self.ledger_path@, self.year),
    {
        let mut v: Vec<String> = Vec::new();
        v.push("--strict".to_owned());
        v.push("-f".to_owned());
        v.push(self.ledger_path.clone());
        v.push("-p".to_owned());
        v.push(chars_to_string(&signed_decimal_chars(self.year as i64)));
        v.push("close".to_owned());
        v.push("--retain".to_owned());
        v.push("--close-desc=Auto-Generated: Temporary Close Entry".to_owned());
        v.push("--close-acct=VoidOut".to_owned());
        assert(strings_view(v@) =~= entry_close_args(self.ledger_path@, self.year));
        v
    }

    /// The postings to close, read from the output of `hledger close`; an
    /// error when the output has an unreadable line or nothing to close.
    pub fn postings_from_output(&self, output: &str) -> (r: Result<Vec<(String, String)>, Error>)
        ensures
            match collect_lines(lines(output@), |l: Seq<char>| close_posting(l)) {
                Ok(ps) => if ps.len() == 0 {
                    r == Err::<Vec<(String, String)>, Error>(
                        Error::NoAccountsToClose { year: self.year },
                    )
                } else {
                    postings_result_matches(r, Ok(ps))
                },
                Err(m) => postings_result_matches(r, Err(m)),
            },
    {
        let postings = parse_close_postings(output)?;
        if postings.len() == 0 {
            return Err(Error::NoAccountsToClose { year: self.year });
        }
        Ok(postings)
    }
}

/// Generates the closing record of a year from `hledger close`.
#[derive(Debug, Clone, PartialEq, Eq)]
pub struct CloseRecordGenerator {
    pub ledger_path: String,
    pub year: i32,
    pub logic: CloseLogic,
}

/// The arguments of the `hledger close` run for the closing record.
pub open spec fn record_close_args(ledger_path: Seq<char>, year: i32, logic: CloseLogic) -> Seq<
    Seq<char>,
> {
    let logic_arg = match logic {
        CloseLogic::Retain => "--retain"@,
    };
    seq![
        "--strict"@,
        "-f"@,
        ledger_path,
        "-p"@,
        signed_decimal(year as int),
        "close"@,
        logic_arg,
        "--close-desc=Auto-Generated: Temporary Close Record"@,
        "--close-acct=VoidOut"@,
        "not:tag:close"@
    ]
}

impl CloseRecordGenerator {
    /// A generator for `year` over the ledger at `ledger_path`, which the
    /// caller has resolved to a canonical path.
    pub fn new(ledger_path: String, year: i32, logic: CloseLogic) -> (r: Self)
        ensures
            r.ledger_path == ledger_path,
            r.year == year,
            r.logic == logic,
    {
        CloseRecordGenerator { ledger_path, year, logic }
    }

    /// The arguments with which `hledger` is run to close the year.
    pub fn close_args(&self) -> (r: Vec<String>)
        ensures
            strings_view(r@) == record_close_args(self.ledger_path@, self.year, self.logic),
    {
        let mut v: Vec<String> = Vec::new();
        v.push("--strict".to_owned());
        v.push("-f".to_owned());
        v.push(self.ledger_path.clone());
        v.push("-p".to_owned());
        v.push(chars_to_string(&signed_decimal_chars(self.year as i64)));
        v.push("close".to_owned());
        match self.logic {
            CloseLogic::Retain => v.push("--retain".to_owned()),
        }
        v.push("--close-desc=Auto-Generated: Temporary Close Record".to_owned());
        v.push("--close-acct=VoidOut".to_owned());
        v.push("not:tag:close".to_owned());
        assert(strings_view(v@) =~= record_close_args(self.ledger_path@, self.year, self.logic));
        v
    }

    /// The entries to close, read from the output of `hledger close`; an
    /// error when the output has an unreadable line or nothing to close.
    pub fn entries_from_output(&self, output: &str) -> (r: Result<Vec<(String, String)>, Error>)
        ensures
            match collect_lines(lines(output@), |l: Seq<char>| close_entry(l)) {
                Ok(ps) => if ps.len() == 0 {
                    r == Err::<Vec<(String, String)>, Error>(
                        Error::NoAccountsToClose { year: self.year },
                    )
                } else {
                    postings_result_matches(r, Ok(ps))
                },
                Err(m) => postings_result_matches(r, Err(m)),
            },
    {
        let entries = parse_close_entries(output)?;
        if entries.len() == 0 {
            return Err(Error::NoAccountsToClose { year: self.year });
        }
        Ok(entries)
    }
}

} // verus!
