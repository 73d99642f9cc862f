//! Amounts as the sheet writes them: digits with thousands separators, and
//! negative amounts in parentheses.
use vstd::prelude::*;

use crate::close_output::{is_float_text, is_float_text_chars, without_commas, without_commas_chars};
use crate::errors::Error;
use crate::text::{chars_to_string, slice_chars, to_chars, trim, trim_chars};

verus! {

pub open spec fn is_paren(c: char) -> bool {
    c == '(' || c == ')'
}

/// `s` without the parentheses at either end.
pub open spec fn trim_parens(s: Seq<char>) -> Seq<char>
    decreases s.len(),
{
    if s.len() > 0 && is_paren(s[0]) {
        trim_parens(s.drop_first())
    } else if s.len() > 0 && is_paren(s.last()) {
        trim_parens(s.drop_last())
    } else {
        s
    }
}

/// An amount of the sheet: whether it is negative (written in parentheses)
/// and the number it is written with, which std's `f64::from_str` reads;
/// else the text that is not a number.
pub open spec fn accounting_amount(s: Seq<char>) -> Result<(bool, Seq<char>), Seq<char>> {
    let raw = without_commas(s);
    let t = trim(raw);
    let negative = t.len() > 0 && t[0] == '(' && t.last() == ')';
    let numeric = trim_parens(raw);
    if is_float_text(numeric) {
        Ok((negative, numeric))
    } else {
        Err(numeric)
    }
}

fn trim_parens_chars(v: &[char]) -> (r: Vec<char>)
    ensures
        r@ == trim_parens(v@),
{
    let mut a: usize = 0;
    let mut b: usize = v.len();
    assert(v@.subrange(0, v@.len() as int) == v@);
    while a < b && (v[a] == '(' || v[a] == ')')
        invariant
            a <= b <= v@.len(),
            b == v@.len(),
            trim_parens(v@) == trim_parens(v@.subrange(a as int, b as int)),
        decreases b - a,
    {
        assert(v@.subrange(a as int, b as int).drop_first() == v@.subrange(a + 1, b as int));
        a = a + 1;
    }
    while a < b && (v[b - 1] == '(' || v[b - 1] == ')')
        invariant
            a <= b <= v@.len(),
            a < b ==> !is_paren(v@[a as int]),
            trim_parens(v@) == trim_parens(v@.subrange(a as int, b as int)),
        decreases b - a,
    {
        assert(v@.subrange(a as int, b as int).drop_last() == v@.subrange(a as int, b - 1));
        assert(v@.subrange(a as int, b as int)[0] == v@[a as int]);
        b = b - 1;
    }
    if a < b {
        assert(v@.subrange(a as int, b as int)[0] == v@[a as int]);
    }
    slice_chars(v, a, b)
}

/// Reads an amount of the sheet, such as `1,200.50` or `(300)`: whether it
/// is negative and the plain number, which std's `f64::from_str` reads.
pub fn parse_accounting_amount(s: &str) -> (r: Result<(bool, String), Error>)
    ensures
        match accounting_amount(s@) {
            Ok((negative, numeric)) => r matches Ok((n, text)) && n == negative && text@ == numeric,
            Err(numeric) => r matches Err(Error::InvalidAccountingAmount { value }) && value@ == numeric,
        },
{
    let raw = without_commas_chars(&to_chars(s));
    let t = trim_chars(&raw);
    let negative = t.len() > 0 && t[0] == '(' && t[t.len() - 1] == ')';
    let numeric = trim_parens_chars(&raw);
    if is_float_text_chars(&numeric) {
        Ok((negative, chars_to_string(&numeric)))
    } else {
        Err(Error::InvalidAccountingAmount { value: chars_to_string(&numeric) })
    }
}

} // verus!
