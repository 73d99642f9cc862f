//! The closing tag of a year: the postings of the close, carried in base64
//! from the close entry generator to the `Close` command of the sheet.
use vstd::prelude::*;

use base64::Engine;

use crate::date::Date;
use crate::errors::Error;
use crate::numfmt::{decimal, signed_decimal, signed_decimal_chars, decimal_chars};
use crate::spec_types::CommandSpecId;
use crate::text::{chars_to_string, push_all, to_chars};
use vstd::utf8::encode_utf8;

verus! {

/// The text that base64 0.22 `general_purpose::STANDARD.encode` gives for
/// `bytes`.
pub uninterp spec fn base64_encoding(bytes: Seq<u8>) -> Seq<char>;

/// The bytes that base64 0.22 `general_purpose::STANDARD.decode` reads from
/// `text`, if it is valid padded base64.
pub uninterp spec fn base64_decoding(text: Seq<char>) -> Option<Seq<u8>>;

/// `STANDARD.encode` of the UTF-8 bytes of `text`; decoding what it gives
/// yields those bytes again. The length bound keeps the encoded length,
/// which `encode` computes and panics on overflowing, within `usize`.
#[verifier::external_body]
fn base64_encode(text: &str) -> (r: String)
    requires
        text@.len() < 0x2000_0000,
    ensures
        r@ == base64_encoding(encode_utf8(text@)),
        base64_decoding(r@) == Some(encode_utf8(text@)),
{
    base64::engine::general_purpose::STANDARD.encode(text)
}

/// `STANDARD.decode`: the bytes, or nothing when `text` is not valid base64.
#[verifier::external_body]
fn base64_decode(text: &str) -> (r: Option<Vec<u8>>)
    ensures
        match base64_decoding(text@) {
            Some(b) => r matches Some(v) && v@ == b,
            None => r is None,
        },
{
    base64::engine::general_purpose::STANDARD.decode(text).ok()
}

/// The closing tag for the postings of a close, written as JSON.
pub fn close_entry_tag(postings_json: &str) -> (r: String)
    requires
        postings_json@.len() < 0x2000_0000,
    ensures
        r@ == base64_encoding(encode_utf8(postings_json@)),
        base64_decoding(r@) == Some(encode_utf8(postings_json@)),
{
    base64_encode(postings_json)
}

/// `Close entry for <year> (id <id>) ` followed by `what`.
pub open spec fn close_message(id: CommandSpecId, date: Date, what: Seq<char>) -> Seq<char> {
    "Close entry for "@ + signed_decimal(date.year as int) + " (id "@ + decimal(id.0 as nat) + ") "@
        + what
}

/// Why a `Close` command is refused before its tag is read: it is not
/// dated December 31, or it has no argument. The argument, else.
pub open spec fn close_command_check(id: CommandSpecId, date: Date, arguments: Seq<Seq<char>>) -> Result<
    Seq<char>,
    Seq<char>,
> {
    if date.month != 12 || date.day != 31 {
        Err(close_message(id, date, "date must be December 31."@))
    } else if arguments.len() == 0 {
        Err(
            close_message(
                id,
                date,
                "must have argument field set to the closing tag, as output by the CloseRecordGenerator."@,
            ),
        )
    } else {
        Ok(arguments[0])
    }
}

/// What a `Close` command carries: the bytes of its tag, or why it is
/// refused (with the text of the error).
pub open spec fn close_payload(id: CommandSpecId, date: Date, arguments: Seq<Seq<char>>) -> Result<
    Seq<u8>,
    Seq<char>,
> {
    match close_command_check(id, date, arguments) {
        Err(m) => Err(m),
        Ok(tag) => match base64_decoding(tag) {
            Some(b) => Ok(b),
            None => Err(close_message(id, date, "argument is not valid base64."@)),
        },
    }
}

fn close_error(id: CommandSpecId, date: Date, what: &str) -> (r: Error)
    ensures
        r matches Error::InvalidCsvContent { line_id, details } && line_id == id.0 && details@
            == close_message(id, date, what@),
{
    let mut v = to_chars("Close entry for ");
    push_all(&mut v, &signed_decimal_chars(date.year as i64));
    push_all(&mut v, &to_chars(" (id "));
    push_all(&mut v, &decimal_chars(id.0));
    push_all(&mut v, &to_chars(") "));
    push_all(&mut v, &to_chars(what));
    Error::InvalidCsvContent { line_id: id.0, details: chars_to_string(&v) }
}

/// Checks a `Close` command of the sheet: dated December 31, with the
/// closing tag as its first argument. Gives that argument.
pub fn check_close_command(id: CommandSpecId, date: Date, arguments: &[String]) -> (r: Result<
    String,
    Error,
>)
    ensures
        match close_command_check(id, date, Seq::new(arguments@.len(), |k: int| arguments@[k]@)) {
            Ok(tag) => r matches Ok(s) && s@ == tag,
            Err(m) => r matches Err(Error::InvalidCsvContent { line_id, details }) && line_id == id.0
                && details@ == m,
        },
{
    if date.month != 12 || date.day != 31 {
        return Err(close_error(id, date, "date must be December 31."));
    }
    if arguments.len() == 0 {
        return Err(
            close_error(
                id,
                date,
                "must have argument field set to the closing tag, as output by the CloseRecordGenerator.",
            ),
        );
    }
    Ok(arguments[0].clone())
}

/// The bytes that a `Close` command's tag carries: the postings JSON that
/// the close entry generator encoded.
pub fn close_command_payload(id: CommandSpecId, date: Date, arguments: &[String]) -> (r: Result<
    Vec<u8>,
    Error,
>)
    ensures
        match close_payload(id, date, Seq::new(arguments@.len(), |k: int| arguments@[k]@)) {
            Ok(b) => r matches Ok(v) && v@ == b,
            Err(m) => r matches Err(Error::InvalidCsvContent { line_id, details }) && line_id == id.0
                && details@ == m,
        },
{
    let tag = check_close_command(id, date, arguments)?;
    match base64_decode(tag.as_str()) {
        Some(b) => Ok(b),
        None => Err(close_error(id, date, "argument is not valid base64.")),
    }
}

/// A `Close` command dated December 31 whose first argument is the tag of
/// a close carries exactly the postings JSON that the tag was made from.
pub proof fn lemma_close_tag_round_trip(
    id: CommandSpecId,
    date: Date,
    postings_json: Seq<char>,
    tag: Seq<char>,
    rest: Seq<Seq<char>>,
)
    requires
        date.month == 12,
        date.day == 31,
        base64_decoding(tag) == Some(encode_utf8(postings_json)),
    ensures
        close_payload(id, date, seq![tag] + rest) == Ok::<Seq<u8>, Seq<char>>(
            encode_utf8(postings_json),
        ),
{
    assert((seq![tag] + rest)[0] == tag);
}

} // verus!
