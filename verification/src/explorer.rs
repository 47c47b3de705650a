//! What the explorer's responses mean.
//!
//! The transport lives with the caller; every decision about a response —
//! which statuses succeed, how a program body is decoded, how an edition
//! number is read — is made here. A program body may arrive as raw program
//! source or as a JSON string holding that source; a leading quote after
//! trimming tells the two apart, and that heuristic is part of the
//! contract.

use vstd::prelude::*;
use crate::text::chars_of;
use crate::text::dec_val;
use crate::text::is_dec_string;
use crate::text::parse_u16_digits;
use crate::text::push_all;
use crate::text::string_of;
use crate::text::trim_chars;
use crate::text::trimmed;
use crate::text::u64_to_string;

verus! {

/// What `serde_json::from_str::<String>` makes of a text: the decoded
/// contents when the text is exactly one JSON string literal, else nothing.
pub uninterp spec fn json_decoded_text(s: Seq<char>) -> Option<Seq<char>>;

/// Relies on `serde_json::from_str::<String>`: succeeds exactly when the
/// text holds one JSON string literal (surrounding whitespace aside), and
/// gives its decoded contents.
#[verifier::external_body]
fn decode_json_text(s: &str) -> (r: Option<String>)
    ensures
        (r is Some) == (json_decoded_text(s@) is Some),
        r matches Some(t) ==> json_decoded_text(s@) == Some(t@),
{
    serde_json::from_str::<String>(s).ok()
}

/// Whether an HTTP status reports success.
pub fn is_success_status(status: u16) -> (r: bool)
    ensures
        r == (200 <= status < 300),
{
    200 <= status && status < 300
}

/// Whether a program body is JSON-encoded: it starts, after trimming, with
/// a quote.
pub open spec fn body_is_quoted(body: Seq<char>) -> bool {
    trimmed(body).len() > 0 && trimmed(body)[0] == '"'
}

/// The program source carried by a fetched body: a quoted body decodes as a
/// JSON string, any other body is the source itself, untrimmed.
pub fn extract_program_source(body: &str) -> (r: Result<String, String>)
    ensures
        match r {
            Ok(src) => if body_is_quoted(body@) {
                json_decoded_text(trimmed(body@)) == Some(src@)
            } else {
                src@ == body@
            },
            Err(e) => {
                &&& body_is_quoted(body@)
                &&& json_decoded_text(trimmed(body@)) is None
                &&& e@ == "Failed to decode program body"@
            },
        },
{
    let cs = chars_of(body);
    let t = trim_chars(&cs);
    if t.len() > 0 && t[0] == '"' {
        let t_str = string_of(&t);
        match decode_json_text(t_str.as_str()) {
            Some(source) => Ok(source),
            None => Err("Failed to decode program body".to_owned()),
        }
    } else {
        Ok(body.to_owned())
    }
}

/// The message when a program fetch comes back with a failing status.
pub open spec fn program_status_error_text(id: Seq<char>, status: u16) -> Seq<char> {
    "Program '"@ + id + "' request failed with status "@ + crate::text::dec_text(status as nat)
}

/// The message when a program body cannot be decoded.
pub open spec fn program_decode_error_text(id: Seq<char>) -> Seq<char> {
    "Failed to decode program '"@ + id + "'"@
}

/// What a program-fetch response means: a failing status is an error naming
/// the program and the status; a successful body carries the source, quoted
/// or raw.
pub fn interpret_program_response(program_id: &str, status: u16, body: &str) -> (r: Result<
    String,
    String,
>)
    ensures
        match r {
            Ok(src) => {
                &&& 200 <= status < 300
                &&& if body_is_quoted(body@) {
                    json_decoded_text(trimmed(body@)) == Some(src@)
                } else {
                    src@ == body@
                }
            },
            Err(e) => if !(200 <= status < 300) {
                e@ == program_status_error_text(program_id@, status)
            } else {
                &&& body_is_quoted(body@)
                &&& json_decoded_text(trimmed(body@)) is None
                &&& e@ == program_decode_error_text(program_id@)
            },
        },
{
    if !is_success_status(status) {
        let mut out = chars_of("Program '");
        let id = chars_of(program_id);
        push_all(&mut out, &id);
        let mid = chars_of("' request failed with status ");
        push_all(&mut out, &mid);
        let digits = chars_of(u64_to_string(status as u64).as_str());
        push_all(&mut out, &digits);
        return Err(string_of(&out));
    }
    match extract_program_source(body) {
        Ok(source) => Ok(source),
        Err(_) => {
            let mut out = chars_of("Failed to decode program '");
            let id = chars_of(program_id);
            push_all(&mut out, &id);
            out.push('\'');
            proof {
                reveal_strlit("'");
                assert(out@ =~= program_decode_error_text(program_id@));
            }
            Err(string_of(&out))
        },
    }
}

/// The message when an edition fetch comes back with a failing status.
pub open spec fn edition_status_error_text(id: Seq<char>, status: u16) -> Seq<char> {
    "Latest edition request for '"@ + id + "' failed with status "@ + crate::text::dec_text(
        status as nat,
    )
}

/// The message when an edition body is not a decimal number.
pub open spec fn edition_body_error_text(id: Seq<char>) -> Seq<char> {
    "Failed to parse latest edition of '"@ + id + "'"@
}

/// What a latest-edition response means: 404 says the program has no
/// edition yet; any other failing status is an error; a successful body is
/// the edition as a decimal number, surrounding whitespace ignored.
pub fn interpret_edition_response(program_id: &str, status: u16, body: &str) -> (r: Result<
    Option<u16>,
    String,
>)
    ensures
        match r {
            Ok(opt) => match opt {
                None => status == 404,
                Some(e) => {
                    &&& 200 <= status < 300
                    &&& is_dec_string(trimmed(body@))
                    &&& dec_val(trimmed(body@)) == e as nat
                },
            },
            Err(msg) => {
                &&& status != 404
                &&& if !(200 <= status < 300) {
                    msg@ == edition_status_error_text(program_id@, status)
                } else {
                    &&& !(is_dec_string(trimmed(body@)) && dec_val(trimmed(body@)) <= u16::MAX)
                    &&& msg@ == edition_body_error_text(program_id@)
                }
            },
        },
{
    if status == 404 {
        return Ok(None);
    }
    if !is_success_status(status) {
        let mut out = chars_of("Latest edition request for '");
        let id = chars_of(program_id);
        push_all(&mut out, &id);
        let mid = chars_of("' failed with status ");
        push_all(&mut out, &mid);
        let digits = chars_of(u64_to_string(status as u64).as_str());
        push_all(&mut out, &digits);
        return Err(string_of(&out));
    }
    let cs = chars_of(body);
    let t = trim_chars(&cs);
    let t_str = string_of(&t);
    match parse_u16_digits(t_str.as_str()) {
        Some(edition) => Ok(Some(edition)),
        None => {
            let mut out = chars_of("Failed to parse latest edition of '");
            let id = chars_of(program_id);
            push_all(&mut out, &id);
            out.push('\'');
            proof {
                reveal_strlit("'");
                assert(out@ =~= edition_body_error_text(program_id@));
            }
            Err(string_of(&out))
        },
    }
}

} // verus!
