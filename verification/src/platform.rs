//! Reading what the platform's own client hands back.

use vstd::prelude::*;
use vstd::string::StringExecFns;
use vstd::utf8::{decode_utf8, valid_utf8};

verus! {

/// std's report of bytes that are not UTF-8: carried, never inspected.
#[verifier::external_type_specification]
#[verifier::external_body]
pub struct ExFromUtf8Error(std::string::FromUtf8Error);

/// The text that `String::from_utf8_lossy` reads from `bytes`: the text they
/// encode, with a replacement character for each part that is not UTF-8.
pub uninterp spec fn lossy_text(bytes: Seq<u8>) -> Seq<char>;

/// `text` as `str::trim` leaves it: without the white space at its start and
/// at its end.
pub uninterp spec fn trimmed(text: Seq<char>) -> Seq<char>;

/// Reads `bytes` with `String::from_utf8_lossy`. The contract gives the text
/// the name `lossy_text`, and with it claims that the text depends on the
/// bytes alone; it is not proved.
#[verifier::external_body]
fn read_lossy(bytes: &[u8]) -> (r: String)
    ensures
        r@ == lossy_text(bytes@),
{
    String::from_utf8_lossy(bytes).into_owned()
}

/// Reads `bytes` with `String::from_utf8`. The contract claims that the
/// call succeeds exactly on valid UTF-8 and then gives the text that the
/// bytes encode; it is not proved.
#[verifier::external_body]
fn read_utf8(bytes: Vec<u8>) -> (r: Result<String, std::string::FromUtf8Error>)
    ensures
        r is Ok <==> valid_utf8(bytes@),
        r is Ok ==> r->Ok_0@ == decode_utf8(bytes@),
{
    String::from_utf8(bytes)
}

/// The description of bytes that are not UTF-8, as `FromUtf8Error` displays
/// it. Nothing is claimed of the text.
#[verifier::external_body]
fn utf8_error_text(e: &std::string::FromUtf8Error) -> (r: String) {
    e.to_string()
}

/// Trims `text` with `str::trim`. The contract gives the result the name
/// `trimmed`; it is not proved.
#[verifier::external_body]
fn trim_text<'a>(text: &'a str) -> (r: &'a str)
    ensures
        r@ == trimmed(text@),
{
    text.trim()
}

/// Start of the failure text of a request that the client could not make.
pub const REQUEST_FAILED: &'static str = "PowerShell request failed: ";

/// Turns what the platform's client left behind into the body of the
/// answer. A client that did not succeed is a failure that quotes its error
/// output; one that succeeded gives its output as text, without the white
/// space around it, and fails where the output is not UTF-8.
pub fn web_request_result(succeeded: bool, stdout: Vec<u8>, stderr: Vec<u8>) -> (r: Result<
    String,
    String,
>)
    ensures
        !succeeded ==> r is Err && r->Err_0@ == REQUEST_FAILED@ + lossy_text(stderr@),
        succeeded && valid_utf8(stdout@) ==> r is Ok && r->Ok_0@ == trimmed(decode_utf8(stdout@)),
        succeeded && !valid_utf8(stdout@) ==> r is Err,
{
    if !succeeded {
        let detail = read_lossy(stderr.as_slice());
        return Err(String::from_str(REQUEST_FAILED).concat(detail.as_str()));
    }
    match read_utf8(stdout) {
        Ok(text) => Ok(String::from_str(trim_text(text.as_str()))),
        Err(e) => Err(utf8_error_text(&e)),
    }
}

} // verus!
