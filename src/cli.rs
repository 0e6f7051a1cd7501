use vstd::prelude::*;
use crate::lookup::{token_of, Outcome};

verus! {

/// The program that is asked for a token.
pub const GH_PROGRAM: &'static str = "gh";

/// Its arguments: `gh auth token` prints the token of the logged-in user.
pub const GH_ARGS: [&'static str; 2] = ["auth", "token"];

/// The text that `String::from_utf8_lossy` makes of some bytes.
pub uninterp spec fn utf8_lossy(bytes: Seq<u8>) -> Seq<char>;

/// The text that `str::trim` leaves of some text.
pub uninterp spec fn trimmed(text: Seq<char>) -> Seq<char>;

/// Relies on `String::from_utf8_lossy`: the text depends on the bytes alone,
/// and no bytes give no text.
#[verifier::external_body]
fn text_of_bytes(bytes: &[u8]) -> (r: String)
    ensures
        r@ == utf8_lossy(bytes@),
        bytes@.len() == 0 ==> r@.len() == 0,
{
    String::from_utf8_lossy(bytes).into_owned()
}

/// Relies on `str::trim`: leading and trailing whitespace is removed, and
/// the result depends on the text alone.
#[verifier::external_body]
fn trim_text(text: &str) -> (r: String)
    ensures
        r@ == trimmed(text@),
        text@.len() == 0 ==> r@.len() == 0,
{
    text.trim().to_string()
}

/// The answer of the CLI given whether it exited with success and its
/// output with surrounding whitespace already removed: a token only after
/// success and when that text is not empty.
pub fn cli_trimmed_outcome(success: bool, text: String) -> (o: Outcome)
    ensures
        token_of(o) == (if success && text@.len() > 0 {
            Some(text@)
        } else {
            None
        }),
        o matches Outcome::Found(_) <==> success && text@.len() > 0,
{
    if success && !text.as_str().is_empty() {
        Outcome::Found(text)
    } else {
        Outcome::NotFound
    }
}

/// The answer of the CLI given whether it exited with success and the bytes
/// it wrote to standard output: the output, decoded and trimmed, is the
/// token when the run succeeded and it is not empty.
pub fn cli_outcome(success: bool, stdout: &Vec<u8>) -> (o: Outcome)
    ensures
        token_of(o) == (if success && trimmed(utf8_lossy(stdout@)).len() > 0 {
            Some(trimmed(utf8_lossy(stdout@)))
        } else {
            None
        }),
        o matches Outcome::Found(_) <==> success && trimmed(utf8_lossy(stdout@)).len() > 0,
{
    if !success {
        return Outcome::NotFound;
    }
    let text = text_of_bytes(stdout.as_slice());
    let token = trim_text(text.as_str());
    cli_trimmed_outcome(success, token)
}

} // verus!
