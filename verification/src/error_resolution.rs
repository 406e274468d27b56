//! Turning an error into a response: a `500` resolution whose body carries
//! the error's message, as plain text, as a small JSON document, or as a
//! caller-formatted string.

use vstd::prelude::*;

use crate::resolution::{get_status_header, http11_name, spec_status_text, Header, Resolution};

verus! {

/// How an error resolution formats its body.
pub enum Configured {
    /// The error message verbatim.
    PlainText,
    /// A JSON document with the code and the message.
    Json,
    /// A string the caller already formatted from the error.
    Custom(String),
}

/// An error message made thread-safe by owning its text: the original error
/// value stays with the caller, only what it displays travels.
pub struct InnerError {
    pub message: String,
}

impl InnerError {
    /// Wraps an error's displayed message.
    pub fn new_box(message: String) -> (r: InnerError)
        ensures
            r.message@ == message@,
    {
        InnerError { message }
    }
}

/// The JSON string literal for `s`: quotes and escapes included, exactly as
/// `serde_json` writes a string value. It depends on the characters alone.
pub uninterp spec fn json_escaped(s: Seq<char>) -> Seq<u8>;

/// Relies on `serde_json::Value::to_string` on a `Value::String`: the JSON
/// string literal for the text, quotes and escapes included; the result
/// depends on the characters alone.
#[verifier::external_body]
fn json_string_literal(s: &String) -> (r: Vec<u8>)
    ensures
        r@ == json_escaped(s@),
{
    serde_json::Value::String(s.clone()).to_string().into_bytes()
}

/// The opening of the JSON error body, up to the message value.
pub open spec fn json_error_prefix() -> Seq<u8> {
    seq![123u8, 34u8, 99u8, 111u8, 100u8, 101u8, 34u8, 58u8, 53u8, 48u8, 48u8, 44u8, 34u8, 109u8, 101u8, 115u8, 115u8, 97u8, 103u8, 101u8, 34u8, 58u8]
}

/// The JSON error body for a message: code `500` and the escaped message.
pub open spec fn spec_json_error_body(message: Seq<char>) -> Seq<u8> {
    json_error_prefix() + json_escaped(message) + seq![125u8]
}

/// A `500` response built from an error, formatted per its configuration.
pub struct ErrorResolution {
    pub error: InnerError,
    pub config: Configured,
}

impl ErrorResolution {
    /// Wraps an error message with a chosen output format.
    pub fn from_error_with_config(error: String, config: Configured) -> (r: Self)
        ensures
            r.error.message@ == error@,
            r.config == config,
    {
        let error = InnerError::new_box(error);
        ErrorResolution { error, config }
    }

    /// Wraps an error message, formatted as plain text.
    pub fn from_error(error: String) -> (r: Self)
        ensures
            r.error.message@ == error@,
            r.config matches Configured::PlainText,
    {
        Self::from_error_with_config(error, Configured::PlainText)
    }

    /// Wraps a message taken from an already boxed error, formatted as
    /// plain text.
    pub fn from_boxed_error(error: String) -> (r: Self)
        ensures
            r.error.message@ == error@,
            r.config matches Configured::PlainText,
    {
        Self::from_boxed_error_with_config(error, Configured::PlainText)
    }

    /// Wraps a message taken from an already boxed error, with a chosen
    /// output format.
    pub fn from_boxed_error_with_config(error: String, config: Configured) -> (r: Self)
        ensures
            r.error.message@ == error@,
            r.config == config,
    {
        let error = InnerError::new_box(error);
        ErrorResolution { error, config }
    }
}

impl Resolution for ErrorResolution {
    /// Only the reserved status header, with code `500`.
    fn get_headers(&self) -> (r: Vec<Header>)
        ensures
            r@.len() == 1,
            r@[0].0@ == http11_name(),
            (r@[0].1 matches Some(v) && v@ == spec_status_text(500)),
    {
        let mut r: Vec<Header> = Vec::new();
        r.push(get_status_header(500));
        r
    }

    /// One chunk: the message as configured, verbatim for `PlainText`, the
    /// caller's string for `Custom`, or the JSON error body.
    fn get_content(&self) -> (r: Vec<Vec<u8>>)
        ensures
            r@.len() == 1,
            r@[0]@ == (match self.config {
                Configured::PlainText => vstd::utf8::encode_utf8(self.error.message@),
                Configured::Json => spec_json_error_body(self.error.message@),
                Configured::Custom(s) => vstd::utf8::encode_utf8(s@),
            }),
    {
        let body: Vec<u8> = match &self.config {
            Configured::PlainText => vstd::slice::slice_to_vec(
                self.error.message.as_str().as_bytes(),
            ),
            Configured::Json => {
                let mut body: Vec<u8> = vec![123u8, 34u8, 99u8, 111u8, 100u8, 101u8, 34u8, 58u8, 53u8, 48u8, 48u8, 44u8, 34u8, 109u8, 101u8, 115u8, 115u8, 97u8, 103u8, 101u8, 34u8, 58u8];
                proof {
                    assert(body@ =~= json_error_prefix());
                }
                let mut escaped = json_string_literal(&self.error.message);
                body.append(&mut escaped);
                body.push(125u8);
                proof {
                    assert(body@ =~= spec_json_error_body(self.error.message@));
                }
                body
            },
            Configured::Custom(s) => vstd::slice::slice_to_vec(s.as_str().as_bytes()),
        };
        let mut r: Vec<Vec<u8>> = Vec::new();
        r.push(body);
        r
    }
}

} // verus!
