use vstd::prelude::*;
use vstd::utf8::encode_utf8;
use crate::bridge::{bridge_message, bridged};
use crate::error::{message_of, Error};

verus! {

/// What a render hands back across the boundary: the output length, or -1
/// together with one diagnostic for the error channel.
pub struct Report {
    pub code: i32,
    pub diagnostic: Option<String>,
}

/// The code returned for an outcome.
pub open spec fn exit_code(outcome: Result<i32, Error>) -> i32 {
    match outcome {
        Ok(length) => length,
        Err(_) => -1i32,
    }
}

/// The diagnostic sent for an outcome: the error's text, passed through the
/// error bridge.
pub open spec fn diagnostic_of(outcome: Result<i32, Error>) -> Option<Seq<char>> {
    match outcome {
        Ok(_) => None,
        Err(e) => Some(bridged(encode_utf8(message_of(e)))),
    }
}

/// The diagnostic for an error, as the error bridge would carry it.
pub fn error_diagnostic(e: &Error) -> (r: String)
    ensures
        r@ == bridged(encode_utf8(message_of(*e))),
{
    let text = e.message();
    bridge_message(text.as_str().as_bytes())
}

/// Turns the outcome of a render into what the boundary returns.
pub fn report(outcome: &Result<i32, Error>) -> (r: Report)
    ensures
        r.code == exit_code(*outcome),
        r.diagnostic is Some == diagnostic_of(*outcome) is Some,
        r.diagnostic is Some ==> r.diagnostic.unwrap()@ == diagnostic_of(*outcome).unwrap(),
{
    match outcome {
        Ok(length) => Report { code: *length, diagnostic: None },
        Err(e) => Report { code: -1, diagnostic: Some(error_diagnostic(e)) },
    }
}

} // verus!
