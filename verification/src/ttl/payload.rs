//! What a closure under test reports when it panicked.

use vstd::prelude::*;

verus! {

/// The payload of a panic, as far as a message can be had from it.
#[derive(Debug)]
pub enum PanicPayload {
    /// The payload is a string literal.
    Literal(&'static str),
    /// The payload is an owned string.
    Owned(String),
    /// The payload is anything else.
    Opaque,
}

impl PanicPayload {
    /// The message of the panic.
    pub open spec fn text(self) -> Seq<char> {
        match self {
            PanicPayload::Literal(text) => text@,
            PanicPayload::Owned(text) => text@,
            PanicPayload::Opaque => "<non-string panic payload>"@,
        }
    }
}

/// The message of a panic: the payload where it is a string, and a fixed text
/// where it is not.
pub fn panic_message(payload: &PanicPayload) -> (message: String)
    ensures
        message@ == payload.text(),
{
    match payload {
        PanicPayload::Literal(text) => (*text).to_owned(),
        PanicPayload::Owned(text) => text.clone(),
        PanicPayload::Opaque => "<non-string panic payload>".to_owned(),
    }
}

} // verus!
