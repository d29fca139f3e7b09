//! How a request that is not granted is answered.
use vstd::prelude::*;

verus! {

/// The answer to a request that is not granted.
#[derive(Debug, PartialEq, Eq)]
pub enum BridgeError {
    /// Something went wrong.
    Failed(String),
    /// Policy says no.
    AccessDenied(String),
}

/// The same, as plain text.
pub ghost enum Refusal {
    Failed(Seq<char>),
    AccessDenied(Seq<char>),
}

impl View for BridgeError {
    type V = Refusal;

    open spec fn view(&self) -> Refusal {
        match self {
            BridgeError::Failed(reason) => Refusal::Failed(reason@),
            BridgeError::AccessDenied(reason) => Refusal::AccessDenied(reason@),
        }
    }
}

/// An answer that carries nothing, as plain text.
pub open spec fn answer(result: Result<(), BridgeError>) -> Result<(), Refusal> {
    match result {
        Ok(()) => Ok(()),
        Err(e) => Err(e@),
    }
}

/// An answer that carries a text, as plain text.
pub open spec fn text_answer(result: Result<String, String>) -> Result<Seq<char>, Seq<char>> {
    match result {
        Ok(text) => Ok(text@),
        Err(reason) => Err(reason@),
    }
}

} // verus!
