//! The error type that backends report failures with.
use vstd::prelude::*;

verus! {

#[verifier::external_type_specification]
#[verifier::external_body]
pub struct ExAnyhowError(anyhow::Error);

/// Calls `anyhow::Error::msg`: an error whose message is `message`.
///
/// Nothing is stated of the error value: its contents are opaque here.
#[verifier::external_body]
pub fn error_with_message(message: &str) -> anyhow::Error {
    anyhow::Error::msg(message.to_string())
}

} // verus!
