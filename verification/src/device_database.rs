//! The user-maintained "known USB devices" lookup that the setup wizard
//! uses for friendly device names. This module never interprets the
//! lookup's keys or values; it only guarantees that what reaches the user
//! interface is valid JSON.
use vstd::prelude::*;

verus! {

/// Content written on first run: the vendors and products known to this
/// project.
pub const SEED_DEVICE_DATABASE: &'static str = "{\n  \"046d:c52b\": \"Logitech MX Keys / Unifying Receiver\",\n  \"046d\": \"Logitech\",\n  \"17e9:6000\": \"DisplayLink Dock/Switch\",\n  \"17e9\": \"DisplayLink\"\n}\n";

/// Whether `serde_json` reads a text as a JSON value.
pub uninterp spec fn is_json(text: Seq<char>) -> bool;

/// Calls `serde_json::from_str::<serde_json::Value>` and tells whether it
/// succeeded; the JSON grammar is named [`is_json`], not stated.
#[verifier::external_body]
fn parses_as_json(content: &str) -> (r: bool)
    ensures
        r == is_json(content@),
{
    serde_json::from_str::<serde_json::Value>(content).is_ok()
}

/// The database to hand out: `content` when it is valid JSON, the seed otherwise.
pub open spec fn chosen_database(content: Seq<char>, valid: bool) -> Seq<char> {
    if valid {
        content
    } else {
        SEED_DEVICE_DATABASE@
    }
}

/// Picks `content` when it was found valid, the seed otherwise.
pub fn choose_database(content: &str, valid: bool) -> (r: String)
    ensures
        r@ == chosen_database(content@, valid),
{
    if valid {
        content.to_string()
    } else {
        SEED_DEVICE_DATABASE.to_string()
    }
}

/// Returns `content` unchanged if it parses as JSON, otherwise the seed
/// content: unparseable JSON never reaches the user interface.
pub fn validate_or_fallback(content: &str) -> (r: String)
    ensures
        r@ == chosen_database(content@, is_json(content@)),
{
    let valid = parses_as_json(content);
    choose_database(content, valid)
}

} // verus!
