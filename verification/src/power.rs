//! Blanking and waking the displays, the fallback when a switch fails.
use vstd::prelude::*;

verus! {

/// Turns the displays off and on again.
pub trait PowerFallback {
    fn blank_and_restore(&self) -> Result<(), anyhow::Error>;
}

} // verus!
