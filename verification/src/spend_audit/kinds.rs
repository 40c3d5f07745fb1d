//! The kinds of automated spend this node makes.
use vstd::prelude::*;

verus! {

/// A spend that creates or reclaims a mirror coin.
pub const MIRROR_COIN: &'static str = "mirror-coin";

/// A spend made to diagnose the spending path itself.
pub const DIAGNOSTIC: &'static str = "diagnostic";

} // verus!
