//! Randomness captured at decision time. A `Random` draw is bound when the
//! value is constructed and persisted inside event payloads, so replaying the
//! log never re-rolls: the recorded outcome is deterministic on replay.
use vstd::prelude::*;

verus! {

/// Relies on `rand::random::<u32>()`: a fresh pseudo-random draw. Nothing can
/// be promised of the value, so callers must hold for every outcome.
#[verifier::external_body]
fn random_u32() -> u32 {
    rand::random::<u32>()
}

/// A pseudo-random draw in `0..=u32::MAX`, fixed at construction time.
#[derive(Clone, Copy, PartialEq, Eq, Structural, Debug)]
pub struct Random(pub u32);

impl Random {
    /// Draws a fresh random value and freezes it.
    pub fn new() -> Self {
        Self(random_u32())
    }

    /// The frozen raw draw.
    pub fn value(&self) -> (r: u32)
        ensures
            r == self.0,
    {
        self.0
    }
}

/// A persisted coin draw: the raw randomness is part of the event payload, and
/// evaluating the same `Chance` twice gives the same answer.
#[derive(Clone, Copy, PartialEq, Eq, Structural, Debug)]
pub struct Chance(pub Random);

/// The largest raw draw that counts as a success: the recorded draw is
/// compared against half of the signed 32-bit maximum, so successes occupy
/// the lowest quarter of the raw `u32` range.
pub const COIN_SUCCESS_THRESHOLD: u32 = 0x3FFF_FFFF;

impl Chance {
    /// Draws fresh randomness and binds it.
    pub fn new() -> Self {
        Self(Random::new())
    }

    /// Builds a chance from an already-drawn raw value (used when replaying
    /// recorded events, and by tests).
    pub fn from_raw(raw: u32) -> (r: Self)
        ensures
            r.0.0 == raw,
    {
        Self(Random(raw))
    }

    pub open spec fn spec_succeeds(&self) -> bool {
        self.0.0 <= COIN_SUCCESS_THRESHOLD
    }

    /// Evaluates the recorded draw: success exactly when the raw value is at
    /// most `COIN_SUCCESS_THRESHOLD`. Deterministic in the bound draw.
    pub fn succeeds(&self) -> (r: bool)
        ensures
            r == self.spec_succeeds(),
    {
        self.0.0 <= COIN_SUCCESS_THRESHOLD
    }
}

} // verus!
