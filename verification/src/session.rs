use vstd::prelude::*;

verus! {

/// Identifier of one logical session: the registry's key.
///
/// A subscriber either supplies the identifier of the session it reattaches
/// to, or leaves it out and has a fresh one generated from the system clock.
#[derive(Clone, Copy, PartialEq, Eq, Hash, Structural, Debug)]
pub struct SessionId {
    value: u128,
}

impl View for SessionId {
    type V = u128;

    closed spec fn view(&self) -> u128 {
        self.value
    }
}

impl SessionId {
    /// Wraps a caller-chosen number as a session identifier.
    pub fn from_number(value: u128) -> (r: SessionId)
        ensures
            r@ == value,
    {
        SessionId { value }
    }

    /// The wrapped number.
    pub fn number(&self) -> (r: u128)
        ensures
            r == self@,
    {
        self.value
    }

    /// A fresh identifier for a subscriber that supplied none; nothing is
    /// promised of its value.
    pub fn new() -> SessionId {
        SessionId { value: clock_nanos() }
    }
}

/// Relies on std::time::SystemTime::now, which vstd gives no specification:
/// the current time, converted to whole nanoseconds since the epoch. The value
/// depends on the clock, so nothing is promised of the result.
#[verifier::external_body]
fn clock_nanos() -> u128 {
    match std::time::SystemTime::now().duration_since(std::time::UNIX_EPOCH) {
        Ok(elapsed) => elapsed.as_nanos(),
        Err(_) => 0,
    }
}

} // verus!
