//! A value paired with the absolute instant at which it stops being fresh.
//!
//! Instants are plain numbers: nanoseconds since the Unix epoch. The system
//! clock is read in one place, `clock_now`; every decision that depends on
//! the time has a variant that takes the instant as an argument.
use vstd::prelude::*;

verus! {

/// The instant `duration` nanoseconds after `now`, held at the largest
/// representable instant when the sum does not fit.
pub open spec fn deadline(now: int, duration: int) -> int {
    if now + duration <= u128::MAX {
        now + duration
    } else {
        u128::MAX as int
    }
}

/// Relies on std::time::SystemTime::now, read as nanoseconds since the Unix
/// epoch (an instant before the epoch reads as 0). Nothing is promised of the
/// value: the system clock may be set back at any time.
#[verifier::external_body]
pub(crate) fn clock_now() -> (r: u128) {
    match std::time::SystemTime::now().duration_since(std::time::UNIX_EPOCH) {
        Ok(elapsed) => elapsed.as_nanos(),
        Err(_) => 0,
    }
}

/// A value with an expiration instant.
#[derive(Debug)]
pub struct Expiring<T> {
    /// Nanoseconds since the Unix epoch after which the value is stale.
    pub expires_at: u128,
    pub value: T,
}

impl<T> Expiring<T> {
    /// Stale at every instant strictly after `expires_at`, live up to and
    /// including it.
    pub open spec fn expired_at(&self, now: int) -> bool {
        now > self.expires_at
    }

    /// Creates a new expiring value.
    pub fn new(value: T, expires_at: u128) -> (r: Self)
        ensures
            r.value == value,
            r.expires_at == expires_at,
    {
        Expiring { expires_at, value }
    }

    /// Creates a value that expires `duration` nanoseconds after the instant
    /// `now`.
    pub fn with_duration_at(value: T, duration: u128, now: u128) -> (r: Self)
        ensures
            r.value == value,
            r.expires_at == deadline(now as int, duration as int),
    {
        Expiring::new(value, now.saturating_add(duration))
    }

    /// Creates a value that expires `duration` nanoseconds from now.
    pub fn with_duration(value: T, duration: u128) -> (r: Self)
        ensures
            r.value == value,
            exists|t: u128| r.expires_at == deadline(t as int, duration as int),
    {
        let t = clock_now();
        Expiring::with_duration_at(value, duration, t)
    }

    /// Whether the value is stale at the instant `now`.
    pub fn is_expired_at(&self, now: u128) -> (r: bool)
        ensures
            r == self.expired_at(now as int),
    {
        now > self.expires_at
    }

    /// Whether the value is stale now.
    pub fn is_expired(&self) -> (r: bool)
        ensures
            exists|t: u128| r == self.expired_at(t as int),
            self.expires_at == u128::MAX ==> !r,
    {
        let t = clock_now();
        self.is_expired_at(t)
    }
}

impl<T: Clone> Clone for Expiring<T> {
    /// Keeps the expiration instant and clones the value.
    fn clone(&self) -> (r: Self)
        ensures
            r.expires_at == self.expires_at,
            cloned(self.value, r.value),
    {
        Expiring { expires_at: self.expires_at, value: self.value.clone() }
    }
}

} // verus!
