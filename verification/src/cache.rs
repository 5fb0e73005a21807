//! The cached value: a payload with the time at which it was obtained, and the
//! rule that says for how long it may be used. Reading and writing the file that
//! holds it, and the encoding of both, are the caller's.

use std::time::{Duration, SystemTime, UNIX_EPOCH};
use vstd::prelude::*;

verus! {

/// For how many seconds a cached value may be used. It follows the pace at which
/// the provider refreshes its data.
pub const LIFETIME: u64 = 3600;

/// Why the cache gave no value.
#[derive(Debug, Clone, Copy, PartialEq, Eq, Structural)]
pub enum CacheError {
    /// The file could not be read or written.
    Io,
    /// A value could not be encoded, or the text does not decode to what is expected.
    Serialization,
    /// The value is older than its lifetime.
    Expired,
}

/// What a cached value is: seconds since the Unix epoch, and the encoded data.
pub struct Snapshot {
    pub timestamp: nat,
    pub payload: Seq<char>,
}

/// A value obtained at `timestamp` is expired at `now` when more than `ttl` seconds
/// have passed since. A value from the future is not expired.
pub open spec fn expired(timestamp: nat, now: nat, ttl: nat) -> bool {
    now - timestamp > ttl
}

/// What unwrapping gives at `now`: the freshness is looked at first, and only then
/// whether the payload decoded.
pub open spec fn unwrapped<T>(timestamp: nat, now: nat, ttl: nat, decoded: Option<T>) -> Result<
    T,
    CacheError,
> {
    if expired(timestamp, now, ttl) {
        Err(CacheError::Expired)
    } else {
        match decoded {
            Some(value) => Ok(value),
            None => Err(CacheError::Serialization),
        }
    }
}

/// A value obtained `ttl + 1` seconds ago is expired; one obtained just now is not.
pub proof fn lemma_expiry_boundary(now: nat, ttl: nat)
    ensures
        now >= ttl + 1 ==> expired((now - ttl - 1) as nat, now, ttl),
        !expired(now, now, ttl),
{
}

/// While no more than `ttl` seconds have passed, freshness does not stand in the way.
pub proof fn lemma_fresh_within_lifetime(timestamp: nat, now: nat, ttl: nat)
    ensures
        !expired(timestamp, now, ttl) <==> now <= timestamp + ttl,
{
}

/// A payload that decodes to `value` is unwrapped to `value` for as long as the
/// snapshot is within its lifetime.
pub proof fn lemma_unwrap_within_lifetime<T>(timestamp: nat, now: nat, ttl: nat, value: T)
    requires
        now <= timestamp + ttl,
    ensures
        unwrapped(timestamp, now, ttl, Some(value)) == Ok::<T, CacheError>(value),
{
}

/// `std::time::SystemTime`: a reading of the system clock, carried as it is.
#[verifier::external_type_specification]
#[verifier::external_body]
pub struct ExSystemTime(SystemTime);

/// `SystemTime::now`: the reading of the system clock. Nothing is claimed of it.
#[verifier::external_body]
fn system_now() -> SystemTime {
    SystemTime::now()
}

/// `SystemTime::duration_since`, taken from the Unix epoch: the time that has passed
/// since the epoch, or `None` for a clock that stands before it. Nothing is claimed
/// of the duration.
#[verifier::external_body]
fn since_epoch(time: &SystemTime) -> Option<Duration> {
    time.duration_since(UNIX_EPOCH).ok()
}

/// `Duration::as_secs`: the whole seconds of a duration. The duration is opaque
/// here, so nothing is claimed of their number.
#[verifier::external_body]
fn whole_seconds(duration: &Duration) -> u64 {
    duration.as_secs()
}

/// The seconds since the Unix epoch on the system clock; 0 where the clock stands
/// before the epoch.
fn unix_now() -> u64 {
    let time = system_now();
    match since_epoch(&time) {
        Some(duration) => whole_seconds(&duration),
        None => 0,
    }
}

/// Wrapper for the cache value.
#[derive(Debug, PartialEq, Eq)]
pub struct Cache {
    timestamp: u64,
    data: String,
}

impl View for Cache {
    type V = Snapshot;

    closed spec fn view(&self) -> Snapshot {
        Snapshot { timestamp: self.timestamp as nat, payload: self.data@ }
    }
}

impl Cache {
    /// A cache value obtained at `timestamp`.
    pub fn at(timestamp: u64, data: String) -> (cache: Self)
        ensures
            cache@ == (Snapshot { timestamp: timestamp as nat, payload: data@ }),
    {
        Cache { timestamp, data }
    }

    /// Initializes a cache value from encoded data, at the present time. `None`
    /// stands for data that could not be encoded: then there is no value, and the
    /// clock is not read.
    pub fn new(data: Option<String>) -> (r: Result<Self, CacheError>)
        ensures
            data is None ==> r == Err::<Self, CacheError>(CacheError::Serialization),
            data matches Some(text) ==> (r matches Ok(cache) && cache@.payload == text@),
    {
        match data {
            Some(text) => Ok(Cache::at(unix_now(), text)),
            None => Err(CacheError::Serialization),
        }
    }

    /// When the value was obtained, in seconds since the Unix epoch.
    pub fn timestamp(&self) -> (t: u64)
        ensures
            t == self@.timestamp,
    {
        self.timestamp
    }

    /// The encoded data.
    pub fn data(&self) -> (text: &str)
        ensures
            text@ == self@.payload,
    {
        self.data.as_str()
    }

    /// Whether the value is expired at `now`, for a lifetime of `ttl` seconds.
    pub fn expired_at(&self, now: u64, ttl: u64) -> (r: bool)
        ensures
            r == expired(self@.timestamp, now as nat, ttl as nat),
    {
        now > self.timestamp && now - self.timestamp > ttl
    }

    /// Whether the cache is expired.
    ///
    /// The expiration period is defined by [`LIFETIME`].
    pub fn is_expired(&self) -> (r: bool)
        ensures
            exists|now: u64| r == expired(self@.timestamp, now as nat, LIFETIME as nat),
    {
        let now = unix_now();
        self.expired_at(now, LIFETIME)
    }

    /// Unwraps the cached data at `now`, for a lifetime of `ttl` seconds. `decoded` is
    /// what the payload decodes to, `None` where it does not have the expected shape.
    pub fn unwrap_at<T>(&self, now: u64, ttl: u64, decoded: Option<T>) -> (r: Result<
        T,
        CacheError,
    >)
        ensures
            r == unwrapped(self@.timestamp, now as nat, ttl as nat, decoded),
    {
        if self.expired_at(now, ttl) {
            Err(CacheError::Expired)
        } else {
            match decoded {
                Some(value) => Ok(value),
                None => Err(CacheError::Serialization),
            }
        }
    }

    /// Unwrap the cached data.
    /// An error can be returned in case of cache expired.
    pub fn unwrap<T>(&self, decoded: Option<T>) -> (r: Result<T, CacheError>)
        ensures
            exists|now: u64| r == unwrapped(self@.timestamp, now as nat, LIFETIME as nat, decoded),
    {
        let now = unix_now();
        self.unwrap_at(now, LIFETIME, decoded)
    }
}

} // verus!
