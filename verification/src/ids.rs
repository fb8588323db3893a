//! Identifiers for staged assets, made from the clock and a hashed instant.

use std::collections::hash_map::DefaultHasher;
use std::hash::Hasher;
use std::time::{Duration, Instant, SystemTime};
use vstd::prelude::*;

use crate::text::{decimal, digits_value, law_decimal_reads_back, push_char, push_decimal};

verus! {

#[verifier::external_type_specification]
#[verifier::external_body]
pub struct ExInstant(Instant);

#[verifier::external_type_specification]
#[verifier::external_body]
pub struct ExSystemTime(SystemTime);

/// Reads the wall clock.
/// Calls `SystemTime::now`; nothing is claimed of the result, which
/// depends on the time of the call.
#[verifier::external_body]
fn system_time_now() -> SystemTime {
    SystemTime::now()
}

/// The time elapsed between the Unix epoch and `t`.
/// Calls `SystemTime::duration_since(UNIX_EPOCH)` and keeps its `Ok` value;
/// nothing is claimed of the result, which rests on the clock reading.
#[verifier::external_body]
fn since_unix_epoch(t: &SystemTime) -> Option<Duration> {
    t.duration_since(std::time::UNIX_EPOCH).ok()
}

/// Whole nanoseconds in a duration.
/// Calls `Duration::as_nanos`; no clause is given, as the duration itself
/// comes from the clock and nothing is known of it.
#[verifier::external_body]
fn duration_nanos(d: &Duration) -> u128 {
    d.as_nanos()
}

/// Reads the monotonic clock.
/// Calls `Instant::now`; nothing is claimed of the result.
#[verifier::external_body]
fn instant_now() -> Instant {
    Instant::now()
}

/// Feeds an instant to a hasher.
/// Calls `<Instant as Hash>::hash`; nothing is claimed of the hasher's
/// state afterwards, since what an instant writes is not documented.
#[verifier::external_body]
fn hash_instant(i: &Instant, h: &mut DefaultHasher) {
    std::hash::Hash::hash(i, h);
}

/// The low 32 bits of a hash.
pub fn hash_to_u32(h: u64) -> (r: u32)
    ensures
        r == h as u32,
{
    h as u32
}

/// A pseudo-random number taken from the hash of the current instant: the
/// low 32 bits of that hash (see `hash_to_u32`).
pub fn rand_u32() -> u32 {
    let mut hasher = DefaultHasher::new();
    let now = instant_now();
    hash_instant(&now, &mut hasher);
    let h: u64 = hasher.finish();
    hash_to_u32(h)
}

/// The text of an asset identifier: `stamp`, an underscore, `salt`.
pub open spec fn id_text(stamp: nat, salt: nat) -> Seq<char> {
    decimal(stamp) + seq!['_'] + decimal(salt)
}

/// Spells an identifier from its two numbers.
pub fn format_id(stamp: u64, salt: u32) -> (r: String)
    ensures
        r@ == id_text(stamp as nat, salt as nat),
{
    let mut s = String::new();
    push_decimal(&mut s, stamp);
    push_char(&mut s, '_');
    push_decimal(&mut s, salt as u64);
    assert(s@ =~= id_text(stamp as nat, salt as nat));
    s
}

/// An identifier reads back as its two numbers: it is the stamp's digits,
/// one underscore, and the salt's digits, and no other underscore.
pub proof fn law_id_reads_back(stamp: nat, salt: nat)
    ensures
        ({
            let s = id_text(stamp, salt);
            let k = decimal(stamp).len() as int;
            &&& 0 < k < s.len() - 1
            &&& s[k] == '_'
            &&& forall|j: int| 0 <= j < s.len() && j != k ==> #[trigger] s[j] != '_'
            &&& digits_value(s.take(k)) == stamp
            &&& digits_value(s.skip(k + 1)) == salt
        }),
{
    law_decimal_reads_back(stamp);
    law_decimal_reads_back(salt);
    let a = decimal(stamp);
    let b = decimal(salt);
    let s = id_text(stamp, salt);
    let k = a.len() as int;
    assert(s.take(k) =~= a);
    assert(s.skip(k + 1) =~= b);
    assert forall|j: int| 0 <= j < s.len() && j != k implies #[trigger] s[j] != '_' by {
        if j < k {
            assert(s[j] == a[j]);
        } else {
            assert(s[j] == b[j - k - 1]);
        }
    }
}

/// Whether `s` has the shape of a generated identifier.
pub open spec fn is_generated_id(s: Seq<char>) -> bool {
    exists|stamp: nat, salt: nat| stamp < 1_000_000_000 && salt < 10000 && s == id_text(stamp, salt)
}

/// The stamp of an identifier: nanoseconds since the epoch modulo 10^9, or
/// 0 when the clock reads before the epoch.
pub open spec fn stamp_of(nanos: Option<u128>) -> nat {
    match nanos {
        Some(n) => (n % 1_000_000_000) as nat,
        None => 0,
    }
}

/// The identifier made from a clock reading (nanoseconds since the epoch,
/// `None` before the epoch) and a random number.
pub fn id_from(nanos: Option<u128>, random: u32) -> (r: String)
    ensures
        r@ == id_text(stamp_of(nanos), (random % 10000) as nat),
{
    let stamp: u64 = match nanos {
        Some(n) => (n % 1_000_000_000) as u64,
        None => 0,
    };
    let salt = random % 10000;
    format_id(stamp, salt)
}

/// A new identifier: nanoseconds since the epoch modulo 10^9, an
/// underscore, and a random number below 10000 (see `id_from`).
pub fn generate_id() -> (r: String)
    ensures
        is_generated_id(r@),
{
    let now = system_time_now();
    let nanos: Option<u128> = match since_unix_epoch(&now) {
        Some(d) => Some(duration_nanos(&d)),
        None => None,
    };
    let r = id_from(nanos, rand_u32());
    assert(stamp_of(nanos) < 1_000_000_000);
    r
}

} // verus!
