//! The trusted boundary to outside crates: each function here makes one
//! outside call, and its contract states only what that call's source or
//! documentation promises.

use vstd::prelude::*;

verus! {

/// Relies on rand's Rng::gen_range over `0..len`: a value drawn from the
/// half-open range, which panics only when the range is empty.
#[verifier::external_body]
pub(crate) fn random_index(len: usize) -> (r: usize)
    requires
        len > 0,
    ensures
        r < len,
{
    rand::Rng::gen_range(&mut rand::thread_rng(), 0..len)
}

/// Relies on chrono's Utc::now / DateTime::timestamp_millis: the current
/// wall-clock time as unix milliseconds. Nothing is promised of the value.
#[verifier::external_body]
pub(crate) fn now_unix_millis() -> i64 {
    chrono::Utc::now().timestamp_millis()
}

/// What md5's compute returns for a string's UTF-8 bytes, read as one
/// big-endian 128-bit value. The digest depends on the bytes alone.
pub uninterp spec fn md5_of(s: Seq<char>) -> u128;

/// Relies on md5's compute: the 16-byte digest of the string's UTF-8 bytes.
#[verifier::external_body]
pub(crate) fn md5_hash(s: &str) -> (r: u128)
    ensures
        r == md5_of(s@),
{
    u128::from_be_bytes(md5::compute(s.as_bytes()).into())
}

/// What str::to_lowercase returns: it depends on the characters alone.
pub uninterp spec fn lower_of(s: Seq<char>) -> Seq<char>;

/// Relies on std's str::to_lowercase.
#[verifier::external_body]
pub(crate) fn lowercase(s: &str) -> (r: String)
    ensures
        r@ == lower_of(s@),
{
    s.to_lowercase()
}

/// What str::trim returns: the string with leading and trailing
/// whitespace removed; it depends on the characters alone.
pub uninterp spec fn trim_of(s: Seq<char>) -> Seq<char>;

/// Relies on std's str::trim.
#[verifier::external_body]
pub(crate) fn trim(s: &str) -> (r: &str)
    ensures
        r@ == trim_of(s@),
{
    s.trim()
}

} // verus!
