use vstd::prelude::*;

verus! {

/// Whether a character counts as alphanumeric when listener ids are built.
pub uninterp spec fn is_alphanum(c: char) -> bool;

/// Relies on char::is_alphanumeric: a Unicode letter or digit, decided by the
/// character alone.
#[verifier::external_body]
pub(crate) fn char_is_alphanumeric(c: char) -> (r: bool)
    ensures
        r == is_alphanum(c),
{
    c.is_alphanumeric()
}

/// Relies on SystemTime: milliseconds elapsed since the Unix epoch, clamped to
/// u64; 0 when the clock stands before the epoch. Nothing more is promised of
/// the value.
#[verifier::external_body]
pub(crate) fn now_millis() -> (r: u64) {
    let ms = std::time::UNIX_EPOCH.elapsed().map(|d| d.as_millis()).unwrap_or(0);
    u64::try_from(ms).unwrap_or(u64::MAX)
}

/// Relies on rand::random: a random draw; nothing is promised of the value.
#[verifier::external_body]
pub(crate) fn random_u32() -> (r: u32) {
    rand::random::<u32>()
}

} // verus!
