use core::hash::Hasher;
use vstd::prelude::*;

verus! {

/// What aHash, keyed with zeros, gives for a byte string.
pub uninterp spec fn ahash_zero_keyed(b: Seq<u8>) -> u64;

/// Relies on `ahash::AHasher::new_with_keys(0, 0)`, then `Hasher::write` and
/// `Hasher::finish`: with fixed keys the hash depends on the bytes alone.
#[verifier::external_body]
pub(crate) fn bytes_hash(b: &[u8]) -> (r: u64)
    ensures
        r == ahash_zero_keyed(b@),
{
    let mut hasher = ahash::AHasher::new_with_keys(0, 0);
    hasher.write(b);
    hasher.finish()
}

/// The lower-case hexadecimal digit for `d`, which is below 16.
pub open spec fn hex_digit(d: u64) -> char {
    seq!['0', '1', '2', '3', '4', '5', '6', '7', '8', '9', 'a', 'b', 'c', 'd', 'e', 'f'][d as int]
}

/// `h` as sixteen lower-case hexadecimal digits, most significant first.
pub open spec fn hex16_of(h: u64) -> Seq<char> {
    Seq::new(16, |i: int| hex_digit((h >> ((60 - 4 * i) as u64)) & 15))
}

/// Relies on std's `format!` with `{:016x}`: `h` in lower-case hexadecimal,
/// padded with zeros to sixteen digits.
#[verifier::external_body]
pub(crate) fn hex16(h: u64) -> (r: String)
    ensures
        r@ == hex16_of(h),
{
    format!("{:016x}", h)
}

} // verus!
