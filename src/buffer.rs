use vstd::prelude::*;
use crate::config::{buffer_len, spec_buffer_len};

verus! {

/// Relies on rand's thread-local generator and `RngCore::fill_bytes`, which
/// overwrites every byte of the slice it is given and never resizes it.
#[verifier::external_body]
fn fill_random(buf: &mut Vec<u8>)
    ensures
        final(buf)@.len() == old(buf)@.len(),
{
    rand::RngCore::fill_bytes(&mut rand::rng(), buf.as_mut_slice())
}

/// A write buffer of exactly `len` bytes of random content.
pub fn random_buffer(len: usize) -> (r: Vec<u8>)
    ensures
        r@.len() == len,
{
    let mut buf: Vec<u8> = vec![0u8; len];
    fill_random(&mut buf);
    buf
}

/// The shared write buffer for a configured size of `size_mb` mebibytes, or
/// `None` where that many bytes cannot be addressed.
pub fn make_buffer(size_mb: usize) -> (r: Option<Vec<u8>>)
    ensures
        r is Some <==> spec_buffer_len(size_mb as nat) <= usize::MAX,
        r matches Some(b) ==> b@.len() == spec_buffer_len(size_mb as nat),
{
    match buffer_len(size_mb) {
        Some(n) => Some(random_buffer(n)),
        None => None,
    }
}

} // verus!
