//! The deterministic value a draw is made from.
//!
//! A draw hashes the closing time, a fixed word and a seed, written one after
//! the other as text, and reduces the leading eight bytes of the digest to a
//! ticket slot. Anyone who knows the closing time can compute it: the draw is
//! reproducible by design, and predictable for the same reason.

use crate::msg::Env;
use sha2::{Digest, Sha256};
use vstd::prelude::*;
use vstd::string::*;

verus! {

/// The SHA-256 digest of `data`.
pub uninterp spec fn spec_sha256(data: Seq<u8>) -> Seq<u8>;

/// Calls `sha2::Sha256::digest` on `data` and hands its output back as an
/// array of 32 bytes, the output size of `Sha256`. The digest is a function
/// of the input bytes alone; the contract gives it the name [`spec_sha256`]
/// and claims nothing else about it. Nothing here proves that the bytes are
/// the SHA-256 digest: that is taken from the `sha2` crate.
#[verifier::external_body]
fn sha256(data: &[u8]) -> (digest: [u8; 32])
    ensures
        digest@ == spec_sha256(data@),
{
    Sha256::digest(data).into()
}

/// `n` written in decimal, as ASCII digits without leading zeros.
pub open spec fn spec_decimal(n: nat) -> Seq<u8>
    decreases n,
{
    if n < 10 {
        seq![(48 + n) as u8]
    } else {
        spec_decimal(n / 10).push((48 + n % 10) as u8)
    }
}

/// The number that the first eight bytes of `digest` spell, most significant
/// byte first.
pub open spec fn spec_leading_u64(digest: Seq<u8>) -> nat
    recommends
        digest.len() >= 8,
{
    (digest[0] as nat) * 0x0100_0000_0000_0000 + (digest[1] as nat) * 0x0001_0000_0000_0000
        + (digest[2] as nat) * 0x0000_0100_0000_0000 + (digest[3] as nat) * 0x0000_0001_0000_0000
        + (digest[4] as nat) * 0x0000_0000_0100_0000 + (digest[5] as nat) * 0x0000_0000_0001_0000
        + (digest[6] as nat) * 0x0000_0000_0000_0100 + (digest[7] as nat)
}

/// The slot below `max_value` that `digest` selects.
pub open spec fn spec_digest_to_index(digest: Seq<u8>, max_value: nat) -> nat
    recommends
        digest.len() >= 8,
        max_value > 0,
{
    spec_leading_u64(digest) % max_value
}

/// The bytes that are hashed for one draw.
pub open spec fn spec_seed_input(now: u64, word: Seq<u8>, id: u64) -> Seq<u8> {
    spec_decimal(now as nat) + word + spec_decimal(id as nat)
}

/// The slot below `max_value` drawn at time `now` from the seed `id`.
pub open spec fn spec_pseudo_random(now: u64, word: Seq<u8>, id: u64, max_value: nat) -> nat
    recommends
        max_value > 0,
{
    spec_digest_to_index(spec_sha256(spec_seed_input(now, word, id)), max_value)
}

/// Appends the decimal digits of `n` to `out`.
pub fn push_decimal(out: &mut Vec<u8>, n: u64)
    ensures
        final(out)@ == old(out)@ + spec_decimal(n as nat),
    decreases n,
{
    if n >= 10 {
        push_decimal(out, n / 10);
    }
    let digit: u8 = 48 + (n % 10) as u8;
    out.push(digit);
}

/// Appends `bytes` to `out`.
pub fn push_bytes(out: &mut Vec<u8>, bytes: &[u8])
    ensures
        final(out)@ == old(out)@ + bytes@,
{
    let mut i: usize = 0;
    while i < bytes.len()
        invariant
            i <= bytes@.len(),
            out@ == old(out)@ + bytes@.subrange(0, i as int),
        decreases bytes@.len() - i,
    {
        out.push(bytes[i]);
        i += 1;
    }
}

/// The text hashed for one draw: the time, the word and the seed, with
/// nothing between them.
pub fn seed_input(now: u64, word: &str, id: u64) -> (input: Vec<u8>)
    ensures
        input@ == spec_seed_input(now, word.spec_bytes(), id),
{
    let mut input: Vec<u8> = Vec::new();
    push_decimal(&mut input, now);
    push_bytes(&mut input, word.as_bytes());
    push_decimal(&mut input, id);
    input
}

/// Reads the first eight bytes of a digest as a big-endian number.
pub fn leading_u64(digest: &[u8; 32]) -> (value: u64)
    ensures
        value == spec_leading_u64(digest@),
{
    (digest[0] as u64) * 0x0100_0000_0000_0000 + (digest[1] as u64) * 0x0001_0000_0000_0000
        + (digest[2] as u64) * 0x0000_0100_0000_0000 + (digest[3] as u64) * 0x0000_0001_0000_0000
        + (digest[4] as u64) * 0x0000_0000_0100_0000 + (digest[5] as u64) * 0x0000_0000_0001_0000
        + (digest[6] as u64) * 0x0000_0000_0000_0100 + (digest[7] as u64)
}

/// Reduces a digest to a slot below `max_value`.
pub fn digest_to_index(digest: &[u8; 32], max_value: usize) -> (index: usize)
    requires
        max_value > 0,
    ensures
        index == spec_digest_to_index(digest@, max_value as nat),
        index < max_value,
{
    let value: u64 = leading_u64(digest);
    (value % (max_value as u64)) as usize
}

/// Draws a slot below `max_value` from the time in `env`, `word` and the seed
/// `id`.
pub fn pseudo_random(env: &Env, word: &str, id: u64, max_value: usize) -> (index: usize)
    requires
        max_value > 0,
    ensures
        index == spec_pseudo_random(env.time, word.spec_bytes(), id, max_value as nat),
        index < max_value,
{
    let input: Vec<u8> = seed_input(env.time, word, id);
    let digest: [u8; 32] = sha256(input.as_slice());
    digest_to_index(&digest, max_value)
}

} // verus!
