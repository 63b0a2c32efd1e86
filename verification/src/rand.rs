//! The draw of the winning number.
//!
//! The draw is a function of the block's height and time, of the caller and
//! of a fixed salt, so that a settlement can be replayed and audited. It is
//! not unpredictable: whoever knows or chooses the block's height and time
//! knows the number before the round is closed.

use vstd::prelude::*;
use vstd::utf8::encode_utf8;
use crate::env::{Env, MessageInfo};
use crate::payout::WHEEL_SIZE;
use rand_chacha::rand_core::{RngCore, SeedableRng};
use sha2::Digest;

verus! {

/// The text that `base64::encode` gives for a byte string.
pub uninterp spec fn base64_text(input: Seq<u8>) -> Seq<char>;

/// The SHA-256 digest of a byte string.
pub uninterp spec fn sha256_digest(data: Seq<u8>) -> Seq<u8>;

/// The first 32 bytes of the ChaCha20 stream that a seed starts.
pub uninterp spec fn chacha20_first_bytes(seed: Seq<u8>) -> Seq<u8>;

/// The first 32-bit word of the ChaCha20 stream that a seed starts.
pub uninterp spec fn chacha20_first_word(seed: Seq<u8>) -> u32;

/// Calls `base64::encode`, which writes its input in the standard base64
/// alphabet with padding. The result is taken as a function of the input
/// alone; nothing more is claimed of it.
#[verifier::external_body]
pub(crate) fn base64_encode(input: &[u8]) -> (text: String)
    ensures
        text@ == base64_text(input@),
{
    base64::encode(input)
}

/// Calls `Sha256::digest` of the crate sha2. The 32 bytes of the result are
/// taken as a function of the input alone; nothing more is claimed of them.
#[verifier::external_body]
pub(crate) fn sha_256(data: &[u8]) -> (hash: [u8; 32])
    ensures
        hash@ == sha256_digest(data@),
{
    sha2::Sha256::digest(data).into()
}

/// Seeds a `ChaCha20Rng` of the crate rand_chacha with `from_seed` and lets
/// `fill_bytes` fill 32 bytes from it. A generator that was just seeded gives
/// the start of its stream, so the bytes are taken as a function of the seed
/// alone; nothing more is claimed of them.
#[verifier::external_body]
pub(crate) fn chacha20_seeded_bytes(seed: &[u8; 32]) -> (bytes: [u8; 32])
    ensures
        bytes@ == chacha20_first_bytes(seed@),
{
    let mut rng = rand_chacha::ChaCha20Rng::from_seed(*seed);
    let mut bytes = [0u8; 32];
    rng.fill_bytes(&mut bytes);
    bytes
}

/// Seeds a `ChaCha20Rng` of the crate rand_chacha with `from_seed` and takes
/// one `next_u32` from it. The word is taken as a function of the seed alone;
/// nothing more is claimed of it.
#[verifier::external_body]
pub(crate) fn chacha20_seeded_word(seed: &[u8; 32]) -> (word: u32)
    ensures
        word == chacha20_first_word(seed@),
{
    let mut rng = rand_chacha::ChaCha20Rng::from_seed(*seed);
    rng.next_u32()
}

/// The eight bytes of a number, the most significant first.
pub open spec fn be_bytes(x: u64) -> Seq<u8> {
    seq![
        ((x / 0x100_0000_0000_0000) % 256) as u8,
        ((x / 0x1_0000_0000_0000) % 256) as u8,
        ((x / 0x100_0000_0000) % 256) as u8,
        ((x / 0x1_0000_0000) % 256) as u8,
        ((x / 0x100_0000) % 256) as u8,
        ((x / 0x1_0000) % 256) as u8,
        ((x / 0x100) % 256) as u8,
        (x % 256) as u8,
    ]
}

/// Appends the eight bytes of `x`, the most significant first.
fn append_be_bytes(buf: &mut Vec<u8>, x: u64)
    ensures
        final(buf)@ == old(buf)@ + be_bytes(x),
{
    buf.push(((x / 0x100_0000_0000_0000) % 256) as u8);
    buf.push(((x / 0x1_0000_0000_0000) % 256) as u8);
    buf.push(((x / 0x100_0000_0000) % 256) as u8);
    buf.push(((x / 0x1_0000_0000) % 256) as u8);
    buf.push(((x / 0x100_0000) % 256) as u8);
    buf.push(((x / 0x1_0000) % 256) as u8);
    buf.push(((x / 0x100) % 256) as u8);
    buf.push((x % 256) as u8);
    assert(buf@ =~= old(buf)@ + be_bytes(x));
}

/// Appends the bytes of `other`.
fn append_bytes(buf: &mut Vec<u8>, other: &[u8])
    ensures
        final(buf)@ == old(buf)@ + other@,
{
    let mut i: usize = 0;
    while i < other.len()
        invariant
            i <= other.len(),
            buf@ == old(buf)@ + other@.take(i as int),
        decreases other.len() - i,
    {
        buf.push(other[i]);
        i = i + 1;
        assert(buf@ =~= old(buf)@ + other@.take(i as int));
    }
    assert(other@.take(i as int) =~= other@);
}

/// The entropy of a settlement: the block's height and its time in
/// nanoseconds, eight bytes each and the most significant first, then the
/// caller's identity, then `entropy`.
pub open spec fn entropy_buffer(
    height: u64,
    nanos: u64,
    sender: Seq<char>,
    entropy: Seq<u8>,
) -> Seq<u8> {
    be_bytes(height) + be_bytes(nanos) + encode_utf8(sender) + entropy
}

/// The entropy of a settlement, as `entropy_buffer` lays it out.
pub fn build_entropy(height: u64, nanos: u64, sender: &str, entropy: &[u8]) -> (buf: Vec<u8>)
    ensures
        buf@ == entropy_buffer(height, nanos, sender@, entropy@),
{
    let mut buf: Vec<u8> = Vec::new();
    append_be_bytes(&mut buf, height);
    append_be_bytes(&mut buf, nanos);
    append_bytes(&mut buf, sender.as_bytes());
    append_bytes(&mut buf, entropy);
    assert(buf@ =~= entropy_buffer(height, nanos, sender@, entropy@));
    buf
}

/// The 32 bytes drawn from `seed` and a settlement's entropy: the start of
/// the ChaCha20 stream seeded with the SHA-256 digest of `seed` followed by
/// the entropy buffer.
pub open spec fn entropy_bytes(
    height: u64,
    nanos: u64,
    sender: Seq<char>,
    seed: Seq<u8>,
    entropy: Seq<u8>,
) -> Seq<u8> {
    chacha20_first_bytes(sha256_digest(seed + entropy_buffer(height, nanos, sender, entropy)))
}

/// Draws 32 bytes from `seed`, the block's height and time, the caller and
/// `entropy`.
pub fn new_entropy(info: &MessageInfo, env: &Env, seed: &[u8], entropy: &[u8]) -> (bytes: [u8; 32])
    ensures
        bytes@ == entropy_bytes(
            env.block.height,
            env.block.time.nanos,
            info.sender@,
            seed@,
            entropy@,
        ),
{
    let rng_entropy = build_entropy(
        env.block.height,
        env.block.time.nanos(),
        info.sender.as_str(),
        entropy,
    );
    let mut input: Vec<u8> = Vec::new();
    append_bytes(&mut input, seed);
    append_bytes(&mut input, rng_entropy.as_slice());
    assert(input@ =~= seed@ + rng_entropy@);
    let digest = sha_256(input.as_slice());
    chacha20_seeded_bytes(&digest)
}

/// The salt of every draw: the SHA-256 digest of the base64 text of the
/// word "entropy".
pub open spec fn draw_salt() -> Seq<u8> {
    sha256_digest(encode_utf8(base64_text(encode_utf8("entropy"@))))
}

/// The 32-bit word that a settlement draws.
pub open spec fn drawn_word(height: u64, nanos: u64, sender: Seq<char>) -> u32 {
    chacha20_first_word(entropy_bytes(height, nanos, sender, draw_salt(), draw_salt()))
}

/// The winning number of a settlement: the drawn word, reduced to the wheel.
pub open spec fn drawn_number(height: u64, nanos: u64, sender: Seq<char>) -> u32 {
    winning_number_of(drawn_word(height, nanos, sender))
}

/// The wheel number that a drawn word stands for.
pub open spec fn winning_number_of(word: u32) -> u32 {
    word % WHEEL_SIZE
}

/// Reduces a drawn word to a wheel number.
pub fn winning_number(word: u32) -> (n: u32)
    ensures
        n == winning_number_of(word),
        n < WHEEL_SIZE,
{
    word % WHEEL_SIZE
}

/// Draws the winning number of a settlement from the block's height and
/// time and the caller's identity. The same three always give the same
/// number, and the number is on the wheel.
pub fn rand_generator(info: &MessageInfo, env: &Env) -> (n: u32)
    ensures
        n == drawn_number(env.block.height, env.block.time.nanos, info.sender@),
        n < WHEEL_SIZE,
{
    let text = base64_encode("entropy".as_bytes());
    let prng_seed = sha_256(text.as_str().as_bytes());
    let random_seed = new_entropy(info, env, prng_seed.as_slice(), prng_seed.as_slice());
    let word = chacha20_seeded_word(&random_seed);
    winning_number(word)
}

} // verus!
