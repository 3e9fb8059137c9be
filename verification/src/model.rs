//! What a digest is: the key schedule, the words that a message is absorbed
//! as, and the finalization, as functions on byte sequences.

use crate::permutation::{sip_rounds, SipState};
use crate::words::{be_bytes, le_word};
use vstd::prelude::*;

verus! {

/// The ASCII text `somepseu`, read as a big-endian word.
pub const C0: u64 = 0x736f_6d65_7073_6575;

/// The ASCII text `dorandom`, read as a big-endian word.
pub const C1: u64 = 0x646f_7261_6e64_6f6d;

/// The ASCII text `lygenera`, read as a big-endian word.
pub const C2: u64 = 0x6c79_6765_6e65_7261;

/// The ASCII text `tedbytes`, read as a big-endian word.
pub const C3: u64 = 0x7465_6462_7974_6573;

/// The length of a key in bytes.
pub const KEY_LEN: usize = 16;

/// What a hasher is: the four words and the two round counts it was made
/// with.
pub struct HashState {
    pub words: SipState,
    pub comp_rounds: u8,
    pub fin_rounds: u8,
}

/// The first half of a 16-byte key, read little-endian.
pub open spec fn key_low(key: Seq<u8>) -> u64
    recommends
        key.len() == 16,
{
    le_word(key.subrange(0, 8))
}

/// The second half of a 16-byte key, read little-endian.
pub open spec fn key_high(key: Seq<u8>) -> u64
    recommends
        key.len() == 16,
{
    le_word(key.subrange(8, 16))
}

/// The words that a computation under `key` starts from.
pub open spec fn key_schedule(key: Seq<u8>) -> SipState
    recommends
        key.len() == 16,
{
    SipState {
        v0: C0 ^ key_low(key),
        v1: C1 ^ key_high(key),
        v2: C2 ^ key_low(key),
        v3: C3 ^ key_high(key),
    }
}

/// The number of whole 8-byte blocks in a message of `len` bytes.
pub open spec fn full_blocks(len: nat) -> nat {
    len / 8
}

/// The word of the `i`-th whole block of `message`.
pub open spec fn block_word(message: Seq<u8>, i: int) -> u64
    recommends
        0 <= i < full_blocks(message.len()),
{
    le_word(message.subrange(8 * i, 8 * i + 8))
}

/// The block that closes a message of `len` bytes whose bytes after the last
/// whole block are `rest`: the rest, then zeros up to seven bytes, then the
/// length modulo 256.
pub open spec fn tail_block(len: nat, rest: Seq<u8>) -> Seq<u8>
    recommends
        rest.len() <= 7,
{
    Seq::new(
        8,
        |j: int|
            if j < rest.len() {
                rest[j]
            } else if j == 7 {
                (len % 256) as u8
            } else {
                0u8
            },
    )
}

/// The bytes of `message` after its last whole block: at most seven.
pub open spec fn message_rest(message: Seq<u8>) -> Seq<u8> {
    message.skip((8 * full_blocks(message.len())) as int)
}

/// The word that closes `message`. Every message has one, the empty message
/// and a message of whole blocks too.
pub open spec fn tail_word(message: Seq<u8>) -> u64 {
    le_word(tail_block(message.len(), message_rest(message)))
}

/// The words that `message` is absorbed as, in order: one for each whole
/// block, then the closing word.
pub open spec fn message_words(message: Seq<u8>) -> Seq<u64> {
    Seq::new(
        full_blocks(message.len()) + 1,
        |i: int|
            if i < full_blocks(message.len()) {
                block_word(message, i)
            } else {
                tail_word(message)
            },
    )
}

/// Absorbing one word: it is xored into the last state word, `rounds` rounds
/// follow, and it is xored into the first state word.
pub open spec fn absorb(s: SipState, rounds: nat, word: u64) -> SipState {
    let mixed = sip_rounds(SipState { v0: s.v0, v1: s.v1, v2: s.v2, v3: s.v3 ^ word }, rounds);
    SipState { v0: mixed.v0 ^ word, v1: mixed.v1, v2: mixed.v2, v3: mixed.v3 }
}

/// Absorbing `words` from first to last.
pub open spec fn absorb_all(s: SipState, rounds: nat, words: Seq<u64>) -> SipState
    decreases words.len(),
{
    if words.len() == 0 {
        s
    } else {
        absorb(absorb_all(s, rounds, words.drop_last()), rounds, words.last())
    }
}

/// The words after the closing step: `0xff` is xored into the third word and
/// `rounds` rounds follow.
pub open spec fn finalized(s: SipState, rounds: nat) -> SipState {
    sip_rounds(SipState { v0: s.v0, v1: s.v1, v2: s.v2 ^ 0xff, v3: s.v3 }, rounds)
}

/// The four words folded into one by xor.
pub open spec fn fold(s: SipState) -> u64 {
    s.v0 ^ s.v1 ^ s.v2 ^ s.v3
}

/// The tag, as a word, that a hasher in state `h` gives to `message`.
pub open spec fn tag_of(h: HashState, message: Seq<u8>) -> u64 {
    fold(
        finalized(
            absorb_all(h.words, h.comp_rounds as nat, message_words(message)),
            h.fin_rounds as nat,
        ),
    )
}

/// The digest that a hasher in state `h` gives to `message`: the tag, most
/// significant byte first.
pub open spec fn digest_of(h: HashState, message: Seq<u8>) -> Seq<u8> {
    be_bytes(tag_of(h, message))
}

/// The state of a fresh hasher under `key` with the given round counts.
pub open spec fn initial_state(key: Seq<u8>, comp_rounds: u8, fin_rounds: u8) -> HashState
    recommends
        key.len() == 16,
{
    HashState { words: key_schedule(key), comp_rounds, fin_rounds }
}

/// The digest of `message` under the 16-byte `key`, with `comp_rounds` rounds
/// after each absorbed word and `fin_rounds` rounds at the end.
pub open spec fn siphash(message: Seq<u8>, key: Seq<u8>, comp_rounds: u8, fin_rounds: u8) -> Seq<u8>
    recommends
        key.len() == 16,
{
    digest_of(initial_state(key, comp_rounds, fin_rounds), message)
}

} // verus!
