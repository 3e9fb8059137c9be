//! What holds of every digest, stated over the definitions of the model and
//! proved from them.

use crate::model::{
    absorb, absorb_all, finalized, fold, full_blocks, key_schedule, message_rest, message_words,
    siphash, tail_block, tail_word, C0, C1, C2, C3,
};
use crate::permutation::{sip_rounds, SipState};
use crate::words::{be_bytes, lane, lemma_le_word_lanes};
use vstd::prelude::*;

verus! {

/// Determinism: a digest depends on the message, the key and the two round
/// counts, and on nothing else. Whatever two computations on the same four
/// inputs return is the same eight bytes.
pub proof fn lemma_digest_is_deterministic(
    message: Seq<u8>,
    key: Seq<u8>,
    comp_rounds: u8,
    fin_rounds: u8,
    first: [u8; 8],
    second: [u8; 8],
)
    requires
        first@ == siphash(message, key, comp_rounds, fin_rounds),
        second@ == siphash(message, key, comp_rounds, fin_rounds),
    ensures
        first == second,
{
    assert(first =~= second);
}

/// Every digest has eight bytes.
pub proof fn lemma_digest_has_eight_bytes(
    message: Seq<u8>,
    key: Seq<u8>,
    comp_rounds: u8,
    fin_rounds: u8,
)
    ensures
        siphash(message, key, comp_rounds, fin_rounds).len() == 8,
{
}

/// The closing word, byte by byte: the bytes of the message after its last
/// whole block from the lowest byte up, zeros above them, and the length of
/// the message modulo 256 in the top byte.
pub proof fn lemma_tail_word_lanes(message: Seq<u8>, j: u64)
    requires
        j < 8,
    ensures
        message_rest(message).len() == message.len() % 8,
        lane(tail_word(message), j) == (if j < message.len() % 8 {
            message[8 * full_blocks(message.len()) + j]
        } else if j == 7 {
            (message.len() % 256) as u8
        } else {
            0u8
        }),
{
    lemma_le_word_lanes(tail_block(message.len(), message_rest(message)), j);
}

/// The closing word of the empty message is zero, and it is the one word
/// that the empty message is absorbed as.
pub proof fn lemma_empty_message_words()
    ensures
        message_words(Seq::<u8>::empty()) == seq![0u64],
{
    let message = Seq::<u8>::empty();
    assert forall|j: u64| j < 8 implies lane(tail_word(message), j) == lane(0u64, j) by {
        lemma_tail_word_lanes(message, j);
        assert(lane(0u64, j) == 0) by (bit_vector);
    }
    crate::words::lemma_lanes_determine_word(tail_word(message), 0u64);
    assert(message_words(message) =~= seq![0u64]);
}

/// The closing word of a message of whole blocks holds the length byte and
/// nothing else.
pub proof fn lemma_whole_blocks_tail_word(message: Seq<u8>)
    requires
        message.len() % 8 == 0,
    ensures
        tail_word(message) == ((message.len() % 256) as u64) << 56,
{
    let top = (message.len() % 256) as u64;
    assert forall|j: u64| j < 8 implies lane(tail_word(message), j) == lane(top << 56, j) by {
        lemma_tail_word_lanes(message, j);
        assert(j < 8 && top < 256 ==> lane(top << 56, j) == (if j == 7 {
            top as u8
        } else {
            0u8
        })) by (bit_vector);
    }
    crate::words::lemma_lanes_determine_word(tail_word(message), top << 56);
}

/// Zero rounds mean no mixing: a word is absorbed by xor alone, and the
/// closing step is the xor with `0xff` alone.
pub proof fn lemma_zero_rounds_skip_mixing(s: SipState, word: u64)
    ensures
        sip_rounds(s, 0) == s,
        absorb(s, 0, word) == (SipState { v0: s.v0 ^ word, v1: s.v1, v2: s.v2, v3: s.v3 ^ word }),
        finalized(s, 0) == (SipState { v0: s.v0, v1: s.v1, v2: s.v2 ^ 0xff, v3: s.v3 }),
{
}

/// With no rounds at all the digest is well defined and says nothing: it is
/// the same for every message and every key.
pub proof fn lemma_zero_rounds_digest(message: Seq<u8>, key: Seq<u8>)
    ensures
        siphash(message, key, 0, 0) == be_bytes(0x0f1c_1c03_0906_1df5),
{
    let start = key_schedule(key);
    let words = message_words(message);
    let end = absorb_all(start, 0, words);
    lemma_zero_rounds_keep_fold(start, words);
    lemma_zero_rounds_skip_mixing(end, 0);
    let k0 = crate::model::key_low(key);
    let k1 = crate::model::key_high(key);
    assert((C0 ^ k0) ^ (C1 ^ k1) ^ (C2 ^ k0) ^ (C3 ^ k1) == C0 ^ C1 ^ C2 ^ C3) by (bit_vector);
    let (e0, e1, e2, e3) = (end.v0, end.v1, end.v2, end.v3);
    assert(e0 ^ e1 ^ (e2 ^ 0xff) ^ e3 == (e0 ^ e1 ^ e2 ^ e3) ^ 0xff) by (bit_vector);
    assert((C0 ^ C1 ^ C2 ^ C3) ^ 0xff == 0x0f1c_1c03_0906_1df5) by (bit_vector);
}

/// Absorbing without rounds does not change the fold of the four words.
proof fn lemma_zero_rounds_keep_fold(s: SipState, words: Seq<u64>)
    ensures
        fold(absorb_all(s, 0, words)) == fold(s),
    decreases words.len(),
{
    if words.len() > 0 {
        let before = absorb_all(s, 0, words.drop_last());
        let word = words.last();
        lemma_zero_rounds_keep_fold(s, words.drop_last());
        lemma_zero_rounds_skip_mixing(before, word);
        let (b0, b1, b2, b3) = (before.v0, before.v1, before.v2, before.v3);
        assert((b0 ^ word) ^ b1 ^ b2 ^ (b3 ^ word) == b0 ^ b1 ^ b2 ^ b3) by (bit_vector);
    }
}

} // verus!
