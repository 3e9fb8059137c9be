//! The hasher: a keyed state that turns a message into an 8-byte digest.

use crate::model::{
    absorb, absorb_all, digest_of, finalized, fold, initial_state, message_rest, message_words,
    siphash, tail_block, HashState, C0, C1, C2, C3, KEY_LEN,
};
use crate::permutation::{sip_round, sip_rounds, SipState};
use crate::words::{
    be_bytes, lane, le_word, lemma_lanes_determine_word, lemma_le_word_lanes, load_le, rotl,
    store_be,
};
use vstd::prelude::*;
use vstd::slice::slice_subrange;

verus! {

/// A keyed hasher with its own numbers of compression and finalization
/// rounds.
///
/// A hasher is made from a key and stays at the state it was made in:
/// [`SipHasher::hash`] hashes each message from that state and puts the state
/// back, so the digests of one hasher do not depend on the messages it has
/// hashed before.
pub struct SipHasher {
    v0: u64,
    v1: u64,
    v2: u64,
    v3: u64,
    comp_rounds: u8,
    fin_rounds: u8,
}

impl View for SipHasher {
    type V = HashState;

    closed spec fn view(&self) -> HashState {
        HashState {
            words: SipState { v0: self.v0, v1: self.v1, v2: self.v2, v3: self.v3 },
            comp_rounds: self.comp_rounds,
            fin_rounds: self.fin_rounds,
        }
    }
}

impl SipHasher {
    /// A hasher under `key` that runs `comp_rounds` rounds after each absorbed
    /// word and `fin_rounds` rounds at the end. Any counts are accepted; zero
    /// means that no mixing takes place at that point.
    #[must_use]
    pub fn new(comp_rounds: u8, fin_rounds: u8, key: &[u8; 16]) -> (hasher: Self)
        ensures
            hasher@ == initial_state(key@, comp_rounds, fin_rounds),
    {
        let k0: u64 = load_le(key.as_slice(), 0);
        let k1: u64 = load_le(key.as_slice(), 8);

        Self { v0: C0 ^ k0, v1: C1 ^ k1, v2: C2 ^ k0, v3: C3 ^ k1, comp_rounds, fin_rounds }
    }

    /// The digest of `message`. The hasher is left as it was before the
    /// call, so it can hash the next message from the same state.
    pub fn hash(&mut self, message: &[u8]) -> (digest: [u8; 8])
        ensures
            digest@ == digest_of(old(self)@, message@),
            final(self)@ == old(self)@,
    {
        let v0: u64 = self.v0;
        let v1: u64 = self.v1;
        let v2: u64 = self.v2;
        let v3: u64 = self.v3;
        self.transform(message);
        let digest: [u8; 8] = self.finalize();
        self.v0 = v0;
        self.v1 = v1;
        self.v2 = v2;
        self.v3 = v3;
        digest
    }

    /// Absorbs `message`: each whole 8-byte block as a little-endian word,
    /// then the closing word.
    fn transform(&mut self, message: &[u8])
        ensures
            final(self)@ == (HashState {
                words: absorb_all(
                    old(self)@.words,
                    old(self)@.comp_rounds as nat,
                    message_words(message@),
                ),
                ..old(self)@
            }),
    {
        let len: usize = message.len();
        let blocks: usize = len / 8;
        let ghost words = message_words(message@);
        let mut done: usize = 0;
        while done < blocks
            invariant
                done <= blocks,
                blocks == len / 8,
                len == message@.len(),
                words == message_words(message@),
                self@ == (HashState {
                    words: absorb_all(
                        old(self)@.words,
                        old(self)@.comp_rounds as nat,
                        words.take(done as int),
                    ),
                    ..old(self)@
                }),
            decreases blocks - done,
        {
            let value: u64 = load_le(message, 8 * done);
            proof {
                assert(words.take(done + 1).drop_last() =~= words.take(done as int));
                assert(words.take(done + 1).last() == value);
            }
            self.compress_block(value);
            done += 1;
        }

        let remainder: &[u8] = slice_subrange(message, 8 * blocks, len);
        let last_block: u64 = Self::build_last_block(len, remainder);
        proof {
            assert(remainder@ =~= message_rest(message@));
            assert(words.drop_last() =~= words.take(blocks as int));
            assert(words.last() == last_block);
        }
        self.compress_block(last_block);
    }

    /// The closing word of a message of `size` bytes whose bytes after the
    /// last whole block are `remainder`: the length modulo 256 in the top
    /// byte, the remainder below it from the lowest byte up.
    fn build_last_block(size: usize, remainder: &[u8]) -> (word: u64)
        requires
            remainder@.len() <= 7,
        ensures
            word == le_word(tail_block(size as nat, remainder@)),
    {
        let mut last_block: u64 = (size as u64) << 56;
        let mut index: usize = 0;
        proof {
            lemma_length_lanes(size as u64);
        }
        while index < remainder.len()
            invariant
                index <= remainder@.len() <= 7,
                forall|j: u64|
                    j < 8 ==> #[trigger] lane(last_block, j) == tail_block(
                        size as nat,
                        remainder@.take(index as int),
                    )[j as int],
            decreases remainder@.len() - index,
        {
            let byte: u8 = remainder[index];
            proof {
                assert(lane(last_block, index as u64) == 0);
                lemma_or_fills_lane(last_block, byte, index as u64);
            }
            last_block |= (byte as u64) << (8 * index);
            index += 1;
        }
        proof {
            let block = tail_block(size as nat, remainder@);
            assert(remainder@.take(index as int) =~= remainder@);
            assert forall|j: u64| j < 8 implies lane(last_block, j) == lane(le_word(block), j) by {
                lemma_le_word_lanes(block, j);
            }
            lemma_lanes_determine_word(last_block, le_word(block));
        }
        last_block
    }

    /// Absorbs one word: xors it into the last state word, runs the
    /// compression rounds, and xors it into the first state word.
    #[inline]
    fn compress_block(&mut self, value: u64)
        ensures
            final(self)@ == (HashState {
                words: absorb(old(self)@.words, old(self)@.comp_rounds as nat, value),
                ..old(self)@
            }),
    {
        self.v3 ^= value;
        let mut done: u8 = 0;
        while done < self.comp_rounds
            invariant
                done <= self.comp_rounds,
                self.comp_rounds == old(self).comp_rounds,
                self.fin_rounds == old(self).fin_rounds,
                self@.words == sip_rounds(
                    SipState {
                        v0: old(self).v0,
                        v1: old(self).v1,
                        v2: old(self).v2,
                        v3: old(self).v3 ^ value,
                    },
                    done as nat,
                ),
            decreases self.comp_rounds - done,
        {
            self.compress();
            done += 1;
        }
        self.v0 ^= value;
    }

    /// Closes the computation: xors `0xff` into the third word, runs the
    /// finalization rounds, and gives the fold of the four words, most
    /// significant byte first.
    fn finalize(&mut self) -> (digest: [u8; 8])
        ensures
            final(self)@ == (HashState {
                words: finalized(old(self)@.words, old(self)@.fin_rounds as nat),
                ..old(self)@
            }),
            digest@ == be_bytes(fold(finalized(old(self)@.words, old(self)@.fin_rounds as nat))),
    {
        self.v2 ^= 0xff;

        let mut done: u8 = 0;
        while done < self.fin_rounds
            invariant
                done <= self.fin_rounds,
                self.comp_rounds == old(self).comp_rounds,
                self.fin_rounds == old(self).fin_rounds,
                self@.words == sip_rounds(
                    SipState {
                        v0: old(self).v0,
                        v1: old(self).v1,
                        v2: old(self).v2 ^ 0xff,
                        v3: old(self).v3,
                    },
                    done as nat,
                ),
            decreases self.fin_rounds - done,
        {
            self.compress();
            done += 1;
        }

        let hash: u64 = self.v0 ^ self.v1 ^ self.v2 ^ self.v3;
        store_be(hash)
    }

    /// One round of the permutation on the four words.
    #[inline]
    fn compress(&mut self)
        ensures
            final(self)@ == (HashState { words: sip_round(old(self)@.words), ..old(self)@ }),
    {
        self.v0 = self.v0.wrapping_add(self.v1);
        self.v1 = rotl(self.v1, 13);
        self.v1 ^= self.v0;
        self.v0 = rotl(self.v0, 32);

        self.v2 = self.v2.wrapping_add(self.v3);
        self.v3 = rotl(self.v3, 16);
        self.v3 ^= self.v2;

        self.v0 = self.v0.wrapping_add(self.v3);
        self.v3 = rotl(self.v3, 21);
        self.v3 ^= self.v0;

        self.v2 = self.v2.wrapping_add(self.v1);
        self.v1 = rotl(self.v1, 17);
        self.v1 ^= self.v2;
        self.v2 = rotl(self.v2, 32);
    }
}

/// The SipHash-1-3 digest of `message` under `key`: one round after each
/// absorbed word, three at the end.
#[must_use]
pub fn siphash13(message: &[u8], key: &[u8; 16]) -> (digest: [u8; 8])
    ensures
        digest@ == siphash(message@, key@, 1, 3),
{
    let mut hasher = SipHasher::new(1, 3, key);
    hasher.hash(message)
}

/// The SipHash-2-4 digest of `message` under `key`: two rounds after each
/// absorbed word, four at the end.
#[must_use]
pub fn siphash24(message: &[u8], key: &[u8; 16]) -> (digest: [u8; 8])
    ensures
        digest@ == siphash(message@, key@, 2, 4),
{
    let mut hasher = SipHasher::new(2, 4, key);
    hasher.hash(message)
}

/// Why a digest was refused.
#[derive(Debug, Clone, Copy, PartialEq, Eq, Structural)]
pub enum HashError {
    /// The key does not have exactly 16 bytes; `len` is the length it has.
    InvalidKeyLength { len: usize },
}

/// The digest of `message` under `key` with the given round counts, for a
/// key that arrives as a buffer of any length. A key of any length but 16 is
/// refused before anything is computed.
pub fn hash_with_rounds(message: &[u8], key: &[u8], comp_rounds: u8, fin_rounds: u8) -> (result:
    Result<[u8; 8], HashError>)
    ensures
        match result {
            Ok(digest) => key@.len() == 16 && digest@ == siphash(
                message@,
                key@,
                comp_rounds,
                fin_rounds,
            ),
            Err(error) => key@.len() != 16 && error == (HashError::InvalidKeyLength {
                len: key@.len() as usize,
            }),
        },
{
    if key.len() != KEY_LEN {
        return Err(HashError::InvalidKeyLength { len: key.len() });
    }
    let key_array: [u8; 16] = [
        key[0],
        key[1],
        key[2],
        key[3],
        key[4],
        key[5],
        key[6],
        key[7],
        key[8],
        key[9],
        key[10],
        key[11],
        key[12],
        key[13],
        key[14],
        key[15],
    ];
    assert(key_array@ =~= key@);
    let mut hasher = SipHasher::new(comp_rounds, fin_rounds, &key_array);
    Ok(hasher.hash(message))
}

/// The round count that a wider integer stands for: the integer modulo 256.
pub fn round_count(value: i64) -> (count: u8)
    ensures
        count == value as int % 256,
{
    let count: u8 = #[verifier::truncate]
    (value as u8);
    assert(count == value as int % 256) by (bit_vector)
        requires
            count == value as u8,
    ;
    count
}

/// A length shifted to the top byte leaves its low eight bits there and
/// nothing below.
proof fn lemma_length_lanes(size: u64)
    by (bit_vector)
    ensures
        forall|j: u64|
            j < 8 ==> #[trigger] lane(size << 56, j) == (if j == 7 {
                (size % 256) as u8
            } else {
                0u8
            }),
{
}

/// Or-ing a byte into an empty byte of a word fills that byte and leaves the
/// others.
proof fn lemma_or_fills_lane(x: u64, byte: u8, i: u64)
    by (bit_vector)
    requires
        i < 8,
        lane(x, i) == 0,
    ensures
        forall|j: u64|
            j < 8 ==> #[trigger] lane(x | (byte as u64) << (8 * i) as u64, j) == (if j == i {
                byte
            } else {
                lane(x, j)
            }),
{
}

} // verus!
