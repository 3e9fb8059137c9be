//! 64-bit words and the bytes they are read from and written to.
//!
//! Message blocks and key halves are read little-endian; the digest is
//! written big-endian. Both directions are defined here once, together with
//! the bit rotation that the permutation is built from.

use vstd::prelude::*;

verus! {

/// Bit `i` of `x`, counted from the least significant end.
pub open spec fn bit(x: u64, i: u64) -> bool {
    (x >> i) & 1 == 1
}

/// Byte `j` of `x`, counted from the least significant end.
pub open spec fn lane(x: u64, j: u64) -> u8 {
    ((x >> (8 * j) as u64) & 0xff) as u8
}

/// `x` rotated to the left by `n` positions: every bit moves up by `n`, and
/// the bits that leave at the top come back in at the bottom. Only `n`
/// modulo 64 matters.
pub open spec fn rotate_left(x: u64, n: u32) -> u64 {
    let k = n % 64;
    if k == 0 {
        x
    } else {
        (x << k) | (x >> ((64 - k) as u32))
    }
}

/// The word that an 8-byte block denotes when read little-endian: byte `j` of
/// the block becomes byte `j` of the word.
pub open spec fn le_word(block: Seq<u8>) -> u64
    recommends
        block.len() == 8,
{
    (block[0] as u64) | (block[1] as u64) << 8 | (block[2] as u64) << 16 | (block[3] as u64) << 24
        | (block[4] as u64) << 32 | (block[5] as u64) << 40 | (block[6] as u64) << 48 | (
    block[7] as u64) << 56
}

/// The eight bytes of `x`, most significant first.
pub open spec fn be_bytes(x: u64) -> Seq<u8> {
    seq![
        (x >> 56) as u8,
        (x >> 48) as u8,
        (x >> 40) as u8,
        (x >> 32) as u8,
        (x >> 24) as u8,
        (x >> 16) as u8,
        (x >> 8) as u8,
        x as u8,
    ]
}

/// The number that eight bytes denote when the first byte weighs least.
pub open spec fn le_value(block: Seq<u8>) -> int
    recommends
        block.len() == 8,
{
    block[0] + block[1] * 0x100 + block[2] * 0x1_0000 + block[3] * 0x100_0000 + block[4]
        * 0x1_0000_0000 + block[5] * 0x100_0000_0000 + block[6] * 0x1_0000_0000_0000 + block[7]
        * 0x100_0000_0000_0000
}

/// The number that eight bytes denote when the first byte weighs most.
pub open spec fn be_value(bytes: Seq<u8>) -> int
    recommends
        bytes.len() == 8,
{
    bytes[7] + bytes[6] * 0x100 + bytes[5] * 0x1_0000 + bytes[4] * 0x100_0000 + bytes[3]
        * 0x1_0000_0000 + bytes[2] * 0x100_0000_0000 + bytes[1] * 0x1_0000_0000_0000 + bytes[0]
        * 0x100_0000_0000_0000
}

/// Rotates `x` to the left by `n` bit positions.
pub fn rotl(x: u64, n: u32) -> (r: u64)
    ensures
        r == rotate_left(x, n),
{
    let k: u32 = n % 64;
    if k == 0 {
        x
    } else {
        (x << k) | (x >> (64 - k))
    }
}

/// Reads the eight bytes of `bytes` that start at `at` as a little-endian
/// word.
pub fn load_le(bytes: &[u8], at: usize) -> (word: u64)
    requires
        at + 8 <= bytes@.len(),
    ensures
        word == le_word(bytes@.subrange(at as int, at + 8)),
{
    (bytes[at] as u64) | (bytes[at + 1] as u64) << 8 | (bytes[at + 2] as u64) << 16 | (bytes[at
        + 3] as u64) << 24 | (bytes[at + 4] as u64) << 32 | (bytes[at + 5] as u64) << 40 | (
    bytes[at + 6] as u64) << 48 | (bytes[at + 7] as u64) << 56
}

/// Writes `x` as eight bytes, most significant first.
pub fn store_be(x: u64) -> (bytes: [u8; 8])
    ensures
        bytes@ == be_bytes(x),
{
    let bytes: [u8; 8] = [
        #[verifier::truncate]
        ((x >> 56) as u8),
        #[verifier::truncate]
        ((x >> 48) as u8),
        #[verifier::truncate]
        ((x >> 40) as u8),
        #[verifier::truncate]
        ((x >> 32) as u8),
        #[verifier::truncate]
        ((x >> 24) as u8),
        #[verifier::truncate]
        ((x >> 16) as u8),
        #[verifier::truncate]
        ((x >> 8) as u8),
        #[verifier::truncate]
        (x as u8),
    ];
    assert(bytes@ =~= be_bytes(x));
    bytes
}

/// Rotation moves bits and loses none: bit `i` of `x` is bit `(i + n) mod 64`
/// of `x` rotated to the left by `n`.
pub proof fn lemma_rotate_left_moves_bits(x: u64, n: u32, i: u64)
    requires
        i < 64,
    ensures
        bit(rotate_left(x, n), ((i + n) % 64) as u64) == bit(x, i),
{
    let k = (n % 64) as u64;
    let to = ((i + k) % 64) as u64;
    assert(to == ((i + n) % 64) as u64);
    if k != 0 {
        let r = (x << k) | (x >> ((64 - k) as u64));
        assert(((r >> to) & 1 == 1) == ((x >> i) & 1 == 1)) by (bit_vector)
            requires
                0 < k < 64,
                i < 64,
                to == (i + k) % 64,
                r == (x << k) | (x >> ((64 - k) as u64)),
        ;
    }
}

/// Reading little-endian keeps every byte in its place: byte `j` of the word
/// is byte `j` of the block.
pub proof fn lemma_le_word_lanes(block: Seq<u8>, j: u64)
    requires
        block.len() == 8,
        j < 8,
    ensures
        lane(le_word(block), j) == block[j as int],
{
    lemma_lanes_of_bytes(
        block[0],
        block[1],
        block[2],
        block[3],
        block[4],
        block[5],
        block[6],
        block[7],
    );
}

/// The little-endian word of a block is the number in which byte `j` of the
/// block weighs `256^j`.
pub proof fn lemma_le_word_value(block: Seq<u8>)
    requires
        block.len() == 8,
    ensures
        le_word(block) == le_value(block),
{
    lemma_value_of_bytes(
        block[0],
        block[1],
        block[2],
        block[3],
        block[4],
        block[5],
        block[6],
        block[7],
    );
}

/// Writing big-endian loses nothing: the eight bytes of `x`, read with the
/// first byte weighing most, give `x` back.
pub proof fn lemma_be_bytes_value(x: u64)
    ensures
        be_bytes(x).len() == 8,
        be_value(be_bytes(x)) == x,
        forall|j: u64| j < 8 ==> be_bytes(x)[7 - j] == #[trigger] lane(x, j),
{
    assert(x == (x as u8) + ((x >> 8) as u8) * 0x100 + ((x >> 16) as u8) * 0x1_0000 + ((x
        >> 24) as u8) * 0x100_0000 + ((x >> 32) as u8) * 0x1_0000_0000 + ((x >> 40) as u8)
        * 0x100_0000_0000 + ((x >> 48) as u8) * 0x1_0000_0000_0000 + ((x >> 56) as u8)
        * 0x100_0000_0000_0000) by (bit_vector);
    assert forall|j: u64| j < 8 implies be_bytes(x)[7 - j] == #[trigger] lane(x, j) by {
        assert(j < 8 ==> ((x >> (8 * j) as u64) & 0xff) as u8 == (if j == 0 {
            x as u8
        } else if j == 1 {
            (x >> 8) as u8
        } else if j == 2 {
            (x >> 16) as u8
        } else if j == 3 {
            (x >> 24) as u8
        } else if j == 4 {
            (x >> 32) as u8
        } else if j == 5 {
            (x >> 40) as u8
        } else if j == 6 {
            (x >> 48) as u8
        } else {
            (x >> 56) as u8
        })) by (bit_vector);
    }
}

/// Two words with the same eight bytes are the same word.
pub proof fn lemma_lanes_determine_word(x: u64, y: u64)
    requires
        forall|j: u64| j < 8 ==> lane(x, j) == lane(y, j),
    ensures
        x == y,
{
    assert(lane(x, 0) == lane(y, 0));
    assert(lane(x, 1) == lane(y, 1));
    assert(lane(x, 2) == lane(y, 2));
    assert(lane(x, 3) == lane(y, 3));
    assert(lane(x, 4) == lane(y, 4));
    assert(lane(x, 5) == lane(y, 5));
    assert(lane(x, 6) == lane(y, 6));
    assert(lane(x, 7) == lane(y, 7));
    assert(x == y) by (bit_vector)
        requires
            lane(x, 0) == lane(y, 0),
            lane(x, 1) == lane(y, 1),
            lane(x, 2) == lane(y, 2),
            lane(x, 3) == lane(y, 3),
            lane(x, 4) == lane(y, 4),
            lane(x, 5) == lane(y, 5),
            lane(x, 6) == lane(y, 6),
            lane(x, 7) == lane(y, 7),
    ;
}

proof fn lemma_lanes_of_bytes(b0: u8, b1: u8, b2: u8, b3: u8, b4: u8, b5: u8, b6: u8, b7: u8)
    by (bit_vector)
    ensures
        forall|j: u64|
            j < 8 ==> #[trigger] lane(
                (b0 as u64) | (b1 as u64) << 8 | (b2 as u64) << 16 | (b3 as u64) << 24 | (b4 as u64)
                    << 32 | (b5 as u64) << 40 | (b6 as u64) << 48 | (b7 as u64) << 56,
                j,
            ) == (if j == 0 {
                b0
            } else if j == 1 {
                b1
            } else if j == 2 {
                b2
            } else if j == 3 {
                b3
            } else if j == 4 {
                b4
            } else if j == 5 {
                b5
            } else if j == 6 {
                b6
            } else {
                b7
            }),
{
}

proof fn lemma_value_of_bytes(b0: u8, b1: u8, b2: u8, b3: u8, b4: u8, b5: u8, b6: u8, b7: u8)
    by (bit_vector)
    ensures
        ((b0 as u64) | (b1 as u64) << 8 | (b2 as u64) << 16 | (b3 as u64) << 24 | (b4 as u64) << 32
            | (b5 as u64) << 40 | (b6 as u64) << 48 | (b7 as u64) << 56) == b0 + b1 * 0x100 + b2
            * 0x1_0000 + b3 * 0x100_0000 + b4 * 0x1_0000_0000 + b5 * 0x100_0000_0000 + b6
            * 0x1_0000_0000_0000 + b7 * 0x100_0000_0000_0000,
{
}

} // verus!
