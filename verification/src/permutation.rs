//! The mixing permutation: one round of additions, rotations and xors over
//! four 64-bit words, and its repetition.

use crate::words::rotate_left;
use vstd::prelude::*;

verus! {

/// The four words that a hash computation carries.
pub struct SipState {
    pub v0: u64,
    pub v1: u64,
    pub v2: u64,
    pub v3: u64,
}

/// Addition modulo 2^64.
pub open spec fn add64(a: u64, b: u64) -> u64 {
    ((a + b) % 0x1_0000_0000_0000_0000) as u64
}

/// One round. Each half adds the two pairs of words, rotates and xors the odd
/// words into the sums, and swaps the halves of one even word; the second
/// half pairs the words the other way round.
pub open spec fn sip_round(s: SipState) -> SipState {
    let a0 = add64(s.v0, s.v1);
    let a2 = add64(s.v2, s.v3);
    let b1 = rotate_left(s.v1, 13) ^ a0;
    let b3 = rotate_left(s.v3, 16) ^ a2;
    let c0 = add64(rotate_left(a0, 32), b3);
    let c2 = add64(a2, b1);
    SipState {
        v0: c0,
        v1: rotate_left(b1, 17) ^ c2,
        v2: rotate_left(c2, 32),
        v3: rotate_left(b3, 21) ^ c0,
    }
}

/// `n` rounds, one after the other. No round leaves the words as they are.
pub open spec fn sip_rounds(s: SipState, n: nat) -> SipState
    decreases n,
{
    if n == 0 {
        s
    } else {
        sip_round(sip_rounds(s, (n - 1) as nat))
    }
}

} // verus!
