//! The compression function as a mathematical model: eighty steps over the
//! working variables, then the words folded back into the hash state.
use vstd::prelude::*;

use crate::engine::HashWords;
use crate::schedule::schedule;
use crate::words::{f_spec, k_spec, rotl};

verus! {

/// Addition modulo 2^32.
pub open spec fn add32(x: u32, y: u32) -> u32 {
    if x + y < 0x1_0000_0000 {
        (x + y) as u32
    } else {
        (x + y - 0x1_0000_0000) as u32
    }
}

/// One step `t` of the compression, with schedule word `w`, on the working
/// variables `(a, b, c, d, e)`.
pub open spec fn step(v: HashWords, w: u32, t: int) -> HashWords {
    let tmp = add32(add32(add32(add32(rotl(v.0, 5), f_spec(v.1, v.2, v.3, t)), v.4), k_spec(t)), w);
    (tmp, v.0, rotl(v.1, 30), v.2, v.3)
}

/// The working variables after the first `t` steps over schedule `w`.
pub open spec fn rounds(v: HashWords, w: Seq<u32>, t: nat) -> HashWords
    decreases t,
{
    if t == 0 {
        v
    } else {
        step(rounds(v, w, (t - 1) as nat), w[t - 1], t - 1)
    }
}

/// The hash state after compressing one 64-byte `block` into `h`.
pub open spec fn compress(h: HashWords, block: Seq<u8>) -> HashWords {
    let v = rounds(h, schedule(block), 80);
    (add32(h.0, v.0), add32(h.1, v.1), add32(h.2, v.2), add32(h.3, v.3), add32(h.4, v.4))
}

/// The hash state after compressing each 64-byte block of `bytes` in turn,
/// starting from `h`.
pub open spec fn ingest_blocks(h: HashWords, bytes: Seq<u8>) -> HashWords
    decreases bytes.len(),
{
    if bytes.len() < 64 {
        h
    } else {
        compress(
            ingest_blocks(h, bytes.subrange(0, bytes.len() - 64)),
            bytes.subrange(bytes.len() - 64, bytes.len() as int),
        )
    }
}

/// Compressing the blocks of `a` and then those of `b` gives the state that
/// compressing the blocks of `a + b` gives, when both are whole blocks.
pub proof fn lemma_ingest_blocks_append(h: HashWords, a: Seq<u8>, b: Seq<u8>)
    requires
        a.len() % 64 == 0,
        b.len() % 64 == 0,
    ensures
        ingest_blocks(ingest_blocks(h, a), b) == ingest_blocks(h, a + b),
    decreases b.len(),
{
    let c = a + b;
    if b.len() < 64 {
        assert(c =~= a);
    } else {
        let b0 = b.subrange(0, b.len() - 64);
        lemma_ingest_blocks_append(h, a, b0);
        assert(c.subrange(0, c.len() - 64) =~= a + b0);
        assert(c.subrange(c.len() - 64, c.len() as int) =~= b.subrange(
            b.len() - 64,
            b.len() as int,
        ));
    }
}

} // verus!
