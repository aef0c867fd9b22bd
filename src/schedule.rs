//! The message schedule: eighty words expanded from one 64-byte block.
use vstd::prelude::*;

use crate::engine::SHA1;
use crate::words::rotl;

verus! {

/// The `i`-th big-endian 32-bit word of `b`.
pub open spec fn be_word(b: Seq<u8>, i: int) -> u32 {
    (b[4 * i] as int * 0x1000000 + b[4 * i + 1] as int * 0x10000 + b[4 * i + 2] as int * 0x100
        + b[4 * i + 3] as int) as u32
}

/// Word `t` of the schedule of `block`: the block's own words first, then
/// each word the rotated exclusive-or of four earlier ones.
pub open spec fn schedule_word(block: Seq<u8>, t: nat) -> u32
    decreases t,
{
    if t < 16 {
        be_word(block, t as int)
    } else {
        rotl(
            schedule_word(block, (t - 3) as nat) ^ schedule_word(block, (t - 8) as nat)
                ^ schedule_word(block, (t - 14) as nat) ^ schedule_word(block, (t - 16) as nat),
            1,
        )
    }
}

/// The whole schedule of `block`.
pub open spec fn schedule(block: Seq<u8>) -> Seq<u32> {
    Seq::new(80, |t: int| schedule_word(block, t as nat))
}

impl SHA1 {
    /// Expands one block into its eighty schedule words.
    pub fn prepare_message_schedule(&self, chunk: [u8; 64]) -> (r: [u32; 80])
        ensures
            r@ == schedule(chunk@),
            forall|i: int| 0 <= i < 16 ==> r@[i] == be_word(chunk@, i),
            forall|t: int|
                16 <= t < 80 ==> #[trigger] r@[t] == rotl(
                    r@[t - 3] ^ r@[t - 8] ^ r@[t - 14] ^ r@[t - 16],
                    1,
                ),
    {
        let mut w: [u32; 80] = [0u32; 80];
        let mut i: usize = 0;
        while i < 16
            invariant
                i <= 16,
                forall|j: int| 0 <= j < i ==> w@[j] == schedule_word(chunk@, j as nat),
            decreases 16 - i,
        {
            let b0: u32 = chunk[4 * i] as u32;
            let b1: u32 = chunk[4 * i + 1] as u32;
            let b2: u32 = chunk[4 * i + 2] as u32;
            let b3: u32 = chunk[4 * i + 3] as u32;
            w[i] = b0 * 0x1000000 + b1 * 0x10000 + b2 * 0x100 + b3;
            i = i + 1;
        }
        while i < 80
            invariant
                16 <= i <= 80,
                forall|j: int| 0 <= j < i ==> w@[j] == schedule_word(chunk@, j as nat),
            decreases 80 - i,
        {
            let x: u32 = w[i - 3] ^ w[i - 8] ^ w[i - 14] ^ w[i - 16];
            w[i] = self.rotl_u32(x, 1);
            i = i + 1;
        }
        assert(w@ =~= schedule(chunk@));
        w
    }
}

} // verus!
