//! Message padding: the marker byte, zeros, and the 64-bit big-endian bit
//! length, up to a multiple of 64 bytes.
use vstd::prelude::*;

use crate::engine::SHA1;
use crate::error::Sha1Error;

verus! {

/// The largest message length, in bytes, whose bit length fits in 64 bits.
pub const MAX_MESSAGE_BYTES: u64 = 0x1fff_ffff_ffff_ffff;

/// The padded length of a buffer of `len` bytes: the smallest multiple of 64
/// that is at least `len + 9`.
pub open spec fn padded_len(len: nat) -> nat {
    ((len + 72) / 64 * 64) as nat
}

/// Byte `i` (`0 <= i < 8`) of the big-endian encoding of `v`.
pub open spec fn be64_byte(v: u64, i: int) -> u8 {
    ((v >> ((56 - 8 * i) as u64)) & 0xff) as u8
}

/// `msg` padded as the final buffer of a message of `total` bytes in all:
/// `msg`, the marker byte 0x80, zeros, then the bit length `8 * total` in
/// eight big-endian bytes.
pub open spec fn padded(msg: Seq<u8>, total: nat) -> Seq<u8> {
    let n = padded_len(msg.len()) as int;
    Seq::new(
        n as nat,
        |i: int|
            if i < msg.len() {
                msg[i]
            } else if i == msg.len() {
                0x80u8
            } else if i < n - 8 {
                0u8
            } else {
                be64_byte((total * 8) as u64, i - (n - 8))
            },
    )
}

/// The shape of a padded buffer: its length is the smallest multiple of 64
/// that holds the message, the marker byte and the eight length bytes; the
/// marker follows the message, zeros follow the marker, and the last eight
/// bytes are the big-endian bit length.
pub proof fn lemma_padded_shape(msg: Seq<u8>, total: nat)
    ensures
        padded(msg, total).len() % 64 == 0,
        padded(msg, total).len() >= msg.len() + 9,
        padded(msg, total).len() < msg.len() + 9 + 64,
        padded(msg, total).subrange(0, msg.len() as int) == msg,
        padded(msg, total)[msg.len() as int] == 0x80,
        forall|i: int|
            msg.len() < i < padded(msg, total).len() - 8 ==> #[trigger] padded(msg, total)[i]
                == 0,
        forall|i: int|
            0 <= i < 8 ==> #[trigger] padded(msg, total)[padded(msg, total).len() - 8 + i]
                == be64_byte((total * 8) as u64, i),
{
    let p = padded(msg, total);
    assert(p.subrange(0, msg.len() as int) =~= msg);
}

/// Padding the concatenation `a + b`, where `a` is whole blocks, leaves `a`
/// as it is and pads `b` as the final buffer.
pub proof fn lemma_padded_append(a: Seq<u8>, b: Seq<u8>, total: nat)
    requires
        a.len() % 64 == 0,
    ensures
        padded(a + b, total) == a + padded(b, total),
{
    let la = a.len() as int;
    let lb = b.len() as int;
    assert((la + lb + 72) / 64 * 64 == la + (lb + 72) / 64 * 64) by (nonlinear_arith)
        requires
            la % 64 == 0,
            la >= 0,
            lb >= 0,
    ;
    assert(padded(a + b, total) =~= a + padded(b, total));
}

/// Appends the eight big-endian bytes of `v` to `buf`.
fn push_be64(buf: &mut Vec<u8>, v: u64)
    ensures
        final(buf)@.len() == old(buf)@.len() + 8,
        forall|i: int| 0 <= i < old(buf)@.len() ==> final(buf)@[i] == old(buf)@[i],
        forall|i: int| 0 <= i < 8 ==> final(buf)@[old(buf)@.len() + i] == be64_byte(v, i),
{
    let ghost start = buf@.len();
    let mut i: u64 = 0;
    while i < 8
        invariant
            i <= 8,
            buf@.len() == start + i,
            forall|j: int| 0 <= j < start ==> buf@[j] == old(buf)@[j],
            forall|j: int| 0 <= j < i ==> buf@[start + j] == be64_byte(v, j),
        decreases 8 - i,
    {
        let shift: u64 = 56 - 8 * i;
        buf.push(((v >> shift) & 0xff) as u8);
        i = i + 1;
    }
}

impl SHA1 {
    /// Pads `message`, the final buffer of a message of `total_size` bytes,
    /// in place. Refused, leaving `message` as it was, when the bit length
    /// `8 * total_size` does not fit in 64 bits.
    pub fn pad_message(&self, message: &mut Vec<u8>, total_size: usize) -> (r: Result<
        (),
        Sha1Error,
    >)
        requires
            old(message)@.len() + 72 <= usize::MAX,
        ensures
            r is Ok <==> total_size <= MAX_MESSAGE_BYTES,
            r is Ok ==> final(message)@ == padded(old(message)@, total_size as nat),
            r is Err ==> final(message)@ == old(message)@ && r == Err::<(), Sha1Error>(
                Sha1Error::MessageTooLarge { total_size },
            ),
    {
        let total: u64 = total_size as u64;
        if total > MAX_MESSAGE_BYTES {
            return Err(Sha1Error::MessageTooLarge { total_size });
        }
        let bits: u64 = total * 8;
        let msg_len = message.len();
        let new_size: usize = (msg_len + 72) / 64 * 64;
        message.push(0x80);
        while message.len() < new_size - 8
            invariant
                msg_len + 72 <= usize::MAX,
                new_size == padded_len(msg_len as nat),
                msg_len < message@.len() <= new_size - 8,
                forall|j: int| 0 <= j < msg_len ==> message@[j] == old(message)@[j],
                message@[msg_len as int] == 0x80,
                forall|j: int| msg_len < j < message@.len() ==> message@[j] == 0,
            decreases new_size - message@.len(),
        {
            message.push(0);
        }
        push_be64(message, bits);
        assert(message@ =~= padded(old(message)@, total_size as nat));
        Ok(())
    }

    /// Pads a message short enough to fit, with its length, in one block.
    pub fn pad_block(&self, block: &[u8]) -> (r: [u8; 64])
        requires
            block@.len() <= 55,
        ensures
            r@ == padded(block@, block@.len()),
    {
        let len = block.len();
        let mut out: [u8; 64] = [0u8; 64];
        let mut i: usize = 0;
        while i < len
            invariant
                len == block@.len(),
                len <= 55,
                i <= len,
                forall|j: int| 0 <= j < i ==> out@[j] == block@[j],
                forall|j: int| i <= j < 64 ==> out@[j] == 0,
            decreases len - i,
        {
            out[i] = block[i];
            i = i + 1;
        }
        out[len] = 0x80;
        let bits: u64 = len as u64 * 8;
        let mut k: usize = 0;
        while k < 8
            invariant
                len == block@.len(),
                len <= 55,
                bits == len * 8,
                k <= 8,
                forall|j: int| 0 <= j < len ==> out@[j] == block@[j],
                out@[len as int] == 0x80,
                forall|j: int| len < j < 56 ==> out@[j] == 0,
                forall|j: int| 0 <= j < k ==> out@[56 + j] == be64_byte(bits, j),
            decreases 8 - k,
        {
            let shift: u64 = 56 - 8 * k as u64;
            out[56 + k] = ((bits >> shift) & 0xff) as u8;
            k = k + 1;
        }
        assert(out@ =~= padded(block@, block@.len()));
        out
    }
}

} // verus!
