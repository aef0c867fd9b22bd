//! The digest engine: the five-word hash state and its public operations.
use vstd::prelude::*;

use crate::compress::{compress, ingest_blocks, lemma_ingest_blocks_append, rounds};
use crate::error::Sha1Error;
use crate::padding::{lemma_padded_append, lemma_padded_shape, padded};
use crate::hex::{is_lower_hex, lemma_word_hex_is_lower_hex, push_word_hex, word_hex};

verus! {

/// Initial hash words fixed by the algorithm.
pub const H0_INIT: u32 = 0x67452301;
pub const H1_INIT: u32 = 0xefcdab89;
pub const H2_INIT: u32 = 0x98badcfe;
pub const H3_INIT: u32 = 0x10325476;
pub const H4_INIT: u32 = 0xc3d2e1f0;

/// The five hash words, as one value.
pub type HashWords = (u32, u32, u32, u32, u32);

/// The hash state before any block has been compressed.
pub open spec fn initial_words() -> HashWords {
    (H0_INIT, H1_INIT, H2_INIT, H3_INIT, H4_INIT)
}

/// The digest text of hash state `h`: each word as eight lowercase
/// hexadecimal digits, in order.
pub open spec fn digest_spec(h: HashWords) -> Seq<char> {
    word_hex(h.0) + word_hex(h.1) + word_hex(h.2) + word_hex(h.3) + word_hex(h.4)
}

/// The 64 bytes of `bytes` starting at `start`, as a block.
fn read_block(bytes: &[u8], start: usize) -> (r: [u8; 64])
    requires
        start + 64 <= bytes@.len(),
    ensures
        r@ == bytes@.subrange(start as int, start + 64),
{
    let len = bytes.len();
    let mut block: [u8; 64] = [0u8; 64];
    let mut i: usize = 0;
    while i < 64
        invariant
            i <= 64,
            len == bytes@.len(),
            start + 64 <= bytes@.len(),
            forall|j: int| 0 <= j < i ==> block@[j] == bytes@[start + j],
        decreases 64 - i,
    {
        block[i] = bytes[start + i];
        i = i + 1;
    }
    assert(block@ =~= bytes@.subrange(start as int, start + 64));
    block
}

/// A running SHA-1 computation: the intermediate hash after the blocks
/// compressed so far.
pub struct SHA1 {
    h0: u32,
    h1: u32,
    h2: u32,
    h3: u32,
    h4: u32,
}

impl View for SHA1 {
    type V = HashWords;

    closed spec fn view(&self) -> HashWords {
        (self.h0, self.h1, self.h2, self.h3, self.h4)
    }
}

impl SHA1 {
    /// A fresh engine holding the initial hash words.
    pub fn new() -> (r: Self)
        ensures
            r@ == initial_words(),
    {
        SHA1 { h0: H0_INIT, h1: H1_INIT, h2: H2_INIT, h3: H3_INIT, h4: H4_INIT }
    }

    /// An engine holding the given hash words, for resuming a computation
    /// from a known intermediate state.
    pub fn from_words(h0: u32, h1: u32, h2: u32, h3: u32, h4: u32) -> (r: Self)
        ensures
            r@ == (h0, h1, h2, h3, h4),
    {
        SHA1 { h0, h1, h2, h3, h4 }
    }

    /// The current hash state rendered as 40 lowercase hexadecimal digits.
    pub fn digest(&self) -> (r: String)
        ensures
            r@ == digest_spec(self@),
            r@.len() == 40,
            forall|i: int| 0 <= i < 40 ==> is_lower_hex(#[trigger] r@[i]),
    {
        let mut s = String::new();
        push_word_hex(&mut s, self.h0);
        push_word_hex(&mut s, self.h1);
        push_word_hex(&mut s, self.h2);
        push_word_hex(&mut s, self.h3);
        push_word_hex(&mut s, self.h4);
        proof {
            lemma_digest_is_lower_hex(self@);
        }
        s
    }

    /// Compresses each 64-byte block of `stream` in order. A stream whose
    /// length is not a multiple of 64 is refused and the state left as it was.
    pub fn ingest(&mut self, stream: Vec<u8>) -> (r: Result<(), Sha1Error>)
        ensures
            r is Ok <==> stream@.len() % 64 == 0,
            r is Ok ==> final(self)@ == ingest_blocks(old(self)@, stream@),
            r is Err ==> final(self)@ == old(self)@ && r == Err::<(), Sha1Error>(
                Sha1Error::BadMessageSize { len: stream@.len() as usize },
            ),
    {
        let n = stream.len();
        if n % 64 != 0 {
            return Err(Sha1Error::BadMessageSize { len: n });
        }
        let ghost h = self@;
        let mut i: usize = 0;
        while i < n
            invariant
                n == stream@.len(),
                n % 64 == 0,
                i % 64 == 0,
                i <= n,
                self@ == ingest_blocks(h, stream@.subrange(0, i as int)),
            decreases n - i,
        {
            let block = read_block(stream.as_slice(), i);
            self.ingest_chunk(block);
            proof {
                let prefix = stream@.subrange(0, i + 64);
                assert(prefix.subrange(0, prefix.len() - 64) =~= stream@.subrange(0, i as int));
                assert(prefix.subrange(prefix.len() - 64, prefix.len() as int) =~= block@);
            }
            i = i + 64;
        }
        assert(stream@.subrange(0, n as int) =~= stream@);
        Ok(())
    }

    /// Compresses one 64-byte block, given as a slice, into the hash state.
    pub fn ingest_block(&mut self, block: &[u8])
        requires
            block@.len() == 64,
        ensures
            final(self)@ == compress(old(self)@, block@),
    {
        let chunk = read_block(block, 0);
        assert(block@.subrange(0, 64) =~= block@);
        self.ingest_chunk(chunk);
    }

    /// Compresses one 64-byte block into the hash state.
    pub fn ingest_chunk(&mut self, chunk: [u8; 64])
        ensures
            final(self)@ == compress(old(self)@, chunk@),
    {
        let w = self.prepare_message_schedule(chunk);
        let ghost h = self@;
        let ghost ws = w@;
        let mut a: u32 = self.h0;
        let mut b: u32 = self.h1;
        let mut c: u32 = self.h2;
        let mut d: u32 = self.h3;
        let mut e: u32 = self.h4;
        let mut t: usize = 0;
        while t < 80
            invariant
                t <= 80,
                h == self@,
                w@ == ws,
                (a, b, c, d, e) == rounds(h, ws, t as nat),
            decreases 80 - t,
        {
            let tmp: u32 = self.rotl_u32(a, 5)
                .wrapping_add(self.f(b, c, d, t))
                .wrapping_add(e)
                .wrapping_add(self.K(t))
                .wrapping_add(w[t]);
            e = d;
            d = c;
            c = self.rotl_u32(b, 30);
            b = a;
            a = tmp;
            assert((a, b, c, d, e) == rounds(h, ws, (t + 1) as nat));
            t = t + 1;
        }
        self.h0 = a.wrapping_add(self.h0);
        self.h1 = b.wrapping_add(self.h1);
        self.h2 = c.wrapping_add(self.h2);
        self.h3 = d.wrapping_add(self.h3);
        self.h4 = e.wrapping_add(self.h4);
    }
}

/// Streaming a message in pieces hashes it as a whole: compressing whole
/// blocks `a` first and then the padded rest `b` gives the state that
/// compressing the padded concatenation `a + b` gives.
pub proof fn lemma_split_message(h: HashWords, a: Seq<u8>, b: Seq<u8>, total: nat)
    requires
        a.len() % 64 == 0,
    ensures
        ingest_blocks(ingest_blocks(h, a), padded(b, total)) == ingest_blocks(
            h,
            padded(a + b, total),
        ),
{
    lemma_padded_shape(b, total);
    lemma_ingest_blocks_append(h, a, padded(b, total));
    lemma_padded_append(a, b, total);
}

/// The digest text is always 40 lowercase hexadecimal digits.
pub proof fn lemma_digest_is_lower_hex(h: HashWords)
    ensures
        digest_spec(h).len() == 40,
        forall|i: int| 0 <= i < 40 ==> is_lower_hex(#[trigger] digest_spec(h)[i]),
{
    lemma_word_hex_is_lower_hex(h.0);
    lemma_word_hex_is_lower_hex(h.1);
    lemma_word_hex_is_lower_hex(h.2);
    lemma_word_hex_is_lower_hex(h.3);
    lemma_word_hex_is_lower_hex(h.4);
    let d = digest_spec(h);
    assert forall|i: int| 0 <= i < 40 implies is_lower_hex(#[trigger] d[i]) by {
        if i < 8 {
            assert(d[i] == word_hex(h.0)[i]);
        } else if i < 16 {
            assert(d[i] == word_hex(h.1)[i - 8]);
        } else if i < 24 {
            assert(d[i] == word_hex(h.2)[i - 16]);
        } else if i < 32 {
            assert(d[i] == word_hex(h.3)[i - 24]);
        } else {
            assert(d[i] == word_hex(h.4)[i - 32]);
        }
    }
}

} // verus!
