//! Word-level helpers: rotation, the three round functions and the round
//! constants.
use vstd::prelude::*;

use crate::engine::SHA1;

verus! {

/// Circular left rotation of a 32-bit word by `n` places, `1 <= n <= 31`.
pub open spec fn rotl(v: u32, n: u32) -> u32 {
    ((v << n) | (v >> (32u32 - n) as u32)) as u32
}

/// The choice function: bits of `y` where `x` is set, of `z` elsewhere.
pub open spec fn ch_spec(x: u32, y: u32, z: u32) -> u32 {
    (x & y) ^ (!x & z)
}

/// The parity function.
pub open spec fn parity_spec(x: u32, y: u32, z: u32) -> u32 {
    x ^ y ^ z
}

/// The majority function.
pub open spec fn maj_spec(x: u32, y: u32, z: u32) -> u32 {
    (x & y) ^ (x & z) ^ (y & z)
}

/// The round constant of step `t`, `0 <= t < 80`.
pub open spec fn k_spec(t: int) -> u32 {
    if t < 20 {
        0x5a827999
    } else if t < 40 {
        0x6ed9eba1
    } else if t < 60 {
        0x8f1bbcdc
    } else {
        0xca62c1d6
    }
}

/// The round function of step `t`, `0 <= t < 80`.
pub open spec fn f_spec(x: u32, y: u32, z: u32, t: int) -> u32 {
    if t < 20 {
        ch_spec(x, y, z)
    } else if t < 40 {
        parity_spec(x, y, z)
    } else if t < 60 {
        maj_spec(x, y, z)
    } else {
        parity_spec(x, y, z)
    }
}

impl SHA1 {
    /// Rotates `v` left by `n` places.
    pub fn rotl_u32(&self, v: u32, n: u8) -> (r: u32)
        requires
            1 <= n <= 31,
        ensures
            r == rotl(v, n as u32),
    {
        let n32: u32 = n as u32;
        (v << n32) | (v >> (32 - n32))
    }

    /// The choice function of the first twenty steps.
    pub fn ch(&self, x: u32, y: u32, z: u32) -> (r: u32)
        ensures
            r == ch_spec(x, y, z),
    {
        (x & y) ^ (!x & z)
    }

    /// The parity function of steps 20 to 39 and 60 to 79.
    pub fn parity(&self, x: u32, y: u32, z: u32) -> (r: u32)
        ensures
            r == parity_spec(x, y, z),
    {
        x ^ y ^ z
    }

    /// The majority function of steps 40 to 59.
    pub fn maj(&self, x: u32, y: u32, z: u32) -> (r: u32)
        ensures
            r == maj_spec(x, y, z),
    {
        (x & y) ^ (x & z) ^ (y & z)
    }

    /// The round constant of step `t`.
    #[allow(non_snake_case)]
    pub fn K(&self, t: usize) -> (r: u32)
        requires
            t < 80,
        ensures
            r == k_spec(t as int),
    {
        if t < 20 {
            0x5a827999
        } else if t < 40 {
            0x6ed9eba1
        } else if t < 60 {
            0x8f1bbcdc
        } else {
            0xca62c1d6
        }
    }

    /// The round function of step `t`: choice, parity, majority, parity, by
    /// twenty-step ranges.
    pub fn f(&self, x: u32, y: u32, z: u32, t: usize) -> (r: u32)
        requires
            t < 80,
        ensures
            r == f_spec(x, y, z, t as int),
    {
        if t < 20 {
            self.ch(x, y, z)
        } else if t < 40 {
            self.parity(x, y, z)
        } else if t < 60 {
            self.maj(x, y, z)
        } else {
            self.parity(x, y, z)
        }
    }
}

} // verus!
