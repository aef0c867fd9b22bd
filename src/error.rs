//! Errors reported by the digest engine and the padder.
use vstd::prelude::*;

verus! {

/// Why an operation of the engine refused its input.
#[derive(Debug, Clone, Copy, PartialEq, Eq, Structural)]
pub enum Sha1Error {
    /// A buffer handed to `ingest` whose length is not a multiple of 64.
    BadMessageSize { len: usize },
    /// A message whose length in bits does not fit in 64 bits.
    MessageTooLarge { total_size: usize },
}

} // verus!
