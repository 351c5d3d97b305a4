//! Read-only data segments and their packing into field elements.

use vstd::prelude::*;

use crate::felt::{Felt, Word};

verus! {

broadcast use crate::felt::group_felt;

/// Represents a read-only data segment, combined with its content digest.
pub struct Rodata {
    /// The content digest computed for `data`.
    pub digest: Word,
    /// The address at which the data for this segment begins.
    pub start: u32,
    /// The raw binary data for this segment.
    pub data: Vec<u8>,
}

/// `ceil(n / d)`.
pub open spec fn spec_div_ceil(n: int, d: int) -> int {
    if n % d == 0 { n / d } else { n / d + 1 }
}

/// The byte at `j`, or zero past the end of `bytes`.
pub open spec fn spec_byte_or_zero(bytes: Seq<u8>, j: int) -> int {
    if 0 <= j < bytes.len() { bytes[j] as int } else { 0 }
}

/// The little-endian `u32` formed by bytes `4i .. 4i + 4`, zero-filled past the end.
pub open spec fn spec_chunk_value(bytes: Seq<u8>, i: int) -> int {
    spec_byte_or_zero(bytes, 4 * i) + 256 * spec_byte_or_zero(bytes, 4 * i + 1) + 65536
        * spec_byte_or_zero(bytes, 4 * i + 2) + 16777216 * spec_byte_or_zero(bytes, 4 * i + 3)
}

/// The number of felts holding `n` bytes: one per four bytes.
pub open spec fn spec_size_in_felts(n: int) -> int {
    spec_div_ceil(n, 4)
}

/// The number of words holding `n` bytes: one per four felts.
pub open spec fn spec_size_in_words(n: int) -> int {
    spec_div_ceil(spec_size_in_felts(n), 4)
}

/// The felts that `bytes` pack into: each felt holds four bytes little-endian (the last one
/// zero-filled), followed by zero felts up to a whole number of words.
pub open spec fn spec_bytes_to_elements(bytes: Seq<u8>, felts: Seq<Felt>) -> bool {
    &&& felts.len() == 4 * spec_size_in_words(bytes.len() as int)
    &&& forall|i: int|
        0 <= i < felts.len() ==> (#[trigger] felts[i])@ == (if i < spec_size_in_felts(
            bytes.len() as int,
        ) {
            spec_chunk_value(bytes, i)
        } else {
            0
        })
}

/// Returns `ceil(n / 4)` without overflow.
fn div_ceil_4(n: usize) -> (r: usize)
    ensures
        r == spec_div_ceil(n as int, 4),
{
    if n % 4 == 0 {
        n / 4
    } else {
        n / 4 + 1
    }
}

impl Rodata {
    /// The size of the segment in bytes.
    pub fn size_in_bytes(&self) -> (r: usize)
        ensures
            r == self.data@.len(),
    {
        self.data.len()
    }

    /// The number of felts the segment occupies.
    pub fn size_in_felts(&self) -> (r: usize)
        ensures
            r == spec_size_in_felts(self.data@.len() as int),
    {
        div_ceil_4(self.data.len())
    }

    /// The number of words the segment occupies.
    pub fn size_in_words(&self) -> (r: usize)
        ensures
            r == spec_size_in_words(self.data@.len() as int),
    {
        div_ceil_4(self.size_in_felts())
    }

    /// Converts this rodata object to its equivalent representation in felts.
    ///
    /// See [Self::bytes_to_elements] for more details.
    pub fn to_elements(&self) -> (r: Vec<Felt>)
        ensures
            spec_bytes_to_elements(self.data@, r@),
    {
        Self::bytes_to_elements(self.data.as_slice())
    }

    /// Converts the given bytes to their equivalent representation in felts.
    ///
    /// The resulting felts are padded out to the nearest number of words, i.e. if the data
    /// only takes up 3 felts worth of bytes, then the resulting `Vec` will contain 4 felts, so
    /// that the total size is a valid number of words.
    pub fn bytes_to_elements(bytes: &[u8]) -> (r: Vec<Felt>)
        ensures
            spec_bytes_to_elements(bytes@, r@),
    {
        let n = bytes.len();
        let full = n / 4;
        let mut felts: Vec<Felt> = Vec::new();
        let mut i: usize = 0;
        while i < full
            invariant
                n == bytes@.len(),
                full == n / 4,
                i <= full,
                felts@.len() == i,
                forall|k: int| 0 <= k < i ==> (#[trigger] felts@[k])@ == spec_chunk_value(bytes@, k),
            decreases full - i,
        {
            let b0 = bytes[4 * i] as u32;
            let b1 = bytes[4 * i + 1] as u32;
            let b2 = bytes[4 * i + 2] as u32;
            let b3 = bytes[4 * i + 3] as u32;
            let value: u32 = b0 + 256 * b1 + 65536 * b2 + 16777216 * b3;
            felts.push(Felt::from_u32(value));
            i += 1;
        }
        let rem = n % 4;
        if rem > 0 {
            let b0: u32 = bytes[4 * full] as u32;
            let b1: u32 = if rem > 1 { bytes[4 * full + 1] as u32 } else { 0 };
            let b2: u32 = if rem > 2 { bytes[4 * full + 2] as u32 } else { 0 };
            let value: u32 = b0 + 256 * b1 + 65536 * b2;
            felts.push(Felt::from_u32(value));
        }
        let size_in_felts = div_ceil_4(n);
        let size_in_words = div_ceil_4(size_in_felts);
        assert(felts@.len() == size_in_felts);
        let target = size_in_words * 4;
        while felts.len() < target
            invariant
                n == bytes@.len(),
                size_in_felts == spec_size_in_felts(n as int),
                target == 4 * spec_size_in_words(n as int),
                size_in_felts <= felts@.len() <= target,
                forall|k: int|
                    0 <= k < felts@.len() ==> (#[trigger] felts@[k])@ == (if k < size_in_felts {
                        spec_chunk_value(bytes@, k)
                    } else {
                        0
                    }),
            decreases target - felts@.len(),
        {
            felts.push(Felt::zero());
        }
        felts
    }
}

} // verus!
