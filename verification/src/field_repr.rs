//! The felt representation of values: encoding Rust values as sequences of field elements and
//! decoding them back.

use vstd::prelude::*;

use crate::felt::{Felt, Word};

verus! {

broadcast use {crate::felt::group_felt, crate::felt::group_word};

/// Error returned when decoding a type from its felt representation.
#[derive(Debug, Clone, PartialEq, Eq)]
#[allow(inconsistent_fields)]
pub enum FeltReprError {
    /// Attempted to read beyond the end of the felt slice.
    UnexpectedEof {
        /// Current read position.
        pos: usize,
        /// Total number of felts available.
        len: usize,
    },
    /// A decoded value did not fit into the target Rust type.
    ValueOutOfRange {
        /// Position of the decoded value.
        pos: usize,
        /// Total number of felts available.
        len: usize,
        /// Name of the target Rust type.
        ty: &'static str,
        /// The decoded value.
        value: u64,
        /// The maximum supported value for `ty`.
        max: u64,
    },
    /// An `Option<T>` tag was neither `0` nor `1`.
    InvalidOptionTag {
        /// Position of the decoded tag.
        pos: usize,
        /// Total number of felts available.
        len: usize,
        /// The decoded tag.
        tag: u64,
    },
    /// A boolean value was neither `0` nor `1`.
    InvalidBool {
        /// Position of the decoded value.
        pos: usize,
        /// Total number of felts available.
        len: usize,
        /// The decoded value.
        value: u64,
    },
    /// An enum tag was not a valid variant ordinal.
    UnknownEnumTag {
        /// Position of the decoded tag.
        pos: usize,
        /// Total number of felts available.
        len: usize,
        /// Name of the decoded enum type.
        ty: &'static str,
        /// The decoded tag.
        tag: u32,
    },
    /// Extra data remained after decoding a value.
    TrailingData {
        /// Current read position.
        pos: usize,
        /// Total number of felts available.
        len: usize,
    },
    /// A custom decoding error provided by a downstream implementation.
    Custom(&'static str),
}

/// A reader that wraps a slice of `Felt` elements and tracks the current position.
pub struct FeltReader<'a> {
    data: &'a [Felt],
    pos: usize,
}

impl<'a> FeltReader<'a> {
    /// The felts being read.
    pub closed spec fn data_view(&self) -> Seq<Felt> {
        self.data@
    }

    /// The current read position.
    pub closed spec fn pos_view(&self) -> int {
        self.pos as int
    }

    /// Creates a new `FeltReader` from a slice of `Felt` elements.
    pub fn new(data: &'a [Felt]) -> (r: Self)
        ensures
            r.data_view() == data@,
            r.pos_view() == 0,
    {
        Self { data, pos: 0 }
    }

    /// Returns the current read position.
    pub fn pos(&self) -> (r: usize)
        ensures
            r == self.pos_view(),
    {
        self.pos
    }

    /// Returns the total number of felts in the underlying slice.
    pub fn len(&self) -> (r: usize)
        ensures
            r == self.data_view().len(),
    {
        self.data.len()
    }

    /// Returns `true` if the underlying slice is empty.
    pub fn is_empty(&self) -> (r: bool)
        ensures
            r == (self.data_view().len() == 0),
    {
        self.data.len() == 0
    }

    /// Returns the number of unread felts remaining.
    pub fn remaining(&self) -> (r: usize)
        ensures
            r == spec_remaining(self.data_view().len() as int, self.pos_view()),
    {
        self.data.len().saturating_sub(self.pos)
    }

    /// Ensures there are no unread felts remaining.
    pub fn ensure_eof(&self) -> (r: Result<(), FeltReprError>)
        ensures
            spec_remaining(self.data_view().len() as int, self.pos_view()) == 0 ==> r is Ok,
            spec_remaining(self.data_view().len() as int, self.pos_view()) != 0 ==> r == Err::<
                (),
                FeltReprError,
            >(
                FeltReprError::TrailingData {
                    pos: self.pos_view() as usize,
                    len: self.data_view().len() as usize,
                },
            ),
    {
        if self.remaining() != 0 {
            return Err(FeltReprError::TrailingData { pos: self.pos, len: self.data.len() });
        }
        Ok(())
    }

    /// Reads the next `Felt` element, advancing the position.
    pub fn read(&mut self) -> (r: Result<Felt, FeltReprError>)
        ensures
            final(self).data_view() == old(self).data_view(),
            (r, final(self).pos_view()) == spec_read(old(self).data_view(), old(self).pos_view()),
    {
        if self.pos >= self.data.len() {
            return Err(FeltReprError::UnexpectedEof { pos: self.pos, len: self.data.len() });
        }
        let felt = self.data[self.pos];
        self.pos += 1;
        Ok(felt)
    }

    /// Reads the next element as an integer no larger than `max`.
    fn read_bounded(&mut self, ty: &'static str, max: u64) -> (r: Result<u64, FeltReprError>)
        ensures
            final(self).data_view() == old(self).data_view(),
            (r, final(self).pos_view()) == spec_read_bounded(
                old(self).data_view(),
                old(self).pos_view(),
                ty,
                max,
            ),
    {
        let pos = self.pos;
        let len = self.data.len();
        let value = match self.read() {
            Ok(felt) => felt.as_canonical_u64(),
            Err(e) => return Err(e),
        };
        if value > max {
            return Err(FeltReprError::ValueOutOfRange { pos, len, ty, value, max });
        }
        Ok(value)
    }

    /// Reads the next element and decodes it as a `u32`.
    pub fn read_u32(&mut self) -> (r: Result<u32, FeltReprError>)
        ensures
            final(self).data_view() == old(self).data_view(),
            (r, final(self).pos_view()) == spec_read_u32(old(self).data_view(), old(self).pos_view()),
    {
        match self.read_bounded("u32", u32::MAX as u64) {
            Ok(v) => Ok(v as u32),
            Err(e) => Err(e),
        }
    }

    /// Reads the next element and decodes it as a `u8`.
    pub fn read_u8(&mut self) -> (r: Result<u8, FeltReprError>)
        ensures
            final(self).data_view() == old(self).data_view(),
            (r, final(self).pos_view()) == spec_read_u8(old(self).data_view(), old(self).pos_view()),
    {
        match self.read_bounded("u8", u8::MAX as u64) {
            Ok(v) => Ok(v as u8),
            Err(e) => Err(e),
        }
    }

    /// Reads the next element and decodes it as a boolean.
    ///
    /// Only `0` and `1` are accepted.
    pub fn read_bool(&mut self) -> (r: Result<bool, FeltReprError>)
        ensures
            final(self).data_view() == old(self).data_view(),
            (r, final(self).pos_view()) == spec_read_bool(
                old(self).data_view(),
                old(self).pos_view(),
            ),
    {
        let pos = self.pos;
        let len = self.data.len();
        let value = match self.read() {
            Ok(felt) => felt.as_canonical_u64(),
            Err(e) => return Err(e),
        };
        if value == 0 {
            Ok(false)
        } else if value == 1 {
            Ok(true)
        } else {
            Err(FeltReprError::InvalidBool { pos, len, value })
        }
    }

    /// Reads the next element and decodes it as a length prefix.
    ///
    /// The length is encoded as a `u32` in a single `Felt`.
    pub fn read_len_u32(&mut self) -> (r: Result<usize, FeltReprError>)
        ensures
            final(self).data_view() == old(self).data_view(),
            final(self).pos_view() == spec_read_u32(old(self).data_view(), old(self).pos_view()).1,
            match spec_read_u32(old(self).data_view(), old(self).pos_view()).0 {
                Ok(v) => r == Ok::<usize, FeltReprError>(v as usize),
                Err(e) => r == Err::<usize, FeltReprError>(e),
            },
    {
        match self.read_u32() {
            Ok(v) => Ok(v as usize),
            Err(e) => Err(e),
        }
    }
}

/// A writer that wraps a `Vec<Felt>` and appends elements to it.
pub struct FeltWriter<'a> {
    /// The vector the felts are appended to.
    pub data: &'a mut Vec<Felt>,
}

impl<'a> FeltWriter<'a> {
    /// The felts written so far, including those the vector held before.
    pub closed spec fn data_view(&self) -> Seq<Felt> {
        self.data@
    }

    /// Creates a new `FeltWriter` from a mutable reference to a `Vec<Felt>`.
    pub fn new(data: &'a mut Vec<Felt>) -> (r: Self)
        ensures
            r.data_view() == old(data)@,
            *r.data == *old(data),
            *final(r.data) == *final(data),
    {
        Self { data }
    }

    /// Writes a `Felt` element to the output.
    pub fn write(&mut self, felt: Felt)
        ensures
            final(self).data_view() == old(self).data_view().push(felt),
            *final(final(self).data) == *final(old(self).data),
    {
        self.data.push(felt);
    }
}

/// The outcome of reading one felt at `pos`: the felt and the position after it, or the
/// end-of-input error with the position unchanged.
pub open spec fn spec_read(data: Seq<Felt>, pos: int) -> (Result<Felt, FeltReprError>, int) {
    if pos >= data.len() {
        (Err(FeltReprError::UnexpectedEof { pos: pos as usize, len: data.len() as usize }), pos)
    } else {
        (Ok(data[pos]), pos + 1)
    }
}

/// The outcome of reading one felt at `pos` as an integer no larger than `max`, reporting an
/// out-of-range value as `ty`.
pub open spec fn spec_read_bounded(
    data: Seq<Felt>,
    pos: int,
    ty: &'static str,
    max: u64,
) -> (Result<u64, FeltReprError>, int) {
    match spec_read(data, pos) {
        (Err(e), p) => (Err(e), p),
        (Ok(f), p) => if f@ > max {
            (
                Err(
                    FeltReprError::ValueOutOfRange {
                        pos: pos as usize,
                        len: data.len() as usize,
                        ty,
                        value: f@,
                        max,
                    },
                ),
                p,
            )
        } else {
            (Ok(f@), p)
        },
    }
}

/// The outcome of reading one felt at `pos` as a `u32`.
pub open spec fn spec_read_u32(data: Seq<Felt>, pos: int) -> (Result<u32, FeltReprError>, int) {
    match spec_read_bounded(data, pos, "u32", u32::MAX as u64) {
        (Ok(v), p) => (Ok(v as u32), p),
        (Err(e), p) => (Err(e), p),
    }
}

/// The outcome of reading one felt at `pos` as a `u8`.
pub open spec fn spec_read_u8(data: Seq<Felt>, pos: int) -> (Result<u8, FeltReprError>, int) {
    match spec_read_bounded(data, pos, "u8", u8::MAX as u64) {
        (Ok(v), p) => (Ok(v as u8), p),
        (Err(e), p) => (Err(e), p),
    }
}

/// The outcome of reading one felt at `pos` as a boolean: only `0` and `1` are accepted.
pub open spec fn spec_read_bool(data: Seq<Felt>, pos: int) -> (Result<bool, FeltReprError>, int) {
    match spec_read(data, pos) {
        (Err(e), p) => (Err(e), p),
        (Ok(f), p) => if f@ == 0 {
            (Ok(false), p)
        } else if f@ == 1 {
            (Ok(true), p)
        } else {
            (
                Err(
                    FeltReprError::InvalidBool {
                        pos: pos as usize,
                        len: data.len() as usize,
                        value: f@,
                    },
                ),
                p,
            )
        },
    }
}

/// Unread felts: the length minus the position, or zero past the end.
pub open spec fn spec_remaining(len: int, pos: int) -> int {
    if pos <= len { len - pos } else { 0 }
}

/// `r` is the executable counterpart of the modelled decoding outcome `m`: the same error, or a
/// value whose deep view is the modelled value.
pub open spec fn decoded_as<T: DeepView>(
    r: Result<T, FeltReprError>,
    m: Result<T::V, FeltReprError>,
) -> bool {
    match m {
        Ok(v) => r is Ok && r->Ok_0.deep_view() == v,
        Err(e) => r == Err::<T, FeltReprError>(e),
    }
}

/// Trait for deserialization from felt memory representation.
pub trait FromFeltRepr: Sized + DeepView {
    /// Total encoded length in felts, when statically known (`None` marks a variable-length
    /// encoding).
    spec fn spec_fixed_len() -> Option<usize>;

    /// The outcome of decoding a value from `data` starting at `pos`: the decoded value (by its
    /// deep view) or the error, together with the read position afterwards.
    spec fn spec_from_felt_repr(data: Seq<Felt>, pos: int) -> (Result<Self::V, FeltReprError>, int);

    /// A statically known length is exactly the number of felts a successful decode consumes.
    proof fn lemma_fixed_len_consumed(data: Seq<Felt>, pos: int)
        requires
            0 <= pos,
        ensures
            Self::spec_from_felt_repr(data, pos).0 is Ok ==> Self::spec_from_felt_repr(
                data,
                pos,
            ).1 >= pos,
            Self::spec_fixed_len() is Some && Self::spec_from_felt_repr(data, pos).0 is Ok
                ==> Self::spec_from_felt_repr(data, pos).1 == pos
                + Self::spec_fixed_len()->Some_0,
    ;

    /// Total encoded length in felts, when statically known.
    fn fixed_len() -> (r: Option<usize>)
        ensures
            r == Self::spec_fixed_len(),
    ;

    /// Deserializes from a `FeltReader`, consuming the required elements.
    fn from_felt_repr(reader: &mut FeltReader<'_>) -> (r: Result<Self, FeltReprError>)
        ensures
            final(reader).data_view() == old(reader).data_view(),
            final(reader).pos_view() == Self::spec_from_felt_repr(
                old(reader).data_view(),
                old(reader).pos_view(),
            ).1,
            decoded_as(
                r,
                Self::spec_from_felt_repr(old(reader).data_view(), old(reader).pos_view()).0,
            ),
    ;
}

/// Trait for serializing a type into its felt memory representation.
pub trait ToFeltRepr: Sized + DeepView {
    /// The felt representation of a value (given by its deep view).
    spec fn spec_to_felt_repr(v: Self::V) -> Seq<Felt>;

    /// Whether a value can be encoded at all (every length prefix must fit in a `u32`).
    spec fn spec_encodable(v: Self::V) -> bool;

    /// Writes this value's felt representation to the writer.
    fn write_felt_repr(&self, writer: &mut FeltWriter<'_>)
        requires
            Self::spec_encodable(self.deep_view()),
        ensures
            final(writer).data_view() == old(writer).data_view() + Self::spec_to_felt_repr(
                self.deep_view(),
            ),
            *final(final(writer).data) == *final(old(writer).data),
    ;

    /// Convenience method that allocates and returns a `Vec<Felt>`.
    fn to_felt_repr(&self) -> (r: Vec<Felt>)
        requires
            Self::spec_encodable(self.deep_view()),
        ensures
            r@ == Self::spec_to_felt_repr(self.deep_view()),
    {
        let mut data: Vec<Felt> = Vec::new();
        let mut writer = FeltWriter::new(&mut data);
        self.write_felt_repr(&mut writer);
        proof {
            assert(Seq::<Felt>::empty() + Self::spec_to_felt_repr(self.deep_view())
                =~= Self::spec_to_felt_repr(self.deep_view()));
        }
        data
    }
}

impl FromFeltRepr for Felt {
    open spec fn spec_fixed_len() -> Option<usize> {
        Some(1)
    }

    open spec fn spec_from_felt_repr(data: Seq<Felt>, pos: int) -> (Result<Felt, FeltReprError>, int) {
        spec_read(data, pos)
    }

    proof fn lemma_fixed_len_consumed(data: Seq<Felt>, pos: int) {
    }

    fn fixed_len() -> (r: Option<usize>) {
        Some(1)
    }

    fn from_felt_repr(reader: &mut FeltReader<'_>) -> (r: Result<Self, FeltReprError>) {
        reader.read()
    }
}

/// Decoding a `Word` reads its four elements in order.
pub open spec fn spec_decode_word(data: Seq<Felt>, pos: int) -> (Result<Word, FeltReprError>, int) {
    match spec_read(data, pos) {
        (Err(e), p) => (Err(e), p),
        (Ok(a), p1) => match spec_read(data, p1) {
            (Err(e), p) => (Err(e), p),
            (Ok(b), p2) => match spec_read(data, p2) {
                (Err(e), p) => (Err(e), p),
                (Ok(c), p3) => match spec_read(data, p3) {
                    (Err(e), p) => (Err(e), p),
                    (Ok(d), p4) => (Ok(crate::felt::spec_word(seq![a, b, c, d])), p4),
                },
            },
        },
    }
}

/// Encodes a `Word` as its 4 felt elements in order.
impl FromFeltRepr for Word {
    open spec fn spec_fixed_len() -> Option<usize> {
        Some(4)
    }

    open spec fn spec_from_felt_repr(data: Seq<Felt>, pos: int) -> (Result<Word, FeltReprError>, int) {
        spec_decode_word(data, pos)
    }

    proof fn lemma_fixed_len_consumed(data: Seq<Felt>, pos: int) {
    }

    fn fixed_len() -> (r: Option<usize>) {
        Some(4)
    }

    fn from_felt_repr(reader: &mut FeltReader<'_>) -> (r: Result<Self, FeltReprError>) {
        let a = match reader.read() {
            Ok(f) => f,
            Err(e) => return Err(e),
        };
        let b = match reader.read() {
            Ok(f) => f,
            Err(e) => return Err(e),
        };
        let c = match reader.read() {
            Ok(f) => f,
            Err(e) => return Err(e),
        };
        let d = match reader.read() {
            Ok(f) => f,
            Err(e) => return Err(e),
        };
        let w = Word::new([a, b, c, d]);
        proof {
            assert([a, b, c, d]@ =~= seq![a, b, c, d]);
            crate::felt::lemma_spec_word_view(seq![a, b, c, d]);
            crate::felt::lemma_word_view_injective(w, crate::felt::spec_word(seq![a, b, c, d]));
        }
        Ok(w)
    }
}

/// The `u64` assembled from its low and high 32-bit limbs.
pub open spec fn spec_join_limbs(lo: u32, hi: u32) -> u64 {
    ((hi as u64) << 32u64) | (lo as u64)
}

/// Decoding a `u64` reads its low limb, then its high limb.
pub open spec fn spec_decode_u64(data: Seq<Felt>, pos: int) -> (Result<u64, FeltReprError>, int) {
    match spec_read_u32(data, pos) {
        (Err(e), p) => (Err(e), p),
        (Ok(lo), p1) => match spec_read_u32(data, p1) {
            (Err(e), p) => (Err(e), p),
            (Ok(hi), p2) => (Ok(spec_join_limbs(lo, hi)), p2),
        },
    }
}

impl FromFeltRepr for u64 {
    open spec fn spec_fixed_len() -> Option<usize> {
        Some(2)
    }

    open spec fn spec_from_felt_repr(data: Seq<Felt>, pos: int) -> (Result<u64, FeltReprError>, int) {
        spec_decode_u64(data, pos)
    }

    proof fn lemma_fixed_len_consumed(data: Seq<Felt>, pos: int) {
    }

    fn fixed_len() -> (r: Option<usize>) {
        Some(2)
    }

    fn from_felt_repr(reader: &mut FeltReader<'_>) -> (r: Result<Self, FeltReprError>) {
        // Encode u64 as 2 u32 limbs
        let lo = match reader.read_u32() {
            Ok(v) => v as u64,
            Err(e) => return Err(e),
        };
        let hi = match reader.read_u32() {
            Ok(v) => v as u64,
            Err(e) => return Err(e),
        };
        Ok((hi << 32) | lo)
    }
}

impl FromFeltRepr for u32 {
    open spec fn spec_fixed_len() -> Option<usize> {
        Some(1)
    }

    open spec fn spec_from_felt_repr(data: Seq<Felt>, pos: int) -> (Result<u32, FeltReprError>, int) {
        spec_read_u32(data, pos)
    }

    proof fn lemma_fixed_len_consumed(data: Seq<Felt>, pos: int) {
    }

    fn fixed_len() -> (r: Option<usize>) {
        Some(1)
    }

    fn from_felt_repr(reader: &mut FeltReader<'_>) -> (r: Result<Self, FeltReprError>) {
        reader.read_u32()
    }
}

impl FromFeltRepr for u8 {
    open spec fn spec_fixed_len() -> Option<usize> {
        Some(1)
    }

    open spec fn spec_from_felt_repr(data: Seq<Felt>, pos: int) -> (Result<u8, FeltReprError>, int) {
        spec_read_u8(data, pos)
    }

    proof fn lemma_fixed_len_consumed(data: Seq<Felt>, pos: int) {
    }

    fn fixed_len() -> (r: Option<usize>) {
        Some(1)
    }

    fn from_felt_repr(reader: &mut FeltReader<'_>) -> (r: Result<Self, FeltReprError>) {
        reader.read_u8()
    }
}

impl FromFeltRepr for bool {
    open spec fn spec_fixed_len() -> Option<usize> {
        Some(1)
    }

    open spec fn spec_from_felt_repr(data: Seq<Felt>, pos: int) -> (Result<bool, FeltReprError>, int) {
        spec_read_bool(data, pos)
    }

    proof fn lemma_fixed_len_consumed(data: Seq<Felt>, pos: int) {
    }

    fn fixed_len() -> (r: Option<usize>) {
        Some(1)
    }

    fn from_felt_repr(reader: &mut FeltReader<'_>) -> (r: Result<Self, FeltReprError>) {
        reader.read_bool()
    }
}

/// Decoding an `Option<T>`: a tag felt (`0` for `None`, `1` for `Some`) followed by the payload.
pub open spec fn spec_decode_option<T: FromFeltRepr>(data: Seq<Felt>, pos: int) -> (
    Result<Option<T::V>, FeltReprError>,
    int,
) {
    match spec_read(data, pos) {
        (Err(e), p) => (Err(e), p),
        (Ok(tag), p) => if tag@ == 0 {
            (Ok(None), p)
        } else if tag@ == 1 {
            match T::spec_from_felt_repr(data, p) {
                (Ok(v), p2) => (Ok(Some(v)), p2),
                (Err(e), p2) => (Err(e), p2),
            }
        } else {
            (
                Err(
                    FeltReprError::InvalidOptionTag {
                        pos: pos as usize,
                        len: data.len() as usize,
                        tag: tag@,
                    },
                ),
                p,
            )
        },
    }
}

/// Encodes an `Option<T>` as a 1-felt tag followed by the payload (if present).
///
/// Format:
/// - `None` => `[0]`
/// - `Some(x)` => `[1, x...]`
impl<T: FromFeltRepr> FromFeltRepr for Option<T> {
    open spec fn spec_fixed_len() -> Option<usize> {
        None
    }

    open spec fn spec_from_felt_repr(data: Seq<Felt>, pos: int) -> (
        Result<Option<T::V>, FeltReprError>,
        int,
    ) {
        spec_decode_option::<T>(data, pos)
    }

    proof fn lemma_fixed_len_consumed(data: Seq<Felt>, pos: int) {
        if pos < data.len() {
            T::lemma_fixed_len_consumed(data, pos + 1);
        }
    }

    fn fixed_len() -> (r: Option<usize>) {
        None
    }

    fn from_felt_repr(reader: &mut FeltReader<'_>) -> (r: Result<Self, FeltReprError>) {
        let pos = reader.pos();
        let len = reader.len();
        let tag = match reader.read() {
            Ok(f) => f.as_canonical_u64(),
            Err(e) => return Err(e),
        };
        if tag == 0 {
            Ok(None)
        } else if tag == 1 {
            match T::from_felt_repr(reader) {
                Ok(v) => Ok(Some(v)),
                Err(e) => Err(e),
            }
        } else {
            Err(FeltReprError::InvalidOptionTag { pos, len, tag })
        }
    }
}

/// Decoding `n` consecutive values of `T` starting at `pos`: the decoded values in order, or
/// the first error, with the read position afterwards.
pub open spec fn spec_decode_elems<T: FromFeltRepr>(data: Seq<Felt>, pos: int, n: nat) -> (
    Result<Seq<T::V>, FeltReprError>,
    int,
)
    decreases n,
{
    if n == 0 {
        (Ok(Seq::empty()), pos)
    } else {
        match spec_decode_elems::<T>(data, pos, (n - 1) as nat) {
            (Ok(s), p) => match T::spec_from_felt_repr(data, p) {
                (Ok(x), p2) => (Ok(s.push(x)), p2),
                (Err(e), p2) => (Err(e), p2),
            },
            (Err(e), p) => (Err(e), p),
        }
    }
}

/// Decoding a `Vec<T>`: a `u32` length prefix followed by that many elements.
pub open spec fn spec_decode_vec<T: FromFeltRepr>(data: Seq<Felt>, pos: int) -> (
    Result<Seq<T::V>, FeltReprError>,
    int,
) {
    match spec_read_u32(data, pos) {
        (Err(e), p) => (Err(e), p),
        (Ok(len), p) => spec_decode_elems::<T>(data, p, len as nat),
    }
}

/// Once decoding `m` elements fails, decoding more elements fails the same way.
proof fn lemma_decode_elems_err_persists<T: FromFeltRepr>(
    data: Seq<Felt>,
    pos: int,
    m: nat,
    n: nat,
)
    requires
        m <= n,
        spec_decode_elems::<T>(data, pos, m).0 is Err,
    ensures
        spec_decode_elems::<T>(data, pos, n) == spec_decode_elems::<T>(data, pos, m),
    decreases n,
{
    if m < n {
        lemma_decode_elems_err_persists::<T>(data, pos, m, (n - 1) as nat);
    }
}

/// Decoding elements never moves the read position backwards.
proof fn lemma_decode_elems_advances<T: FromFeltRepr>(data: Seq<Felt>, pos: int, n: nat)
    requires
        0 <= pos,
    ensures
        spec_decode_elems::<T>(data, pos, n).0 is Ok ==> spec_decode_elems::<T>(data, pos, n).1
            >= pos,
    decreases n,
{
    if n > 0 {
        lemma_decode_elems_advances::<T>(data, pos, (n - 1) as nat);
        let p = spec_decode_elems::<T>(data, pos, (n - 1) as nat).1;
        if spec_decode_elems::<T>(data, pos, (n - 1) as nat).0 is Ok {
            T::lemma_fixed_len_consumed(data, p);
        }
    }
}

/// Encodes a `Vec<T>` as a length prefix followed by elements.
///
/// Format: `[len, elem0..., elemN-1...]` where `len` is a `u32` encoded in a single `Felt`.
impl<T: FromFeltRepr> FromFeltRepr for Vec<T> {
    open spec fn spec_fixed_len() -> Option<usize> {
        None
    }

    open spec fn spec_from_felt_repr(data: Seq<Felt>, pos: int) -> (
        Result<Seq<T::V>, FeltReprError>,
        int,
    ) {
        spec_decode_vec::<T>(data, pos)
    }

    proof fn lemma_fixed_len_consumed(data: Seq<Felt>, pos: int) {
        if let (Ok(len), p) = spec_read_u32(data, pos) {
            lemma_decode_elems_advances::<T>(data, p, len as nat);
        }
    }

    fn fixed_len() -> (r: Option<usize>) {
        None
    }

    fn from_felt_repr(reader: &mut FeltReader<'_>) -> (r: Result<Self, FeltReprError>) {
        let ghost data = reader.data_view();
        let len = match reader.read_len_u32() {
            Ok(len) => len,
            Err(e) => return Err(e),
        };
        let ghost start = reader.pos_view();
        let mut result: Vec<T> = Vec::new();
        let mut i = 0usize;
        proof {
            assert(result.deep_view() =~= Seq::<T::V>::empty());
        }
        while i < len
            invariant
                reader.data_view() == data,
                data == old(reader).data_view(),
                spec_read_u32(data, old(reader).pos_view()) == (
                    Ok::<u32, FeltReprError>(len as u32),
                    start,
                ),
                i <= len,
                len <= u32::MAX,
                spec_decode_elems::<T>(data, start, i as nat) == (
                    Ok::<Seq<T::V>, FeltReprError>(result.deep_view()),
                    reader.pos_view(),
                ),
            decreases len - i,
        {
            let ghost before = result.deep_view();
            match T::from_felt_repr(reader) {
                Ok(x) => {
                    result.push(x);
                    proof {
                        assert(result.deep_view() =~= before.push(x.deep_view()));
                    }
                },
                Err(e) => {
                    proof {
                        lemma_decode_elems_err_persists::<T>(
                            data,
                            start,
                            (i + 1) as nat,
                            len as nat,
                        );
                    }
                    return Err(e);
                },
            }
            i += 1;
        }
        Ok(result)
    }
}

impl ToFeltRepr for Felt {
    open spec fn spec_to_felt_repr(v: Felt) -> Seq<Felt> {
        seq![v]
    }

    open spec fn spec_encodable(v: Felt) -> bool {
        true
    }

    fn write_felt_repr(&self, writer: &mut FeltWriter<'_>) {
        writer.write(*self);
    }
}

/// Encodes a `Word` as its 4 felt elements in order.
impl ToFeltRepr for Word {
    open spec fn spec_to_felt_repr(v: Word) -> Seq<Felt> {
        v@
    }

    open spec fn spec_encodable(v: Word) -> bool {
        true
    }

    fn write_felt_repr(&self, writer: &mut FeltWriter<'_>) {
        let elements = self.as_elements();
        let ghost start = writer.data_view();
        let mut i = 0usize;
        while i < 4
            invariant
                i <= 4,
                elements@ == self@,
                writer.data_view() == start + self@.take(i as int),
                start == old(writer).data_view(),
                *final(writer.data) == *final(old(writer).data),
            decreases 4 - i,
        {
            writer.write(elements[i]);
            proof {
                assert(self@.take(i + 1) =~= self@.take(i as int).push(self@[i as int]));
            }
            i += 1;
        }
        proof {
            assert(self@.take(4) =~= self@);
        }
    }
}

/// The low 32-bit limb of a `u64`, as the felt it is encoded to.
pub open spec fn spec_low_limb(v: u64) -> Felt {
    crate::felt::spec_felt(v & 0xffff_ffffu64)
}

/// The high 32-bit limb of a `u64`, as the felt it is encoded to.
pub open spec fn spec_high_limb(v: u64) -> Felt {
    crate::felt::spec_felt(v >> 32u64)
}

/// A `u64` is encoded as its low 32-bit limb followed by its high 32-bit limb.
impl ToFeltRepr for u64 {
    open spec fn spec_to_felt_repr(v: u64) -> Seq<Felt> {
        seq![spec_low_limb(v), spec_high_limb(v)]
    }

    open spec fn spec_encodable(v: u64) -> bool {
        true
    }

    fn write_felt_repr(&self, writer: &mut FeltWriter<'_>) {
        let v = *self;
        let lo = (v & 0xffff_ffff) as u32;
        let hi = (v >> 32) as u32;
        proof {
            assert(lo as u64 == v & 0xffff_ffffu64) by (bit_vector)
                requires
                    lo == (v & 0xffff_ffff) as u32,
            ;
            assert(hi as u64 == v >> 32u64) by (bit_vector)
                requires
                    hi == (v >> 32) as u32,
            ;
        }
        let ghost start = writer.data_view();
        writer.write(Felt::new(lo as u64).unwrap());
        writer.write(Felt::new(hi as u64).unwrap());
        proof {
            assert(writer.data_view() =~= start + seq![spec_low_limb(v), spec_high_limb(v)]);
        }
    }
}

impl ToFeltRepr for u32 {
    open spec fn spec_to_felt_repr(v: u32) -> Seq<Felt> {
        seq![crate::felt::spec_felt(v as u64)]
    }

    open spec fn spec_encodable(v: u32) -> bool {
        true
    }

    fn write_felt_repr(&self, writer: &mut FeltWriter<'_>) {
        let ghost start = writer.data_view();
        writer.write(Felt::new(*self as u64).unwrap());
        proof {
            assert(writer.data_view() =~= start + seq![crate::felt::spec_felt(*self as u64)]);
        }
    }
}

impl ToFeltRepr for u8 {
    open spec fn spec_to_felt_repr(v: u8) -> Seq<Felt> {
        seq![crate::felt::spec_felt(v as u64)]
    }

    open spec fn spec_encodable(v: u8) -> bool {
        true
    }

    fn write_felt_repr(&self, writer: &mut FeltWriter<'_>) {
        let ghost start = writer.data_view();
        writer.write(Felt::new(*self as u64).unwrap());
        proof {
            assert(writer.data_view() =~= start + seq![crate::felt::spec_felt(*self as u64)]);
        }
    }
}

/// The integer a boolean is encoded as: `1` for `true`, `0` for `false`.
pub open spec fn spec_bool_value(b: bool) -> u64 {
    if b { 1 } else { 0 }
}

impl ToFeltRepr for bool {
    open spec fn spec_to_felt_repr(v: bool) -> Seq<Felt> {
        seq![crate::felt::spec_felt(spec_bool_value(v))]
    }

    open spec fn spec_encodable(v: bool) -> bool {
        true
    }

    fn write_felt_repr(&self, writer: &mut FeltWriter<'_>) {
        let ghost start = writer.data_view();
        let value: u64 = if *self { 1 } else { 0 };
        writer.write(Felt::new(value).unwrap());
        proof {
            assert(writer.data_view() =~= start + seq![
                crate::felt::spec_felt(spec_bool_value(*self)),
            ]);
        }
    }
}

/// Encodes an `Option<T>` as a 1-felt tag followed by the payload (if present).
///
/// Format:
/// - `None` => `[0]`
/// - `Some(x)` => `[1, x...]`
impl<T: ToFeltRepr> ToFeltRepr for Option<T> {
    open spec fn spec_to_felt_repr(v: Option<T::V>) -> Seq<Felt> {
        match v {
            None => seq![crate::felt::spec_felt(0)],
            Some(x) => seq![crate::felt::spec_felt(1)] + T::spec_to_felt_repr(x),
        }
    }

    open spec fn spec_encodable(v: Option<T::V>) -> bool {
        match v {
            None => true,
            Some(x) => T::spec_encodable(x),
        }
    }

    fn write_felt_repr(&self, writer: &mut FeltWriter<'_>) {
        let ghost start = writer.data_view();
        match self {
            None => {
                writer.write(Felt::new(0).unwrap());
                proof {
                    assert(writer.data_view() =~= start + seq![crate::felt::spec_felt(0)]);
                }
            },
            Some(value) => {
                writer.write(Felt::new(1).unwrap());
                value.write_felt_repr(writer);
                proof {
                    assert(writer.data_view() =~= start + (seq![crate::felt::spec_felt(1)]
                        + T::spec_to_felt_repr(value.deep_view())));
                }
            },
        }
    }
}

/// The concatenated encodings of a sequence of values, in order.
pub open spec fn spec_encode_elems<T: ToFeltRepr>(s: Seq<T::V>) -> Seq<Felt>
    decreases s.len(),
{
    if s.len() == 0 {
        Seq::empty()
    } else {
        spec_encode_elems::<T>(s.drop_last()) + T::spec_to_felt_repr(s.last())
    }
}

/// Encodes a `Vec<T>` as a length prefix followed by elements.
///
/// Format: `[len, elem0..., elemN-1...]` where `len` is a `u32` encoded in a single `Felt`.
impl<T: ToFeltRepr> ToFeltRepr for Vec<T> {
    open spec fn spec_to_felt_repr(v: Seq<T::V>) -> Seq<Felt> {
        seq![crate::felt::spec_felt(v.len() as u64)] + spec_encode_elems::<T>(v)
    }

    open spec fn spec_encodable(v: Seq<T::V>) -> bool {
        &&& v.len() <= u32::MAX
        &&& forall|i: int| 0 <= i < v.len() ==> T::spec_encodable(#[trigger] v[i])
    }

    fn write_felt_repr(&self, writer: &mut FeltWriter<'_>) {
        let len = self.len();
        let ghost s = self.deep_view();
        let ghost start = writer.data_view();
        writer.write(Felt::new(len as u64).unwrap());
        let mut i = 0usize;
        proof {
            assert(s.take(0) =~= Seq::<T::V>::empty());
        }
        while i < len
            invariant
                len == self.len(),
                s == self.deep_view(),
                Self::spec_encodable(s),
                i <= len,
                start == old(writer).data_view(),
                writer.data_view() == start + seq![crate::felt::spec_felt(len as u64)]
                    + spec_encode_elems::<T>(s.take(i as int)),
                *final(writer.data) == *final(old(writer).data),
            decreases len - i,
        {
            assert(s[i as int] == self@[i as int].deep_view());
            self[i].write_felt_repr(writer);
            proof {
                assert(s.take(i + 1).drop_last() =~= s.take(i as int));
                assert(s.take(i + 1).last() == s[i as int]);
            }
            i += 1;
        }
        proof {
            assert(s.take(len as int) =~= s);
        }
    }
}

/// Decoding the encoding of `m`, placed after `pre` and followed by `rest`, gives back `m` and
/// stops right after the encoding.
pub open spec fn decodes_encoding<T: FromFeltRepr + ToFeltRepr>(
    m: T::V,
    pre: Seq<Felt>,
    rest: Seq<Felt>,
) -> bool {
    T::spec_from_felt_repr(pre + T::spec_to_felt_repr(m) + rest, pre.len() as int) == (
        Ok::<T::V, FeltReprError>(m),
        (pre.len() + T::spec_to_felt_repr(m).len()) as int,
    )
}

/// Every encodable value of `T` decodes back from its encoding, wherever it stands in the data.
pub open spec fn round_trips<T: FromFeltRepr + ToFeltRepr>() -> bool {
    forall|m: T::V, pre: Seq<Felt>, rest: Seq<Felt>|
        T::spec_encodable(m) ==> #[trigger] decodes_encoding::<T>(m, pre, rest)
}

/// A statically known length is the length of every encoding of `T`.
pub open spec fn fixed_len_is_encoded_len<T: FromFeltRepr + ToFeltRepr>() -> bool {
    forall|m: T::V|
        T::spec_fixed_len() is Some ==> (#[trigger] T::spec_to_felt_repr(m)).len()
            == T::spec_fixed_len()->Some_0
}

/// A `Felt` decodes back from its encoding, and encodes to exactly one felt.
pub proof fn lemma_felt_round_trip()
    ensures
        round_trips::<Felt>(),
        fixed_len_is_encoded_len::<Felt>(),
{
    assert forall|m: Felt, pre: Seq<Felt>, rest: Seq<Felt>|
        <Felt as ToFeltRepr>::spec_encodable(m) implies #[trigger] decodes_encoding::<Felt>(
        m,
        pre,
        rest,
    ) by {
        let data = pre + seq![m] + rest;
        assert(data[pre.len() as int] == m);
    }
}

/// A `Word` decodes back from its encoding, and encodes to exactly four felts.
pub proof fn lemma_word_round_trip()
    ensures
        round_trips::<Word>(),
        fixed_len_is_encoded_len::<Word>(),
{
    assert forall|m: Word, pre: Seq<Felt>, rest: Seq<Felt>|
        <Word as ToFeltRepr>::spec_encodable(m) implies #[trigger] decodes_encoding::<Word>(
        m,
        pre,
        rest,
    ) by {
        let data = pre + m@ + rest;
        let n = pre.len() as int;
        assert(data[n] == m@[0] && data[n + 1] == m@[1] && data[n + 2] == m@[2] && data[n + 3]
            == m@[3]);
        let w = crate::felt::spec_word(seq![m@[0], m@[1], m@[2], m@[3]]);
        crate::felt::lemma_spec_word_view(seq![m@[0], m@[1], m@[2], m@[3]]);
        assert(w@ =~= m@);
    }
}

/// A `u64` decodes back from its two limbs, and encodes to exactly two felts.
pub proof fn lemma_u64_round_trip()
    ensures
        round_trips::<u64>(),
        fixed_len_is_encoded_len::<u64>(),
{
    assert forall|m: u64, pre: Seq<Felt>, rest: Seq<Felt>|
        <u64 as ToFeltRepr>::spec_encodable(m) implies #[trigger] decodes_encoding::<u64>(
        m,
        pre,
        rest,
    ) by {
        let data = pre + seq![spec_low_limb(m), spec_high_limb(m)] + rest;
        let n = pre.len() as int;
        assert(data[n] == spec_low_limb(m) && data[n + 1] == spec_high_limb(m));
        let lo = m & 0xffff_ffffu64;
        let hi = m >> 32u64;
        assert(lo <= u32::MAX && hi <= u32::MAX && ((((hi as u32) as u64) << 32u64) | ((
        lo as u32) as u64)) == m) by (bit_vector)
            requires
                lo == m & 0xffff_ffffu64,
                hi == m >> 32u64,
        ;
    }
}

/// A `u32` decodes back from its encoding, and encodes to exactly one felt.
pub proof fn lemma_u32_round_trip()
    ensures
        round_trips::<u32>(),
        fixed_len_is_encoded_len::<u32>(),
{
    assert forall|m: u32, pre: Seq<Felt>, rest: Seq<Felt>|
        <u32 as ToFeltRepr>::spec_encodable(m) implies #[trigger] decodes_encoding::<u32>(
        m,
        pre,
        rest,
    ) by {
        let data = pre + seq![crate::felt::spec_felt(m as u64)] + rest;
        assert(data[pre.len() as int] == crate::felt::spec_felt(m as u64));
    }
}

/// A `u8` decodes back from its encoding, and encodes to exactly one felt.
pub proof fn lemma_u8_round_trip()
    ensures
        round_trips::<u8>(),
        fixed_len_is_encoded_len::<u8>(),
{
    assert forall|m: u8, pre: Seq<Felt>, rest: Seq<Felt>|
        <u8 as ToFeltRepr>::spec_encodable(m) implies #[trigger] decodes_encoding::<u8>(
        m,
        pre,
        rest,
    ) by {
        let data = pre + seq![crate::felt::spec_felt(m as u64)] + rest;
        assert(data[pre.len() as int] == crate::felt::spec_felt(m as u64));
    }
}

/// A `bool` decodes back from its encoding, and encodes to exactly one felt.
pub proof fn lemma_bool_round_trip()
    ensures
        round_trips::<bool>(),
        fixed_len_is_encoded_len::<bool>(),
{
    assert forall|m: bool, pre: Seq<Felt>, rest: Seq<Felt>|
        <bool as ToFeltRepr>::spec_encodable(m) implies #[trigger] decodes_encoding::<bool>(
        m,
        pre,
        rest,
    ) by {
        let data = pre + seq![crate::felt::spec_felt(spec_bool_value(m))] + rest;
        assert(data[pre.len() as int] == crate::felt::spec_felt(spec_bool_value(m)));
    }
}

/// If `T` round-trips, so does `Option<T>`.
pub proof fn lemma_option_round_trip<T: FromFeltRepr + ToFeltRepr>()
    requires
        round_trips::<T>(),
    ensures
        round_trips::<Option<T>>(),
        fixed_len_is_encoded_len::<Option<T>>(),
{
    assert forall|m: Option<T::V>, pre: Seq<Felt>, rest: Seq<Felt>|
        <Option<T> as ToFeltRepr>::spec_encodable(m) implies #[trigger] decodes_encoding::<
        Option<T>,
    >(m, pre, rest) by {
        let n = pre.len() as int;
        match m {
            None => {
                let data = pre + seq![crate::felt::spec_felt(0)] + rest;
                assert(data[n] == crate::felt::spec_felt(0));
            },
            Some(x) => {
                let enc = T::spec_to_felt_repr(x);
                let data = pre + (seq![crate::felt::spec_felt(1)] + enc) + rest;
                let pre2 = pre + seq![crate::felt::spec_felt(1)];
                assert(data =~= pre2 + enc + rest);
                assert(data[n] == crate::felt::spec_felt(1));
                assert(decodes_encoding::<T>(x, pre2, rest));
            },
        }
    }
}

/// Decoding the concatenated encodings of `s` gives back `s`.
proof fn lemma_decode_encode_elems<T: FromFeltRepr + ToFeltRepr>(
    s: Seq<T::V>,
    pre: Seq<Felt>,
    rest: Seq<Felt>,
)
    requires
        round_trips::<T>(),
        forall|i: int| 0 <= i < s.len() ==> T::spec_encodable(#[trigger] s[i]),
    ensures
        spec_decode_elems::<T>(
            pre + spec_encode_elems::<T>(s) + rest,
            pre.len() as int,
            s.len(),
        ) == (
            Ok::<Seq<T::V>, FeltReprError>(s),
            (pre.len() + spec_encode_elems::<T>(s).len()) as int,
        ),
    decreases s.len(),
{
    if s.len() == 0 {
        assert(spec_encode_elems::<T>(s) =~= Seq::<Felt>::empty());
        assert(s =~= Seq::<T::V>::empty());
    } else {
        let init = s.drop_last();
        let x = s.last();
        let ei = spec_encode_elems::<T>(init);
        let ex = T::spec_to_felt_repr(x);
        let data = pre + spec_encode_elems::<T>(s) + rest;
        assert(data =~= pre + ei + (ex + rest));
        assert forall|i: int| 0 <= i < init.len() implies T::spec_encodable(#[trigger] init[i]) by {
            assert(init[i] == s[i]);
        }
        lemma_decode_encode_elems::<T>(init, pre, ex + rest);
        assert(data =~= (pre + ei) + ex + rest);
        assert(T::spec_encodable(s[s.len() - 1]));
        assert(decodes_encoding::<T>(x, pre + ei, rest));
        assert(init.push(x) =~= s);
    }
}

/// If `T` round-trips, so does `Vec<T>`.
pub proof fn lemma_vec_round_trip<T: FromFeltRepr + ToFeltRepr>()
    requires
        round_trips::<T>(),
    ensures
        round_trips::<Vec<T>>(),
        fixed_len_is_encoded_len::<Vec<T>>(),
{
    assert forall|m: Seq<T::V>, pre: Seq<Felt>, rest: Seq<Felt>|
        <Vec<T> as ToFeltRepr>::spec_encodable(m) implies #[trigger] decodes_encoding::<Vec<T>>(
        m,
        pre,
        rest,
    ) by {
        let n = pre.len() as int;
        let len_felt = crate::felt::spec_felt(m.len() as u64);
        let elems = spec_encode_elems::<T>(m);
        let data = pre + (seq![len_felt] + elems) + rest;
        let pre2 = pre + seq![len_felt];
        assert(data =~= pre2 + elems + rest);
        assert(data[n] == len_felt);
        lemma_decode_encode_elems::<T>(m, pre2, rest);
        assert(((m.len() as u64) as u32) as nat == m.len());
    }
}

/// The sum of statically known lengths, or `None` when any entry is variable (`None`).
pub open spec fn spec_sum_fixed_len(lens: Seq<Option<usize>>) -> Option<int>
    decreases lens.len(),
{
    if lens.len() == 0 {
        Some(0)
    } else {
        match (spec_sum_fixed_len(lens.drop_last()), lens.last()) {
            (Some(total), Some(len)) => Some(total + len),
            _ => None,
        }
    }
}

/// Sums statically known encoded lengths; a variable-length (`None`) entry makes the total
/// variable.
///
/// Used to compute the fixed length of a struct (and of an enum variant payload) as a fold over
/// the field types' lengths.
pub fn sum_fixed_len(lens: &[Option<usize>]) -> (r: Option<usize>)
    requires
        forall|k: int|
            0 <= k <= lens@.len() ==> (#[trigger] spec_sum_fixed_len(lens@.take(k)) matches Some(
                t,
            ) ==> t <= usize::MAX),
    ensures
        r matches Some(t) ==> spec_sum_fixed_len(lens@) == Some(t as int),
        r is None ==> spec_sum_fixed_len(lens@) is None,
{
    let mut total = 0usize;
    let mut i: usize = 0;
    assert(lens@.take(0) =~= Seq::<Option<usize>>::empty());
    while i < lens.len()
        invariant
            i <= lens@.len(),
            spec_sum_fixed_len(lens@.take(i as int)) == Some(total as int),
            forall|k: int|
                0 <= k <= lens@.len() ==> (#[trigger] spec_sum_fixed_len(lens@.take(k)) matches Some(
                    t,
                ) ==> t <= usize::MAX),
        decreases lens@.len() - i,
    {
        assert(lens@.take(i + 1).drop_last() =~= lens@.take(i as int));
        assert(lens@.take(i + 1).last() == lens@[i as int]);
        match lens[i] {
            Some(len) => {
                assert(spec_sum_fixed_len(lens@.take(i + 1)) == Some(total + len));
                total += len;
            },
            None => {
                proof {
                    lemma_sum_fixed_len_none_persists(lens@, i + 1);
                    assert(lens@.take(lens@.len() as int) =~= lens@);
                }
                return None;
            },
        }
        i += 1;
    }
    assert(lens@.take(lens@.len() as int) =~= lens@);
    Some(total)
}

/// A variable entry in the first `k` lengths makes every longer prefix variable too.
proof fn lemma_sum_fixed_len_none_persists(lens: Seq<Option<usize>>, k: int)
    requires
        0 <= k <= lens.len(),
        spec_sum_fixed_len(lens.take(k)) is None,
    ensures
        spec_sum_fixed_len(lens) is None,
    decreases lens.len() - k,
{
    if k < lens.len() {
        assert(lens.take(k + 1).drop_last() =~= lens.take(k));
        lemma_sum_fixed_len_none_persists(lens, k + 1);
    } else {
        assert(lens.take(k) =~= lens);
    }
}

/// The common payload length of an enum's variants: `Some(0)` with no variants, the shared length
/// when every variant has the same statically known length, and `None` otherwise.
pub open spec fn spec_uniform_fixed_len(lens: Seq<Option<usize>>) -> Option<usize> {
    if lens.len() == 0 {
        Some(0)
    } else if lens[0] is Some && (forall|i: int| 0 <= i < lens.len() ==> #[trigger] lens[i] == lens[0]) {
        lens[0]
    } else {
        None
    }
}

/// Merges per-variant payload lengths into an enum-wide payload length.
///
/// Returns the common length when every variant's payload has the same statically known length,
/// and `None` (variable length) otherwise. An empty variant list yields `Some(0)`.
pub fn uniform_fixed_len(lens: &[Option<usize>]) -> (r: Option<usize>)
    ensures
        r == spec_uniform_fixed_len(lens@),
{
    if lens.len() == 0 {
        return Some(0);
    }
    let first = match lens[0] {
        Some(len) => len,
        None => return None,
    };
    let mut i: usize = 1;
    while i < lens.len()
        invariant
            1 <= i <= lens@.len(),
            lens@[0] == Some(first),
            forall|j: int| 0 <= j < i ==> lens@[j] == Some(first),
        decreases lens@.len() - i,
    {
        match lens[i] {
            Some(len) => {
                if len != first {
                    return None;
                }
            },
            None => return None,
        }
        i += 1;
    }
    Some(first)
}


/// A `u32` decodes from one felt exactly when the felt's canonical value fits in 32 bits, and
/// then to that value; a larger value is reported out of range (with its position, the input's
/// length, the type `u32`, the value and `u32::MAX`) rather than truncated. Either way one felt
/// is consumed.
pub proof fn lemma_u32_decode_is_exact(data: Seq<Felt>, pos: int)
    requires
        0 <= pos < data.len(),
    ensures
        ({
            let (r, p) = <u32 as FromFeltRepr>::spec_from_felt_repr(data, pos);
            &&& p == pos + 1
            &&& data[pos]@ <= u32::MAX ==> r is Ok && r->Ok_0 as u64 == data[pos]@
            &&& data[pos]@ > u32::MAX ==> r == Err::<u32, FeltReprError>(
                FeltReprError::ValueOutOfRange {
                    pos: pos as usize,
                    len: data.len() as usize,
                    ty: "u32",
                    value: data[pos]@,
                    max: 4294967295u64,
                },
            )
            &&& r matches Ok(v) ==> v as u64 == data[pos]@
        }),
{
}

/// A `u8` decodes from one felt exactly when the felt's canonical value fits in 8 bits, and then
/// to that value; a larger value is reported out of range rather than truncated.
pub proof fn lemma_u8_decode_is_exact(data: Seq<Felt>, pos: int)
    requires
        0 <= pos < data.len(),
    ensures
        ({
            let (r, p) = <u8 as FromFeltRepr>::spec_from_felt_repr(data, pos);
            &&& p == pos + 1
            &&& data[pos]@ <= u8::MAX ==> r is Ok && r->Ok_0 as u64 == data[pos]@
            &&& data[pos]@ > u8::MAX ==> r == Err::<u8, FeltReprError>(
                FeltReprError::ValueOutOfRange {
                    pos: pos as usize,
                    len: data.len() as usize,
                    ty: "u8",
                    value: data[pos]@,
                    max: 255u64,
                },
            )
            &&& r matches Ok(v) ==> v as u64 == data[pos]@
        }),
{
}

} // verus!
