//! Typed transaction-script argument transport via the `TX_SCRIPT_ARGS` word.
//!
//! The transaction kernel hands a transaction script a single [`Word`] of arguments. Short,
//! statically sized encodings are packed into the word itself (word mode), while longer or
//! variable-length encodings are committed to by hash and passed through the advice provider
//! (commitment mode). Encoding, word-mode decoding and [`decode_preimage`] are pure; fetching a
//! commitment-mode preimage needs the Miden VM's advice provider, which does not exist off the
//! VM, so commitment-mode decoding reports [`ScriptArgsError::AdviceProviderUnavailable`] here.

use vstd::prelude::*;

use crate::felt::{Felt, Word, WORD_NUM_ELEMENTS};
use crate::field_repr::{FeltReader, FeltReprError, FromFeltRepr, ToFeltRepr};

verus! {

broadcast use {crate::felt::group_felt, crate::felt::group_word};

/// Encoded transaction-script arguments produced by [`ScriptArgs::encode`].
#[derive(Clone, Debug, PartialEq, Eq)]
pub enum EncodedScriptArgs {
    /// The encoding statically fits the `TX_SCRIPT_ARGS` word and is packed into it directly,
    /// zero-padded.
    Word(Word),
    /// The type uses commitment mode (a longer or variable-length encoding): these felts
    /// (zero-padded to a whole number of words) are the advice-map preimage of the args word.
    Preimage(Vec<Felt>),
}

/// Failure decoding transaction-script arguments from the `TX_SCRIPT_ARGS` word.
#[derive(Debug, Clone, PartialEq, Eq)]
pub enum ScriptArgsError {
    /// A value failed to decode from its felt representation.
    Decode(FeltReprError),
    /// A felt in the zero-padding region of the encoding was not zero.
    NonZeroPadding,
    /// A whole word or more of data remained after decoding the value (commitment mode).
    TrailingData,
    /// The advice value's length was not a whole number of words (commitment mode).
    NonWordMultipleLength,
    /// Commitment-mode decoding was attempted without the Miden VM's advice provider
    /// (i.e. off-chain). Word-mode decoding and [`decode_preimage`] work everywhere.
    AdviceProviderUnavailable,
}

impl From<FeltReprError> for ScriptArgsError {
    fn from(err: FeltReprError) -> (r: Self) {
        Self::Decode(err)
    }
}

impl vstd::std_specs::convert::FromSpecImpl<FeltReprError> for ScriptArgsError {
    open spec fn obeys_from_spec() -> bool {
        true
    }

    open spec fn from_spec(v: FeltReprError) -> ScriptArgsError {
        ScriptArgsError::Decode(v)
    }
}

/// Seals [`ScriptArgs`] to its blanket implementation.
pub trait Sealed {

}

impl<T: FromFeltRepr + ToFeltRepr> Sealed for T {

}

/// Whether a statically known encoded length fits the args word directly.
pub open spec fn spec_is_word_mode(fixed_len: Option<usize>) -> bool {
    match fixed_len {
        Some(len) => len <= 4,
        None => false,
    }
}

/// Returns whether a statically known encoded length fits the args word directly.
pub fn is_word_mode(fixed_len: Option<usize>) -> (r: bool)
    ensures
        r == spec_is_word_mode(fixed_len),
{
    match fixed_len {
        Some(len) => len <= WORD_NUM_ELEMENTS,
        None => false,
    }
}

/// Checking that every felt from `pos` to the end is zero: success, or the padding error at
/// the first non-zero felt, with the read position afterwards.
pub open spec fn spec_check_zero_padding(data: Seq<Felt>, pos: int) -> (
    Result<(), ScriptArgsError>,
    int,
)
    decreases data.len() - pos,
{
    if pos >= data.len() {
        (Ok(()), pos)
    } else if data[pos]@ != 0 {
        (Err(ScriptArgsError::NonZeroPadding), pos + 1)
    } else {
        spec_check_zero_padding(data, pos + 1)
    }
}

/// Ensures every felt remaining in `reader` is zero.
pub fn check_zero_padding(reader: &mut FeltReader<'_>) -> (r: Result<(), ScriptArgsError>)
    requires
        old(reader).pos_view() >= 0,
    ensures
        final(reader).data_view() == old(reader).data_view(),
        (r, final(reader).pos_view()) == spec_check_zero_padding(
            old(reader).data_view(),
            old(reader).pos_view(),
        ),
{
    let ghost data = reader.data_view();
    while reader.remaining() > 0
        invariant
            reader.data_view() == data,
            data == old(reader).data_view(),
            reader.pos_view() >= 0,
            spec_check_zero_padding(data, old(reader).pos_view()) == spec_check_zero_padding(
                data,
                reader.pos_view(),
            ),
        decreases data.len() - reader.pos_view(),
    {
        let felt = match reader.read() {
            Ok(felt) => felt,
            Err(e) => return Err(ScriptArgsError::Decode(e)),
        };
        if felt != Felt::zero() {
            return Err(ScriptArgsError::NonZeroPadding);
        }
    }
    Ok(())
}

/// The outcome of decoding a commitment-mode preimage: the decoded value, a decode error, a
/// trailing-word error, or a padding error.
pub open spec fn spec_decode_preimage<T: FromFeltRepr>(data: Seq<Felt>) -> Result<
    T::V,
    ScriptArgsError,
> {
    match T::spec_from_felt_repr(data, 0) {
        (Err(e), _) => Err(ScriptArgsError::Decode(e)),
        (Ok(v), p) => if crate::field_repr::spec_remaining(data.len() as int, p) >= 4 {
            Err(ScriptArgsError::TrailingData)
        } else {
            match spec_check_zero_padding(data, p).0 {
                Err(e) => Err(e),
                Ok(_) => Ok(v),
            }
        },
    }
}

/// `r` is the executable counterpart of the modelled outcome `m`.
pub open spec fn script_decoded_as<T: DeepView>(
    r: Result<T, ScriptArgsError>,
    m: Result<T::V, ScriptArgsError>,
) -> bool {
    match m {
        Ok(v) => r is Ok && r->Ok_0.deep_view() == v,
        Err(e) => r == Err::<T, ScriptArgsError>(e),
    }
}

/// Decodes a value from a commitment-mode preimage, enforcing the canonical zero padding.
///
/// This is the pure half of commitment-mode [`ScriptArgs::decode`]: it runs anywhere, so hosts
/// can round-trip [`EncodedScriptArgs::Preimage`] felts without the VM. A decoder with a
/// statically known length always consumes exactly that many felts (the `FromFeltRepr`
/// contract proves it), so the decoded length needs no run-time check.
pub fn decode_preimage<T: FromFeltRepr>(preimage: &[Felt]) -> (r: Result<T, ScriptArgsError>)
    ensures
        script_decoded_as(r, spec_decode_preimage::<T>(preimage@)),
{
    let mut reader = FeltReader::new(preimage);
    let value = match T::from_felt_repr(&mut reader) {
        Ok(value) => value,
        Err(e) => return Err(ScriptArgsError::Decode(e)),
    };
    proof {
        T::lemma_fixed_len_consumed(preimage@, 0);
    }
    // Only the zero felts padding the encoding to a whole number of words may remain.
    if reader.remaining() >= WORD_NUM_ELEMENTS {
        return Err(ScriptArgsError::TrailingData);
    }
    match check_zero_padding(&mut reader) {
        Ok(()) => Ok(value),
        Err(e) => Err(e),
    }
}

/// The outcome of decoding word-mode arguments from the felts of the args word.
pub open spec fn spec_decode_word_mode<T: FromFeltRepr>(arg: Word) -> Result<
    T::V,
    ScriptArgsError,
> {
    match T::spec_from_felt_repr(arg@, 0) {
        (Err(e), _) => Err(ScriptArgsError::Decode(e)),
        (Ok(v), p) => match spec_check_zero_padding(arg@, p).0 {
            Err(e) => Err(e),
            Ok(_) => Ok(v),
        },
    }
}

/// The outcome of decoding arguments of type `T` from the args word: word mode decodes the
/// word itself; commitment mode needs the advice provider.
pub open spec fn spec_decode_script_args<T: FromFeltRepr>(arg: Word) -> Result<
    T::V,
    ScriptArgsError,
> {
    if spec_is_word_mode(T::spec_fixed_len()) {
        spec_decode_word_mode::<T>(arg)
    } else {
        Err(ScriptArgsError::AdviceProviderUnavailable)
    }
}

/// `n` zero felts.
pub open spec fn spec_zeros(n: nat) -> Seq<Felt> {
    Seq::new(n, |i: int| crate::felt::spec_felt(0))
}

/// The number of zero felts that pad `len` felts to a whole number of words.
pub open spec fn spec_word_padding(len: nat) -> nat {
    ((4 - len % 4) % 4) as nat
}

/// The transport encoding of a value with felt representation `enc`: packed into a word when
/// `T` is word-mode, otherwise the zero-padded commitment preimage.
pub open spec fn spec_encode_script_args<T: FromFeltRepr>(enc: Seq<Felt>) -> Result<
    Word,
    Seq<Felt>,
> {
    if spec_is_word_mode(T::spec_fixed_len()) {
        Ok(crate::felt::spec_word(enc + spec_zeros((4 - enc.len()) as nat)))
    } else {
        Err(enc + spec_zeros(spec_word_padding(enc.len())))
    }
}

/// `r` is the executable counterpart of the modelled transport encoding `m`.
pub open spec fn encoded_as(r: EncodedScriptArgs, m: Result<Word, Seq<Felt>>) -> bool {
    match (r, m) {
        (EncodedScriptArgs::Word(w), Ok(mw)) => w == mw,
        (EncodedScriptArgs::Preimage(v), Err(felts)) => v@ == felts,
        _ => false,
    }
}

/// Transaction-script arguments transported through the `TX_SCRIPT_ARGS` word.
///
/// Every type that implements both [`FromFeltRepr`] and [`ToFeltRepr`] is a `ScriptArgs`
/// automatically. The felt-repr encoding selects one of two transport modes:
///
/// - **Word mode** (a fixed length of at most 4 felts): the encoding is packed directly into the
///   args word; the unused felts are zero, and [`decode`](Self::decode) rejects anything else.
/// - **Commitment mode** (longer or variable-length encodings): the args word is the hash of the
///   zero-padded encoding, whose preimage comes from the advice provider.
pub trait ScriptArgs: Sized + Sealed + FromFeltRepr + ToFeltRepr {
    /// Decodes the arguments from the `TX_SCRIPT_ARGS` word.
    fn decode(arg: Word) -> (r: Result<Self, ScriptArgsError>)
        ensures
            script_decoded_as(r, spec_decode_script_args::<Self>(arg)),
    ;

    /// Encodes the arguments for transaction construction on the host.
    fn encode(&self) -> (r: EncodedScriptArgs)
        requires
            Self::spec_encodable(self.deep_view()),
            Self::spec_fixed_len() is Some ==> Self::spec_to_felt_repr(self.deep_view()).len()
                == Self::spec_fixed_len()->Some_0,
        ensures
            encoded_as(
                r,
                spec_encode_script_args::<Self>(Self::spec_to_felt_repr(self.deep_view())),
            ),
    ;
}

impl<T: FromFeltRepr + ToFeltRepr> ScriptArgs for T {
    fn decode(arg: Word) -> (r: Result<Self, ScriptArgsError>) {
        if is_word_mode(T::fixed_len()) {
            let felts = [arg.get(0), arg.get(1), arg.get(2), arg.get(3)];
            proof {
                assert(felts@ =~= arg@);
            }
            let mut reader = FeltReader::new(felts.as_slice());
            let value = match T::from_felt_repr(&mut reader) {
                Ok(value) => value,
                Err(e) => return Err(ScriptArgsError::Decode(e)),
            };
            proof {
                T::lemma_fixed_len_consumed(arg@, 0);
            }
            match check_zero_padding(&mut reader) {
                Ok(()) => Ok(value),
                Err(e) => Err(e),
            }
        } else {
            decode_commitment::<T>(arg)
        }
    }

    fn encode(&self) -> (r: EncodedScriptArgs) {
        let mut felts = self.to_felt_repr();
        let ghost enc = felts@;
        if is_word_mode(T::fixed_len()) {
            while felts.len() < WORD_NUM_ELEMENTS
                invariant
                    felts@.len() <= 4,
                    felts@ == enc + spec_zeros((felts@.len() - enc.len()) as nat),
                    enc.len() <= felts@.len(),
                decreases 4 - felts@.len(),
            {
                let ghost before = felts@;
                felts.push(Felt::zero());
                proof {
                    assert(felts@ =~= enc + spec_zeros((felts@.len() - enc.len()) as nat));
                }
            }
            let w = Word::new([felts[0], felts[1], felts[2], felts[3]]);
            proof {
                let elems = enc + spec_zeros((4 - enc.len()) as nat);
                assert(felts@ =~= elems);
                assert([felts@[0], felts@[1], felts@[2], felts@[3]]@ =~= elems);
                crate::felt::lemma_spec_word_view(elems);
                crate::felt::lemma_word_view_injective(w, crate::felt::spec_word(elems));
            }
            EncodedScriptArgs::Word(w)
        } else {
            // Zero-pad to a whole number of words; the padding is part of the hashed preimage.
            while felts.len() % WORD_NUM_ELEMENTS != 0
                invariant
                    enc.len() <= felts@.len() <= enc.len() + spec_word_padding(enc.len()),
                    felts@ == enc + spec_zeros((felts@.len() - enc.len()) as nat),
                decreases enc.len() + spec_word_padding(enc.len()) - felts@.len(),
            {
                felts.push(Felt::zero());
                proof {
                    assert(felts@ =~= enc + spec_zeros((felts@.len() - enc.len()) as nat));
                }
            }
            proof {
                assert((felts@.len() - enc.len()) as nat == spec_word_padding(enc.len()));
            }
            EncodedScriptArgs::Preimage(felts)
        }
    }
}

/// Commitment-mode decoding requires the advice provider, which only exists on the Miden VM.
fn decode_commitment<T: FromFeltRepr>(arg: Word) -> (r: Result<T, ScriptArgsError>)
    ensures
        r == Err::<T, ScriptArgsError>(ScriptArgsError::AdviceProviderUnavailable),
{
    Err(ScriptArgsError::AdviceProviderUnavailable)
}

/// Padding made only of zero felts passes the padding check.
proof fn lemma_zero_padding_ok(data: Seq<Felt>, pos: int)
    requires
        0 <= pos,
        forall|i: int| pos <= i < data.len() ==> (#[trigger] data[i])@ == 0,
    ensures
        spec_check_zero_padding(data, pos).0 is Ok,
    decreases data.len() - pos,
{
    if pos < data.len() {
        lemma_zero_padding_ok(data, pos + 1);
    }
}

/// Word mode: decoding the args word that a value encodes to gives back the value.
pub proof fn lemma_word_mode_round_trip<T: FromFeltRepr + ToFeltRepr>(m: T::V)
    requires
        crate::field_repr::round_trips::<T>(),
        crate::field_repr::fixed_len_is_encoded_len::<T>(),
        spec_is_word_mode(T::spec_fixed_len()),
        T::spec_encodable(m),
    ensures
        spec_encode_script_args::<T>(T::spec_to_felt_repr(m)) is Ok,
        spec_decode_script_args::<T>(
            spec_encode_script_args::<T>(T::spec_to_felt_repr(m))->Ok_0,
        ) == Ok::<T::V, ScriptArgsError>(m),
{
    let enc = T::spec_to_felt_repr(m);
    assert(enc.len() == T::spec_fixed_len()->Some_0);
    let elems = enc + spec_zeros((4 - enc.len()) as nat);
    crate::felt::lemma_spec_word_view(elems);
    let w = crate::felt::spec_word(elems);
    assert(w@ == elems);
    assert(crate::field_repr::decodes_encoding::<T>(
        m,
        Seq::empty(),
        spec_zeros((4 - enc.len()) as nat),
    ));
    assert(Seq::<Felt>::empty() + enc + spec_zeros((4 - enc.len()) as nat) =~= elems);
    lemma_zero_padding_ok(elems, enc.len() as int);
}

/// Commitment mode: decoding the zero-padded preimage that a value encodes to gives back the
/// value.
pub proof fn lemma_preimage_round_trip<T: FromFeltRepr + ToFeltRepr>(m: T::V)
    requires
        crate::field_repr::round_trips::<T>(),
        T::spec_encodable(m),
    ensures
        spec_decode_preimage::<T>(
            T::spec_to_felt_repr(m) + spec_zeros(spec_word_padding(T::spec_to_felt_repr(m).len())),
        ) == Ok::<T::V, ScriptArgsError>(m),
{
    let enc = T::spec_to_felt_repr(m);
    let pad = spec_zeros(spec_word_padding(enc.len()));
    let data = enc + pad;
    assert(crate::field_repr::decodes_encoding::<T>(m, Seq::empty(), pad));
    assert(Seq::<Felt>::empty() + enc + pad =~= data);
    lemma_zero_padding_ok(data, enc.len() as int);
}

/// Commitment mode: the preimage always holds a whole number of words.
pub proof fn lemma_preimage_whole_words<T: FromFeltRepr>(enc: Seq<Felt>)
    requires
        !spec_is_word_mode(T::spec_fixed_len()),
    ensures
        spec_encode_script_args::<T>(enc) is Err,
        spec_encode_script_args::<T>(enc)->Err_0.len() % 4 == 0,
        spec_encode_script_args::<T>(enc)->Err_0.len() < enc.len() + 4,
{
}

} // verus!
