use midenc::felt::{Felt, Word};
use midenc::field_repr::{FeltReader, FeltReprError, FromFeltRepr, ToFeltRepr};
use midenc::script_args::{decode_preimage, EncodedScriptArgs, ScriptArgs, ScriptArgsError};

fn felt(value: u64) -> Felt {
    Felt::new(value).unwrap()
}

/// Word mode packs the encoding into the args word and zero-pads the unused felts.
#[test]
fn word_mode_encode_pads_with_zeros() {
    let EncodedScriptArgs::Word(word) = felt(7).encode() else {
        panic!("expected word mode for a single felt");
    };

    assert_eq!(word, Word::new([felt(7), felt(0), felt(0), felt(0)]));
}

/// Word mode decodes straight from the args word, without the advice provider.
#[test]
fn word_mode_roundtrip() {
    let value = felt(7);
    let EncodedScriptArgs::Word(word) = value.encode() else {
        panic!("expected word mode for a single felt");
    };

    assert_eq!(<Felt as ScriptArgs>::decode(word), Ok(value));
}

/// A full word of arguments is transported as-is.
#[test]
fn word_args_are_transported_verbatim() {
    let word = Word::new([felt(1), felt(2), felt(3), felt(4)]);
    let EncodedScriptArgs::Word(encoded) = word.encode() else {
        panic!("expected word mode for a word");
    };

    assert_eq!(encoded, word);
    assert_eq!(<Word as ScriptArgs>::decode(encoded), Ok(word));
}

/// Non-zero felts in the unused part of the args word fail the decode.
#[test]
fn word_mode_decode_rejects_nonzero_padding() {
    let word = Word::new([felt(7), felt(0), felt(0), felt(1)]);

    assert_eq!(<Felt as ScriptArgs>::decode(word), Err(ScriptArgsError::NonZeroPadding));
}

/// A word-mode decode error surfaces the underlying felt-repr failure.
#[test]
fn word_mode_decode_surfaces_felt_repr_errors() {
    let word = Word::new([felt(2), felt(0), felt(0), felt(0)]);

    assert_eq!(
        <bool as ScriptArgs>::decode(word),
        Err(ScriptArgsError::Decode(FeltReprError::InvalidBool {
            pos: 0,
            len: 4,
            value: 2
        }))
    );
}

/// Commitment mode zero-pads the preimage to a whole number of words.
#[test]
fn commitment_mode_encode_pads_to_word_multiple() {
    let values = vec![felt(5), felt(6)];
    let EncodedScriptArgs::Preimage(felts) = values.encode() else {
        panic!("expected commitment mode for a variable-length encoding");
    };

    // Length prefix, two elements, one felt of padding.
    assert_eq!(felts, vec![felt(2), felt(5), felt(6), felt(0)]);
}

/// Off-VM, commitment-mode decoding reports the missing advice provider as an error.
#[test]
fn commitment_mode_decode_reports_missing_advice_provider() {
    let word = Word::new([felt(1), felt(2), felt(3), felt(4)]);

    assert_eq!(
        <Vec<Felt> as ScriptArgs>::decode(word),
        Err(ScriptArgsError::AdviceProviderUnavailable)
    );
}

/// A commitment preimage with only zero padding decodes.
#[test]
fn decode_preimage_accepts_canonical_padding() {
    let decoded: Result<Vec<Felt>, ScriptArgsError> =
        decode_preimage(&[felt(2), felt(5), felt(6), felt(0)]);

    assert_eq!(decoded, Ok(vec![felt(5), felt(6)]));
}

/// A non-zero felt in the padding region fails the decode.
#[test]
fn decode_preimage_rejects_nonzero_padding() {
    let decoded: Result<Vec<Felt>, ScriptArgsError> =
        decode_preimage(&[felt(2), felt(5), felt(6), felt(9)]);

    assert_eq!(decoded, Err(ScriptArgsError::NonZeroPadding));
}

/// A whole extra word beyond the encoding fails the decode, even when it is all zeros.
#[test]
fn decode_preimage_rejects_extra_word() {
    let decoded: Result<Vec<Felt>, ScriptArgsError> = decode_preimage(&[
        felt(2),
        felt(5),
        felt(6),
        felt(0),
        felt(0),
        felt(0),
        felt(0),
        felt(0),
    ]);

    assert_eq!(decoded, Err(ScriptArgsError::TrailingData));
}

#[test]
fn word_mode_u64_round_trip_uses_two_limbs() {
    let value: u64 = 0x1234_5678_9abc_def0;
    let EncodedScriptArgs::Word(word) = value.encode() else {
        panic!("expected word mode for a u64");
    };
    assert_eq!(word, Word::new([felt(0x9abc_def0), felt(0x1234_5678), felt(0), felt(0)]));
    assert_eq!(<u64 as ScriptArgs>::decode(word), Ok(value));
}

#[test]
fn commitment_mode_preimage_round_trips_nested_values() {
    let value: Vec<Option<u32>> = vec![Some(3), None, Some(u32::MAX)];
    let EncodedScriptArgs::Preimage(felts) = value.encode() else {
        panic!("expected commitment mode for a vector");
    };
    assert_eq!(felts.len() % 4, 0);
    assert_eq!(
        felts,
        vec![felt(3), felt(1), felt(3), felt(0), felt(1), felt(u32::MAX as u64), felt(0), felt(0)]
    );
    let decoded: Result<Vec<Option<u32>>, ScriptArgsError> = decode_preimage(&felts);
    assert_eq!(decoded, Ok(value));
}

#[test]
fn decode_preimage_reports_truncated_input() {
    let decoded: Result<Vec<Felt>, ScriptArgsError> = decode_preimage(&[felt(3), felt(5)]);
    assert_eq!(
        decoded,
        Err(ScriptArgsError::Decode(FeltReprError::UnexpectedEof { pos: 2, len: 2 }))
    );
}

#[test]
fn reader_reports_out_of_range_u8() {
    let data = [felt(256)];
    let mut reader = FeltReader::new(&data);
    assert_eq!(
        u8::from_felt_repr(&mut reader),
        Err(FeltReprError::ValueOutOfRange { pos: 0, len: 1, ty: "u8", value: 256, max: 255 })
    );
    assert_eq!(reader.pos(), 1);
}

#[test]
fn option_tag_must_be_zero_or_one() {
    let data = [felt(2), felt(7)];
    let mut reader = FeltReader::new(&data);
    assert_eq!(
        Option::<u32>::from_felt_repr(&mut reader),
        Err(FeltReprError::InvalidOptionTag { pos: 0, len: 2, tag: 2 })
    );
}

#[test]
fn to_felt_repr_of_bool_and_u8() {
    assert_eq!(true.to_felt_repr(), vec![felt(1)]);
    assert_eq!(false.to_felt_repr(), vec![felt(0)]);
    assert_eq!(200u8.to_felt_repr(), vec![felt(200)]);
}
