use midenc::felt::Felt;
use midenc::rodata::Rodata;

fn validate_bytes_to_elements(bytes: &[u8]) {
    let result = Rodata::bytes_to_elements(bytes);

    // Each felt represents 4 bytes
    let expected_felts = bytes.len().div_ceil(4);
    // Felts should be padded to a multiple of 4 (1 word = 4 felts)
    let expected_total_felts = expected_felts.div_ceil(4) * 4;

    assert_eq!(
        result.len(),
        expected_total_felts,
        "For {} bytes, expected {} felts (padded from {} felts), but got {}",
        bytes.len(),
        expected_total_felts,
        expected_felts,
        result.len()
    );

    // Verify padding is zeros
    for (i, felt) in result.iter().enumerate().skip(expected_felts) {
        assert_eq!(*felt, Felt::zero(), "Padding at index {i} should be zero");
    }
}

#[test]
fn test_bytes_to_elements_edge_cases() {
    validate_bytes_to_elements(&[]);
    validate_bytes_to_elements(&[1]);
    validate_bytes_to_elements(&[0u8; 4]);
    validate_bytes_to_elements(&[0u8; 15]);
    validate_bytes_to_elements(&[0u8; 16]);
    validate_bytes_to_elements(&[0u8; 17]);
    validate_bytes_to_elements(&[0u8; 31]);
    validate_bytes_to_elements(&[0u8; 32]);
    validate_bytes_to_elements(&[0u8; 33]);
    validate_bytes_to_elements(&[0u8; 64]);
}

#[test]
fn bytes_pack_little_endian_with_zero_fill() {
    let felts = Rodata::bytes_to_elements(&[1, 2, 3, 4, 5, 6]);
    let values: Vec<u64> = felts.iter().map(|f| f.as_canonical_u64()).collect();
    assert_eq!(values, vec![0x0403_0201, 0x0000_0605, 0, 0]);
}

#[test]
fn segment_sizes_round_up_to_felts_and_words() {
    let rodata = Rodata {
        digest: midenc::felt::Word::new([Felt::zero(); 4]),
        start: 0,
        data: vec![7u8; 17],
    };
    assert_eq!(rodata.size_in_bytes(), 17);
    assert_eq!(rodata.size_in_felts(), 5);
    assert_eq!(rodata.size_in_words(), 2);
    let felts = rodata.to_elements();
    assert_eq!(felts.len(), 8);
    assert_eq!(felts[4].as_canonical_u64(), 7);
    assert_eq!(felts[0].as_canonical_u64(), 0x0707_0707);
}
