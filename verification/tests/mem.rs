use midenc::mem::{prepare_addr, AddressPreparation, AddressSpace, AlignmentCheck, PointeeType, WasmMemArg};

#[test]
fn mem_arg_new_keeps_fields() {
    let m = WasmMemArg::new(16, 2);
    assert_eq!((m.offset, m.align), (16, 2));
    assert_eq!(WasmMemArg::default(), WasmMemArg::new(0, 0));
}

#[test]
fn element_aligned_element_access_uses_element_space() {
    let p = prepare_addr(PointeeType::I32, PointeeType::U32, Some(WasmMemArg::new(8, 2)));
    assert_eq!(
        p,
        AddressPreparation { offset: Some(8), check: AlignmentCheck::ElementDivmod, address_space: AddressSpace::Element }
    );
}

#[test]
fn other_aligned_access_checks_byte_modulus() {
    let p = prepare_addr(PointeeType::I32, PointeeType::Other, Some(WasmMemArg::new(0, 3)));
    assert_eq!(
        p,
        AddressPreparation { offset: None, check: AlignmentCheck::ByteModulus(8), address_space: AddressSpace::Byte }
    );
    let p = prepare_addr(PointeeType::I32, PointeeType::Felt, Some(WasmMemArg::new(0, 1)));
    assert_eq!(p.check, AlignmentCheck::ByteModulus(2));
    assert_eq!(p.address_space, AddressSpace::Byte);
}

#[test]
fn unaligned_access_is_unchecked_and_offset_truncates() {
    let p = prepare_addr(PointeeType::I32, PointeeType::I32, Some(WasmMemArg::new(0x1_0000_0004, 0)));
    assert_eq!(
        p,
        AddressPreparation { offset: Some(4), check: AlignmentCheck::Unchecked, address_space: AddressSpace::Byte }
    );
    let p = prepare_addr(PointeeType::I32, PointeeType::I32, None);
    assert_eq!(
        p,
        AddressPreparation { offset: None, check: AlignmentCheck::Unchecked, address_space: AddressSpace::Byte }
    );
}
