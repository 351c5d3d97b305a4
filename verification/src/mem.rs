//! Wasm memory accesses: memory immediates, and how an access address is prepared for Miden
//! memory (its address space and the alignment it must be checked for).

use vstd::prelude::*;

use vstd::arithmetic::power2::pow2;

verus! {

/// The base-2 logarithm of the byte alignment of a Miden memory element.
pub const ELEMENT_ALIGNMENT_LOG2: u8 = 2;

/// The size of a Miden memory element in the byte-addressable address space.
pub const ELEMENT_SIZE_BYTES: u32 = 4;

/// Represents a memory immediate in a WebAssembly memory instruction.
#[derive(Debug, Clone, Copy, Default, Hash, Eq, PartialEq)]
pub struct WasmMemArg {
    /// A fixed byte-offset that this memory immediate specifies.
    ///
    /// Note that the memory64 proposal can specify a full 64-bit byte offset while otherwise
    /// only 32-bit offsets are allowed. Once validated memory immediates for 32-bit memories are
    /// guaranteed to be at most `u32::MAX` whereas 64-bit memories can use the full 64-bits.
    pub offset: u64,
    /// Alignment, stored as `n` where the actual alignment is `2^n`
    pub align: u8,
}

impl WasmMemArg {
    /// Creates a memory immediate.
    pub fn new(offset: u64, align: u8) -> (r: Self)
        ensures
            r.offset == offset,
            r.align == align,
    {
        WasmMemArg { offset, align }
    }
}

/// A value type, as far as address preparation is concerned: the type a pointer points to, or
/// the type of the integer address itself.
#[derive(Debug, Clone, Copy, PartialEq, Eq)]
pub enum PointeeType {
    /// A field element.
    Felt,
    /// A signed 32-bit integer.
    I32,
    /// An unsigned 32-bit integer.
    U32,
    /// Any other type.
    Other,
}

/// The address space of a pointer.
#[derive(Debug, Clone, Copy, PartialEq, Eq)]
pub enum AddressSpace {
    /// Byte addresses.
    Byte,
    /// Miden memory element addresses (byte address divided by the element size).
    Element,
}

/// The run-time alignment check of an access.
#[derive(Debug, Clone, Copy, PartialEq, Eq)]
pub enum AlignmentCheck {
    /// No alignment is promised: nothing is checked.
    Unchecked,
    /// The address is divided by [`ELEMENT_SIZE_BYTES`]; the remainder is asserted to be zero and the
    /// quotient is the element address.
    ElementDivmod,
    /// The address modulo the given power of two is asserted to be zero.
    ByteModulus(u32),
}

/// How an access address is prepared: the immediate offset added to it, the alignment check,
/// and the address space of the resulting pointer.
#[derive(Debug, Clone, Copy, PartialEq, Eq)]
pub struct AddressPreparation {
    /// The offset added to the address, if any (the immediate truncated to 32 bits).
    pub offset: Option<u32>,
    /// The alignment check of the address.
    pub check: AlignmentCheck,
    /// The address space of the pointer.
    pub address_space: AddressSpace,
}

/// Whether a pointee is element sized (felt, i32, u32).
pub open spec fn is_element_sized(p: PointeeType) -> bool {
    p is Felt || p is I32 || p is U32
}

/// Whether an access with this immediate needs a byte-modulus check wider than 32 bits could
/// hold: alignment is checked, but not through the element divmod.
pub open spec fn needs_byte_modulus(pointee: PointeeType, align: u8) -> bool {
    align > 0 && !(align >= ELEMENT_ALIGNMENT_LOG2 && is_element_sized(pointee))
}

/// The preparation of an access to a `pointee` with the memory immediate `memarg`.
///
/// An access promising element alignment (`align >= 2`) of an element-sized pointee uses the
/// element address space, checked and converted by one divmod; any other access promising an
/// alignment keeps the byte address and checks it modulo `2^align`; an access promising nothing
/// is not checked. A non-zero immediate offset is added first.
pub open spec fn spec_address_preparation(pointee: PointeeType, memarg: Option<WasmMemArg>) -> AddressPreparation {
    match memarg {
        None => AddressPreparation {
            offset: None,
            check: AlignmentCheck::Unchecked,
            address_space: AddressSpace::Byte,
        },
        Some(m) => AddressPreparation {
            offset: if m.offset != 0 {
                Some(m.offset as u32)
            } else {
                None
            },
            check: if m.align == 0 {
                AlignmentCheck::Unchecked
            } else if m.align >= ELEMENT_ALIGNMENT_LOG2 && is_element_sized(pointee) {
                AlignmentCheck::ElementDivmod
            } else {
                AlignmentCheck::ByteModulus(pow2(m.align as nat) as u32)
            },
            address_space: if m.align > 0 && m.align >= ELEMENT_ALIGNMENT_LOG2 && is_element_sized(
                pointee,
            ) {
                AddressSpace::Element
            } else {
                AddressSpace::Byte
            },
        },
    }
}

/// Decides the alignment check and address space of an aligned access.
fn enforce_alignment(pointee: PointeeType, align: u8) -> (r: (AlignmentCheck, AddressSpace))
    requires
        align > 0,
        needs_byte_modulus(pointee, align) ==> align < 32,
    ensures
        r.0 == spec_address_preparation(pointee, Some(WasmMemArg { offset: 0, align })).check,
        r.1 == spec_address_preparation(pointee, Some(WasmMemArg { offset: 0, align })).address_space,
{
    let element_sized = match pointee {
        PointeeType::Felt | PointeeType::I32 | PointeeType::U32 => true,
        PointeeType::Other => false,
    };
    if align >= ELEMENT_ALIGNMENT_LOG2 && element_sized {
        // A successful divmod both proves natural alignment and converts the byte address to
        // the element address consumed directly by Miden memory operations.
        (AlignmentCheck::ElementDivmod, AddressSpace::Element)
    } else {
        let shift = align as u32;
        proof {
            vstd::bits::lemma_u32_pow2_no_overflow(shift as nat);
            vstd::bits::lemma_u32_shl_is_mul(1, shift);
        }
        (AlignmentCheck::ByteModulus(1u32 << shift), AddressSpace::Byte)
    }
}

/// Decides how an integer address of type `addr_ty` is prepared as a pointer to `pointee`: it is
/// reinterpreted as `u32`, then offset, checked and converted as `spec_address_preparation` says.
///
/// Alignment promises are enforced: an access promising an alignment traps at run time when its
/// effective address violates it.
///
/// The address must have type `I32`.
pub fn prepare_addr(addr_ty: PointeeType, pointee: PointeeType, memarg: Option<WasmMemArg>) -> (r:
    AddressPreparation)
    requires
        addr_ty is I32,
        memarg matches Some(m) ==> (needs_byte_modulus(pointee, m.align) ==> m.align < 32),
    ensures
        r == spec_address_preparation(pointee, memarg),
{
    match memarg {
        None => AddressPreparation {
            offset: None,
            check: AlignmentCheck::Unchecked,
            address_space: AddressSpace::Byte,
        },
        Some(memarg) => {
            let offset = if memarg.offset != 0 {
                Some(memarg.offset as u32)
            } else {
                None
            };
            if memarg.align > 0 {
                let (check, address_space) = enforce_alignment(pointee, memarg.align);
                AddressPreparation { offset, check, address_space }
            } else {
                AddressPreparation {
                    offset,
                    check: AlignmentCheck::Unchecked,
                    address_space: AddressSpace::Byte,
                }
            }
        },
    }
}


/// How an access is checked and addressed follows from its pointee and promised alignment alone:
///
/// - an access promising nothing (no immediate, or alignment `2^0`) is not checked and keeps the
///   byte address;
/// - an access to a felt, `i32` or `u32` promising element alignment (`align >= 2`) is checked and
///   converted by one divmod, into the element address space;
/// - any other access promising an alignment keeps the byte address and is checked modulo
///   `2^align`;
///
/// and the immediate offset, when not zero, is added as a 32-bit value.
pub proof fn lemma_address_preparation_cases(pointee: PointeeType, memarg: Option<WasmMemArg>)
    ensures
        ({
            let r = spec_address_preparation(pointee, memarg);
            &&& memarg is None ==> r.offset is None && r.check is Unchecked && r.address_space
                is Byte
            &&& memarg matches Some(m) ==> {
                &&& (m.offset == 0 ==> r.offset is None)
                &&& (m.offset != 0 ==> r.offset == Some(m.offset as u32))
                &&& (m.align == 0 ==> r.check is Unchecked && r.address_space is Byte)
                &&& (m.align >= 2 && (pointee is Felt || pointee is I32 || pointee is U32) ==> r.check
                    is ElementDivmod && r.address_space is Element)
                &&& (m.align == 1 ==> r.check == AlignmentCheck::ByteModulus(2) && r.address_space
                    is Byte)
                &&& (m.align > 0 && pointee is Other ==> r.check == AlignmentCheck::ByteModulus(
                    pow2(m.align as nat) as u32,
                ) && r.address_space is Byte)
            }
        }),
{
    if let Some(m) = memarg {
        if m.align == 1 {
            vstd::arithmetic::power2::lemma2_to64();
        }
    }
}

/// An element-aligned access to an element-sized pointee never keeps a byte address, whatever
/// its offset: the divmod that checks its alignment also yields its element address.
pub proof fn lemma_element_aligned_access_is_element_addressed(pointee: PointeeType, offset: u64, align: u8)
    requires
        align >= ELEMENT_ALIGNMENT_LOG2,
        pointee is Felt || pointee is I32 || pointee is U32,
    ensures
        spec_address_preparation(pointee, Some(WasmMemArg { offset, align })).check is ElementDivmod,
        spec_address_preparation(pointee, Some(WasmMemArg { offset, align })).address_space is Element,
{
}

} // verus!
