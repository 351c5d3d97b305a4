//! Field elements of the Miden VM (the Goldilocks prime field) and words of four elements.

use vstd::prelude::*;

verus! {

/// The modulus of the Miden base field: `2^64 - 2^32 + 1`.
pub const MODULUS: u64 = 0xFFFF_FFFF_0000_0001u64;

/// Error returned when a `u64` is not the canonical representative of a field element.
#[derive(Clone, Copy, Debug, PartialEq, Eq, Structural)]
pub struct FeltError {
    /// The rejected value.
    pub value: u64,
}

/// An element of the Miden base field, kept in canonical form (`value < MODULUS`).
#[derive(Clone, Copy, Debug, PartialEq, Eq, Structural)]
pub struct Felt {
    value: u64,
}

impl View for Felt {
    type V = u64;

    /// The canonical integer representative of this element.
    closed spec fn view(&self) -> u64 {
        self.value
    }
}

impl DeepView for Felt {
    type V = Felt;

    open spec fn deep_view(&self) -> Felt {
        *self
    }
}

/// The field element whose canonical representative is `value`.
pub closed spec fn spec_felt(value: u64) -> Felt {
    Felt { value }
}

/// The canonical representative determines the element.
pub broadcast proof fn lemma_felt_view_injective(a: Felt, b: Felt)
    ensures
        #[trigger] (a@) == #[trigger] (b@) ==> a == b,
{
}

/// `spec_felt` names the element with the given canonical value.
pub broadcast proof fn lemma_spec_felt_view(value: u64)
    ensures
        #[trigger] spec_felt(value)@ == value,
{
}

/// Every element is named by its canonical value.
pub broadcast proof fn lemma_felt_is_spec_felt(f: Felt)
    ensures
        #[trigger] spec_felt(f@) == f,
{
}

pub broadcast group group_felt {
    lemma_felt_view_injective,
    lemma_spec_felt_view,
    lemma_felt_is_spec_felt,
}

impl Felt {
    #[verifier::type_invariant]
    spec fn canonical(self) -> bool {
        self.value < MODULUS
    }

    /// The additive identity.
    pub fn zero() -> (r: Felt)
        ensures
            r@ == 0,
    {
        Felt { value: 0 }
    }

    /// The multiplicative identity.
    pub fn one() -> (r: Felt)
        ensures
            r@ == 1,
    {
        Felt { value: 1 }
    }

    /// Creates the element with canonical value `value`, rejecting values `>= MODULUS`.
    pub fn new(value: u64) -> (r: Result<Felt, FeltError>)
        ensures
            value < MODULUS ==> r == Ok::<Felt, FeltError>(spec_felt(value)),
            value >= MODULUS ==> r == Err::<Felt, FeltError>(FeltError { value }),
    {
        if value < MODULUS {
            Ok(Felt { value })
        } else {
            Err(FeltError { value })
        }
    }

    /// Creates an element from a value known to be smaller than the modulus.
    pub fn from_u32(value: u32) -> (r: Felt)
        ensures
            r == spec_felt(value as u64),
    {
        Felt { value: value as u64 }
    }

    /// Returns the canonical integer representative of this element.
    pub fn as_canonical_u64(&self) -> (r: u64)
        ensures
            r == self@,
            r < MODULUS,
    {
        proof {
            use_type_invariant(self);
        }
        self.value
    }
}

/// A word: four field elements.
#[derive(Clone, Copy, Debug, PartialEq, Eq, Structural)]
pub struct Word {
    a: Felt,
    b: Felt,
    c: Felt,
    d: Felt,
}

impl View for Word {
    type V = Seq<Felt>;

    /// The four elements of the word, in order.
    closed spec fn view(&self) -> Seq<Felt> {
        seq![self.a, self.b, self.c, self.d]
    }
}

impl DeepView for Word {
    type V = Word;

    open spec fn deep_view(&self) -> Word {
        *self
    }
}

/// The word made of the given four elements.
pub closed spec fn spec_word(elements: Seq<Felt>) -> Word {
    Word { a: elements[0], b: elements[1], c: elements[2], d: elements[3] }
}

/// A word has exactly four elements.
pub broadcast proof fn lemma_word_len(w: Word)
    ensures
        #[trigger] w@.len() == 4,
{
}

/// A word is determined by its elements.
pub broadcast proof fn lemma_word_view_injective(w1: Word, w2: Word)
    ensures
        #[trigger] (w1@) =~= #[trigger] (w2@) ==> w1 == w2,
{
    if w1@ =~= w2@ {
        assert(w1@[0] == w2@[0] && w1@[1] == w2@[1] && w1@[2] == w2@[2] && w1@[3] == w2@[3]);
    }
}

/// `spec_word` builds the word with the given elements.
pub broadcast proof fn lemma_spec_word_view(elements: Seq<Felt>)
    requires
        elements.len() == 4,
    ensures
        #[trigger] spec_word(elements)@ == elements,
{
    assert(spec_word(elements)@ =~= elements);
}

pub broadcast group group_word {
    lemma_word_len,
    lemma_word_view_injective,
    lemma_spec_word_view,
}

/// The number of field elements in a word.
pub const WORD_NUM_ELEMENTS: usize = 4;

impl Word {
    /// Creates a word from its four elements.
    pub fn new(elements: [Felt; 4]) -> (r: Word)
        ensures
            r@ == elements@,
    {
        let r = Word { a: elements[0], b: elements[1], c: elements[2], d: elements[3] };
        assert(r@ =~= elements@);
        r
    }

    /// Returns the element at `index`.
    pub fn get(&self, index: usize) -> (r: Felt)
        requires
            index < 4,
        ensures
            r == self@[index as int],
    {
        if index == 0 {
            self.a
        } else if index == 1 {
            self.b
        } else if index == 2 {
            self.c
        } else {
            self.d
        }
    }

    /// Returns the four elements of the word, in order.
    pub fn as_elements(&self) -> (r: [Felt; 4])
        ensures
            r@ == self@,
    {
        let r = [self.a, self.b, self.c, self.d];
        assert(r@ =~= self@);
        r
    }
}

} // verus!
