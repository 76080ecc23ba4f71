use vstd::prelude::*;

verus! {

/// An MPLS label: a 20-bit value carried in a 24-bit wire field.
#[derive(Clone, Copy, Debug, PartialEq, Eq, Structural)]
pub struct Label {
    value: u32,
}

impl Label {
    /// The bits of a 24-bit wire field that hold the label value.
    pub const VALUE_MASK: u32 = 0x000F_FFFF;

    /// The largest label value that protocol convention reserves.
    pub const RESERVED_MAX: u32 = 15;

    pub closed spec fn view(&self) -> u32 {
        self.value
    }

    /// Every label holds a 20-bit value.
    #[verifier::type_invariant]
    pub closed spec fn wf(&self) -> bool {
        self.value <= 0x000F_FFFF
    }

    pub fn new(label: u32) -> (r: Label)
        requires
            label <= Label::VALUE_MASK,
        ensures
            r@ == label,
    {
        Label { value: label }
    }

    pub fn get(&self) -> (r: u32)
        ensures
            r == self@,
            r <= Label::VALUE_MASK,
    {
        proof {
            use_type_invariant(self);
        }
        self.value
    }

    pub fn is_reserved(&self) -> (r: bool)
        ensures
            r == (self@ <= Label::RESERVED_MAX),
    {
        self.value <= Label::RESERVED_MAX
    }
}

/// Masking a raw wire value with `VALUE_MASK` gives a label value, and masking again
/// changes nothing: for every raw value, the masked value is at most `VALUE_MASK`, which
/// is two to the power twenty less one, and is its own masked value.
pub proof fn lemma_value_mask(raw: u32)
    ensures
        Label::VALUE_MASK == 0x0F_FFFF,
        raw & Label::VALUE_MASK <= 0x0F_FFFF,
        (raw & Label::VALUE_MASK) & Label::VALUE_MASK == raw & Label::VALUE_MASK,
        raw <= Label::VALUE_MASK ==> raw & Label::VALUE_MASK == raw,
{
    assert(raw & 0x0F_FFFF <= 0x0F_FFFF) by (bit_vector);
    assert((raw & 0x0F_FFFF) & 0x0F_FFFF == raw & 0x0F_FFFF) by (bit_vector);
    assert(raw <= 0x0F_FFFF ==> raw & 0x0F_FFFF == raw) by (bit_vector);
}

} // verus!
