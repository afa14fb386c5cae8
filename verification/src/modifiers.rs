//! The set of modifier keys held down at the time of an event.

use vstd::prelude::*;

verus! {

/// The set of modifier keys (e.g. Ctrl, Alt, and Shift) that were pressed at the time of an
/// event. Represented as an opaque bitmap to allow for extension with other keys, such as a
/// Meta or Command key.
#[derive(Copy, Clone, Debug, PartialEq, Eq, Structural)]
pub struct Modifiers(u8);

impl Modifiers {
    /// No modifier key.
    #[verifier::when_used_as_spec(spec_none)]
    pub fn none() -> (out: Modifiers)
        ensures
            out == Modifiers::spec_none(),
    {
        Modifiers(0)
    }

    /// The Shift key.
    #[verifier::when_used_as_spec(spec_shift)]
    pub fn shift() -> (out: Modifiers)
        ensures
            out == Modifiers::spec_shift(),
    {
        Modifiers(0b1)
    }

    /// The Alt key.
    #[verifier::when_used_as_spec(spec_alt)]
    pub fn alt() -> (out: Modifiers)
        ensures
            out == Modifiers::spec_alt(),
    {
        Modifiers(0b10)
    }

    /// The Ctrl key.
    #[verifier::when_used_as_spec(spec_ctrl)]
    pub fn ctrl() -> (out: Modifiers)
        ensures
            out == Modifiers::spec_ctrl(),
    {
        Modifiers(0b100)
    }

    /// The empty set.
    pub closed spec fn spec_none() -> Modifiers {
        Modifiers(0)
    }

    /// The set that holds Shift alone.
    pub closed spec fn spec_shift() -> Modifiers {
        Modifiers(0b1)
    }

    /// The set that holds Alt alone.
    pub closed spec fn spec_alt() -> Modifiers {
        Modifiers(0b10)
    }

    /// The set that holds Ctrl alone.
    pub closed spec fn spec_ctrl() -> Modifiers {
        Modifiers(0b100)
    }

    /// The bitmap behind the set: one bit per modifier key.
    pub closed spec fn bits(self) -> u8 {
        self.0
    }

    /// The keys that are in `self`, in `other` or in both.
    pub closed spec fn union(self, other: Modifiers) -> Modifiers {
        Modifiers(self.0 | other.0)
    }

    /// The keys that are in both `self` and `other`.
    pub closed spec fn intersection(self, other: Modifiers) -> Modifiers {
        Modifiers(self.0 & other.0)
    }

    /// The keys that are in `self` and not in `other`.
    pub closed spec fn difference(self, other: Modifiers) -> Modifiers {
        Modifiers(self.0 & !other.0)
    }

    /// Whether every key of `other` is also in `self`.
    pub open spec fn contains(self, other: Modifiers) -> bool {
        self.bits() & other.bits() == other.bits()
    }

    /// Two sets with the same bitmap are the same set.
    pub proof fn lemma_bits_injective(a: Modifiers, b: Modifiers)
        ensures
            a.bits() == b.bits() <==> a == b,
    {
    }

    /// The bitmaps of the named sets.
    pub proof fn lemma_named_bits()
        ensures
            Modifiers::none().bits() == 0u8,
            Modifiers::shift().bits() == 0b1u8,
            Modifiers::alt().bits() == 0b10u8,
            Modifiers::ctrl().bits() == 0b100u8,
    {
    }

    /// The bitmaps of union, intersection and difference.
    pub proof fn lemma_bits_of_operations(a: Modifiers, b: Modifiers)
        ensures
            a.union(b).bits() == a.bits() | b.bits(),
            a.intersection(b).bits() == a.bits() & b.bits(),
            a.difference(b).bits() == a.bits() & !b.bits(),
    {
    }

    /// A union, intersected with one of its operands, is that operand.
    pub proof fn law_union_then_intersection(a: Modifiers, b: Modifiers)
        ensures
            a.union(b).intersection(a) == a,
    {
        let x = a.0;
        let y = b.0;
        assert((x | y) & x == x) by (bit_vector);
    }

    /// To take `b` out of the union of `a` and `b` is to take `b` out of `a`.
    pub proof fn law_union_then_difference(a: Modifiers, b: Modifiers)
        ensures
            a.union(b).difference(b) == a.difference(b),
    {
        let x = a.0;
        let y = b.0;
        assert((x | y) & !y == x & !y) by (bit_vector);
    }

    /// The empty set changes nothing in a union, and leaves nothing of an intersection;
    /// to take it out takes nothing out.
    pub proof fn law_none(a: Modifiers)
        ensures
            a.union(Modifiers::none()) == a,
            Modifiers::none().union(a) == a,
            a.intersection(Modifiers::none()) == Modifiers::none(),
            Modifiers::none().intersection(a) == Modifiers::none(),
            a.difference(Modifiers::none()) == a,
    {
        let x = a.0;
        assert(x | 0u8 == x) by (bit_vector);
        assert(0u8 | x == x) by (bit_vector);
        assert(x & 0u8 == 0u8) by (bit_vector);
        assert(0u8 & x == 0u8) by (bit_vector);
        assert(x & !0u8 == x) by (bit_vector);
    }

    /// Union and intersection do not depend on the order of their operands, and a set
    /// joined or intersected with itself is itself.
    pub proof fn law_commutative_idempotent(a: Modifiers, b: Modifiers)
        ensures
            a.union(b) == b.union(a),
            a.intersection(b) == b.intersection(a),
            a.union(a) == a,
            a.intersection(a) == a,
            a.difference(a) == Modifiers::none(),
    {
        let x = a.0;
        let y = b.0;
        assert(x | y == y | x) by (bit_vector);
        assert(x & y == y & x) by (bit_vector);
        assert(x | x == x) by (bit_vector);
        assert(x & x == x) by (bit_vector);
        assert(x & !x == 0u8) by (bit_vector);
    }

    /// No named key stands for another: Shift, Alt and Ctrl are not empty and share no key.
    pub proof fn law_named_keys_apart()
        ensures
            Modifiers::shift() != Modifiers::none(),
            Modifiers::alt() != Modifiers::none(),
            Modifiers::ctrl() != Modifiers::none(),
            Modifiers::shift().intersection(Modifiers::alt()) == Modifiers::none(),
            Modifiers::shift().intersection(Modifiers::ctrl()) == Modifiers::none(),
            Modifiers::alt().intersection(Modifiers::ctrl()) == Modifiers::none(),
    {
        assert(0b1u8 & 0b10u8 == 0u8) by (bit_vector);
        assert(0b1u8 & 0b100u8 == 0u8) by (bit_vector);
        assert(0b10u8 & 0b100u8 == 0u8) by (bit_vector);
    }

    /// `self` with the keys of `other` taken out.
    pub fn remove(self, other: Modifiers) -> (out: Modifiers)
        ensures
            out == self.difference(other),
            out.bits() == self.bits() & !other.bits(),
    {
        Modifiers(self.0 & !other.0)
    }

    /// The keys that are in `self`, in `other` or in both.
    pub fn bitor(self, other: Modifiers) -> (out: Modifiers)
        ensures
            out == self.union(other),
            out.bits() == self.bits() | other.bits(),
    {
        Modifiers(self.0 | other.0)
    }

    /// The keys that are in both `self` and `other`.
    pub fn bitand(self, other: Modifiers) -> (out: Modifiers)
        ensures
            out == self.intersection(other),
            out.bits() == self.bits() & other.bits(),
    {
        Modifiers(self.0 & other.0)
    }

    /// Whether the two sets hold exactly the same keys.
    pub fn eq(&self, other: &Modifiers) -> (same: bool)
        ensures
            same == (self.bits() == other.bits()),
            same == (*self == *other),
    {
        self.0 == other.0
    }
}

/// `a | b` is the union of `a` and `b`.
impl core::ops::BitOr for Modifiers {
    type Output = Modifiers;

    fn bitor(self, other: Modifiers) -> (out: Modifiers) {
        Modifiers(self.0 | other.0)
    }
}

impl vstd::std_specs::ops::BitOrSpecImpl for Modifiers {
    open spec fn obeys_bitor_spec() -> bool {
        true
    }

    open spec fn bitor_req(self, other: Modifiers) -> bool {
        true
    }

    open spec fn bitor_spec(self, other: Modifiers) -> Modifiers {
        self.union(other)
    }
}

/// `a & b` is the intersection of `a` and `b`.
impl core::ops::BitAnd for Modifiers {
    type Output = Modifiers;

    fn bitand(self, other: Modifiers) -> (out: Modifiers) {
        Modifiers(self.0 & other.0)
    }
}

impl vstd::std_specs::ops::BitAndSpecImpl for Modifiers {
    open spec fn obeys_bitand_spec() -> bool {
        true
    }

    open spec fn bitand_req(self, other: Modifiers) -> bool {
        true
    }

    open spec fn bitand_spec(self, other: Modifiers) -> Modifiers {
        self.intersection(other)
    }
}

} // verus!
