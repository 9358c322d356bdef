//! Single-bit fields of a 32-bit register value.
use vstd::prelude::*;

verus! {

/// Bit `n` of `v`.
pub open spec fn bit_of(v: u32, n: u32) -> bool {
    (v >> n) & 1u32 != 0u32
}

/// A 32-bit register value read and changed one bit at a time.
#[derive(Debug, Clone, Copy, PartialEq, Eq, Structural)]
pub struct Bitfield32(pub u32);

impl Bitfield32 {
    /// The value `value`.
    pub fn from_raw(value: u32) -> (r: Self)
        ensures
            r.0 == value,
    {
        Bitfield32(value)
    }

    /// The raw value.
    pub fn raw(&self) -> (r: u32)
        ensures
            r == self.0,
    {
        self.0
    }

    /// Whether bit `n` is set.
    pub fn bit(&self, n: u32) -> (r: bool)
        requires
            n < 32,
        ensures
            r == bit_of(self.0, n),
    {
        (self.0 >> n) & 1 != 0
    }

    /// Sets bit `n` to `value`, keeping every other bit.
    pub fn set_bit(&mut self, n: u32, value: bool)
        requires
            n < 32,
        ensures
            bit_of(final(self).0, n) == value,
            forall|m: u32| m < 32 && m != n ==> bit_of(final(self).0, m) == bit_of(old(self).0, m),
    {
        let old_v = self.0;
        let v = if value {
            old_v | (1u32 << n)
        } else {
            old_v & !(1u32 << n)
        };
        assert(bit_of(v, n) == value) by (bit_vector)
            requires
                n < 32,
                v == if value { old_v | (1u32 << n) } else { old_v & !(1u32 << n) },
        ;
        assert forall|m: u32| m < 32 && m != n implies bit_of(v, m) == bit_of(old_v, m) by {
            assert(bit_of(v, m) == bit_of(old_v, m)) by (bit_vector)
                requires
                    n < 32,
                    m < 32,
                    m != n,
                    v == if value { old_v | (1u32 << n) } else { old_v & !(1u32 << n) },
            ;
        }
        self.0 = v;
    }
}

impl From<u32> for Bitfield32 {
    fn from(value: u32) -> (r: Bitfield32) {
        Bitfield32(value)
    }
}

impl vstd::std_specs::convert::FromSpecImpl<u32> for Bitfield32 {
    open spec fn obeys_from_spec() -> bool {
        true
    }

    open spec fn from_spec(value: u32) -> Bitfield32 {
        Bitfield32(value)
    }
}

impl From<Bitfield32> for u32 {
    fn from(value: Bitfield32) -> (r: u32) {
        value.0
    }
}

impl vstd::std_specs::convert::FromSpecImpl<Bitfield32> for u32 {
    open spec fn obeys_from_spec() -> bool {
        true
    }

    open spec fn from_spec(value: Bitfield32) -> u32 {
        value.0
    }
}

} // verus!
