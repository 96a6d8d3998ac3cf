//! Capability keys shared across platforms, and sets of them.

use vstd::prelude::*;

verus! {

/// Compile-time capability key used across platforms.
#[derive(Debug, Clone, Copy, PartialEq, Eq)]
pub enum Capability {
    Wifi,
    Rmt,
    I2s,
    AudioGpio,
    ButtonGpio,
    HighGpioPins,
    ExtendedGpio,
}

/// The bit position of each capability in a [`CapabilitySet`].
pub open spec fn capability_index(capability: Capability) -> u32 {
    match capability {
        Capability::Wifi => 0,
        Capability::Rmt => 1,
        Capability::I2s => 2,
        Capability::AudioGpio => 3,
        Capability::ButtonGpio => 4,
        Capability::HighGpioPins => 5,
        Capability::ExtendedGpio => 6,
    }
}

impl Capability {
    fn bit(self) -> (bit: u32)
        ensures
            bit == 1u32 << capability_index(self),
    {
        match self {
            Capability::Wifi => 1 << 0,
            Capability::Rmt => 1 << 1,
            Capability::I2s => 1 << 2,
            Capability::AudioGpio => 1 << 3,
            Capability::ButtonGpio => 1 << 4,
            Capability::HighGpioPins => 1 << 5,
            Capability::ExtendedGpio => 1 << 6,
        }
    }
}

/// Bitset of [`Capability`] values.
#[derive(Debug, Clone, Copy, PartialEq, Eq)]
pub struct CapabilitySet {
    bits: u32,
}

/// Bit `index` of `bits` is set.
pub open spec fn bit_set(bits: u32, index: u32) -> bool {
    bits & (1u32 << index) != 0
}

impl CapabilitySet {
    /// The set as the capabilities it holds.
    pub closed spec fn view(self) -> Set<Capability> {
        Set::new(|capability: Capability| bit_set(self.bits, capability_index(capability)))
    }

    /// The set with no capability.
    pub fn empty() -> (set: Self)
        ensures
            set.view() == Set::<Capability>::empty(),
    {
        let set = Self { bits: 0 };
        proof {
            assert forall|capability: Capability| !set.view().contains(capability) by {
                let index = capability_index(capability);
                assert(0u32 & (1u32 << index) == 0) by (bit_vector)
                    requires
                        index < 7,
                ;
            }
            assert(set.view() =~= Set::<Capability>::empty());
        }
        set
    }

    /// The set with `capability` added: its bit set in the word.
    pub closed spec fn spec_with(self, capability: Capability) -> Self {
        CapabilitySet { bits: self.bits | (1u32 << capability_index(capability)) }
    }

    /// Returns the set with `capability` added.
    #[must_use]
    pub fn with(self, capability: Capability) -> (set: Self)
        ensures
            set == self.spec_with(capability),
            set.view() == self.view().insert(capability),
    {
        let bit = capability.bit();
        let bits = self.bits | bit;
        let set = Self { bits };
        proof {
            let added = capability_index(capability);
            assert forall|other: Capability| set.view().contains(other) == self.view().insert(
                capability,
            ).contains(other) by {
                let index = capability_index(other);
                let old_bits = self.bits;
                if index == added {
                    assert(bits & (1u32 << index) != 0) by (bit_vector)
                        requires
                            bits == old_bits | bit,
                            bit == 1u32 << added,
                            index == added,
                            index < 7,
                    ;
                } else {
                    assert((bits & (1u32 << index) != 0) == (old_bits & (1u32 << index) != 0))
                        by (bit_vector)
                        requires
                            bits == old_bits | bit,
                            bit == 1u32 << added,
                            index != added,
                            index < 7,
                            added < 7,
                    ;
                    assert(other != capability);
                }
            }
            assert(set.view() =~= self.view().insert(capability));
        }
        set
    }

    /// Returns whether `capability` is in the set.
    #[must_use]
    pub fn contains(self, capability: Capability) -> (present: bool)
        ensures
            present == self.view().contains(capability),
    {
        (self.bits & capability.bit()) != 0
    }
}

/// Adding a capability that is already in a set gives the same set value.
pub proof fn law_adding_a_capability_twice_changes_nothing(set: CapabilitySet, capability: Capability)
    ensures
        set.spec_with(capability).spec_with(capability) == set.spec_with(capability),
{
    let bits = set.bits;
    let bit = 1u32 << capability_index(capability);
    assert((bits | bit) | bit == bits | bit) by (bit_vector);
}

/// Adding two capabilities gives the same set value in either order.
pub proof fn law_adding_capabilities_commutes(set: CapabilitySet, first: Capability, second: Capability)
    ensures
        set.spec_with(first).spec_with(second) == set.spec_with(second).spec_with(first),
{
    let bits = set.bits;
    let a = 1u32 << capability_index(first);
    let b = 1u32 << capability_index(second);
    assert((bits | a) | b == (bits | b) | a) by (bit_vector);
}

/// Platform marker trait for compile-time capability discovery.
pub trait PlatformCapabilities {
    /// The capabilities of the platform.
    fn capabilities() -> CapabilitySet;
}

} // verus!
