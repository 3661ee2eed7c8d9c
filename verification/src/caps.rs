//! The capabilities of the bootloader under test.
//!
//! A bootloader is built with a choice of signature scheme, swap strategy
//! and encryption scheme. It reports that choice as a set of bits, one for
//! each capability; which scenarios make sense, and what they expect, depends
//! on it.

use vstd::prelude::*;

verus! {

/// One capability that a bootloader can be built with.
#[derive(Copy, Clone, Debug, Eq, PartialEq, Structural)]
pub enum Caps {
    RSA2048,
    EcdsaP224,
    EcdsaP256,
    SwapUsingScratch,
    OverwriteUpgrade,
    EncRsa,
    EncKw,
    ValidatePrimarySlot,
    RSA3072,
    Ed25519,
    EncEc256,
    SwapUsingMove,
    DowngradePrevention,
    EncX25519,
    Bootstrap,
}

impl Caps {
    /// The bit that stands for this capability in a capability set.
    pub open spec fn bit(self) -> u32 {
        match self {
            Caps::RSA2048 => 0x0001,
            Caps::EcdsaP224 => 0x0002,
            Caps::EcdsaP256 => 0x0004,
            Caps::SwapUsingScratch => 0x0008,
            Caps::OverwriteUpgrade => 0x0010,
            Caps::EncRsa => 0x0020,
            Caps::EncKw => 0x0040,
            Caps::ValidatePrimarySlot => 0x0080,
            Caps::RSA3072 => 0x0100,
            Caps::Ed25519 => 0x0200,
            Caps::EncEc256 => 0x0400,
            Caps::SwapUsingMove => 0x0800,
            Caps::DowngradePrevention => 0x1000,
            Caps::EncX25519 => 0x2000,
            Caps::Bootstrap => 0x4000,
        }
    }

    /// This capability is in the set `caps`.
    pub open spec fn in_set(self, caps: u32) -> bool {
        caps & self.bit() != 0
    }

    /// The bit that stands for this capability in a capability set.
    pub fn mask(self) -> (bit: u32)
        ensures
            bit == self.bit(),
    {
        match self {
            Caps::RSA2048 => 0x0001,
            Caps::EcdsaP224 => 0x0002,
            Caps::EcdsaP256 => 0x0004,
            Caps::SwapUsingScratch => 0x0008,
            Caps::OverwriteUpgrade => 0x0010,
            Caps::EncRsa => 0x0020,
            Caps::EncKw => 0x0040,
            Caps::ValidatePrimarySlot => 0x0080,
            Caps::RSA3072 => 0x0100,
            Caps::Ed25519 => 0x0200,
            Caps::EncEc256 => 0x0400,
            Caps::SwapUsingMove => 0x0800,
            Caps::DowngradePrevention => 0x1000,
            Caps::EncX25519 => 0x2000,
            Caps::Bootstrap => 0x4000,
        }
    }

    /// Whether this capability is in the set `caps` that the bootloader
    /// reported.
    pub fn present(self, caps: u32) -> (yes: bool)
        ensures
            yes == self.in_set(caps),
    {
        caps & self.mask() != 0
    }
}

/// What the bootloader under test reports of itself.
#[derive(Copy, Clone, Debug, PartialEq, Eq, Structural)]
pub struct BootInfo {
    /// The capabilities it was built with, one bit each.
    pub caps: u32,
    /// The number of images it manages.
    pub num_images: usize,
    /// The size of the magic value that ends a slot's trailer.
    pub magic_sz: usize,
    /// The largest write alignment it supports.
    pub max_align: usize,
    /// The size of a slot's whole trailer, for the write alignment of the
    /// devices under test.
    pub trailer_sz: usize,
    /// The size of the swap status area inside the trailer, for the same
    /// alignment.
    pub status_sz: usize,
}

impl BootInfo {
    /// The report is one that the simulator can work with: the bootloader
    /// does not check ECDSA on P-224, it manages at most two images, its
    /// trailer is large enough to hold the two flags and the magic where the
    /// tests look for them, and its sizes are sane.
    pub open spec fn wf(self) -> bool {
        &&& !Caps::EcdsaP224.in_set(self.caps)
        &&& self.num_images <= 2
        &&& self.magic_sz + 3 * self.max_align >= 25
        &&& self.magic_sz <= 0x1000
        &&& self.max_align <= 0x1000
        &&& self.trailer_sz <= 0x1000_0000
        &&& self.status_sz <= 0x1000_0000
    }

    /// Whether the report is one that the simulator can work with.
    pub fn is_wf(&self) -> (yes: bool)
        ensures
            yes == self.wf(),
    {
        !Caps::EcdsaP224.present(self.caps) && self.num_images <= 2 && self.magic_sz <= 0x1000
            && self.max_align <= 0x1000 && self.magic_sz + 3 * self.max_align >= 25
            && self.trailer_sz <= 0x1000_0000 && self.status_sz <= 0x1000_0000
    }

    /// The bootloader swaps the two slots, by either strategy, rather than
    /// overwriting the primary.
    pub open spec fn swaps(self) -> bool {
        Caps::SwapUsingScratch.in_set(self.caps) || Caps::SwapUsingMove.in_set(self.caps)
    }

    /// The bootloader expects the image in the secondary slot encrypted.
    pub open spec fn encrypts(self) -> bool {
        Caps::EncRsa.in_set(self.caps) || Caps::EncKw.in_set(self.caps) || Caps::EncEc256.in_set(
            self.caps,
        ) || Caps::EncX25519.in_set(self.caps)
    }

    /// Whether the bootloader swaps the two slots.
    pub fn is_swap_upgrade(&self) -> (yes: bool)
        ensures
            yes == self.swaps(),
    {
        Caps::SwapUsingScratch.present(self.caps) || Caps::SwapUsingMove.present(self.caps)
    }

    /// Whether the bootloader expects the image in the secondary slot
    /// encrypted.
    pub fn is_encrypted(&self) -> (yes: bool)
        ensures
            yes == self.encrypts(),
    {
        Caps::EncRsa.present(self.caps) || Caps::EncKw.present(self.caps)
            || Caps::EncEc256.present(self.caps) || Caps::EncX25519.present(self.caps)
    }
}

} // verus!
