//! Memory that was copied out to be read: a stretch of bytes with the address
//! of its first byte, and the little-endian numbers in it.
use vstd::prelude::*;

verus! {

/// The 16-bit number whose two bytes start at index `at`, low byte first.
pub open spec fn le16(bytes: Seq<u8>, at: int) -> u16 {
    (bytes[at] + bytes[at + 1] * 0x100) as u16
}

/// The 32-bit number whose four bytes start at index `at`, low byte first.
pub open spec fn le32(bytes: Seq<u8>, at: int) -> u32 {
    (bytes[at] + bytes[at + 1] * 0x100 + bytes[at + 2] * 0x1_0000 + bytes[at + 3] * 0x100_0000) as u32
}

/// The 64-bit number whose eight bytes start at index `at`, low byte first.
pub open spec fn le64(bytes: Seq<u8>, at: int) -> u64 {
    (le32(bytes, at) + le32(bytes, at + 4) * 0x1_0000_0000) as u64
}

/// A stretch of memory as mathematics.
pub struct RegionView {
    pub base: u32,
    pub bytes: Seq<u8>,
}

impl RegionView {
    /// The stretch ends at or below the end of the 32-bit address space.
    pub open spec fn wf(self) -> bool {
        self.base + self.bytes.len() <= 0x1_0000_0000
    }

    /// Whether the `len` bytes from `address` on lie in the stretch.
    pub open spec fn holds(self, address: int, len: int) -> bool {
        self.base <= address && len >= 0 && address + len <= self.base + self.bytes.len()
    }

    /// The byte at `address`.
    pub open spec fn u8_at(self, address: int) -> u8 {
        self.bytes[address - self.base]
    }

    /// The 16-bit number at `address`.
    pub open spec fn u16_at(self, address: int) -> u16 {
        le16(self.bytes, address - self.base)
    }

    /// The 32-bit number at `address`.
    pub open spec fn u32_at(self, address: int) -> u32 {
        le32(self.bytes, address - self.base)
    }

    /// The 64-bit number at `address`.
    pub open spec fn u64_at(self, address: int) -> u64 {
        le64(self.bytes, address - self.base)
    }
}

/// A stretch of memory: the bytes from the address `base` on.
pub struct Region {
    base: u32,
    bytes: Vec<u8>,
}

impl View for Region {
    type V = RegionView;

    closed spec fn view(&self) -> RegionView {
        RegionView { base: self.base, bytes: self.bytes@ }
    }
}

impl Region {
    #[verifier::type_invariant]
    spec fn in_address_space(self) -> bool {
        self@.wf()
    }

    /// The stretch of `bytes` that starts at `base`.
    pub fn new(base: u32, bytes: Vec<u8>) -> (region: Self)
        requires
            base + bytes@.len() <= 0x1_0000_0000,
        ensures
            region@ == (RegionView { base, bytes: bytes@ }),
            region@.wf(),
    {
        Region { base, bytes }
    }

    /// The address of the first byte.
    pub fn base(&self) -> (base: u32)
        ensures
            base == self@.base,
            self@.wf(),
    {
        proof {
            use_type_invariant(self);
        }
        self.base
    }

    /// Number of bytes in the stretch.
    pub fn len(&self) -> (len: usize)
        ensures
            len == self@.bytes.len(),
            self@.wf(),
    {
        proof {
            use_type_invariant(self);
        }
        self.bytes.len()
    }

    /// Whether the `len` bytes from `address` on lie in the stretch.
    pub fn holds(&self, address: u64, len: u64) -> (held: bool)
        ensures
            held == self@.holds(address as int, len as int),
            self@.wf(),
    {
        proof {
            use_type_invariant(self);
        }
        let base = self.base as u64;
        let size = self.bytes.len() as u64;
        address >= base && address - base <= size && len <= size - (address - base)
    }

    pub fn read_u8(&self, address: u64) -> (value: u8)
        requires
            self@.holds(address as int, 1),
        ensures
            value == self@.u8_at(address as int),
    {
        proof {
            use_type_invariant(self);
        }
        let size = self.bytes.len();
        self.bytes[(address - self.base as u64) as usize]
    }

    pub fn read_u16(&self, address: u64) -> (value: u16)
        requires
            self@.holds(address as int, 2),
        ensures
            value == self@.u16_at(address as int),
    {
        proof {
            use_type_invariant(self);
        }
        let size = self.bytes.len();
        let at = (address - self.base as u64) as usize;
        self.bytes[at] as u16 + self.bytes[at + 1] as u16 * 0x100
    }

    pub fn read_u32(&self, address: u64) -> (value: u32)
        requires
            self@.holds(address as int, 4),
        ensures
            value == self@.u32_at(address as int),
    {
        proof {
            use_type_invariant(self);
        }
        let size = self.bytes.len();
        let at = (address - self.base as u64) as usize;
        self.bytes[at] as u32 + self.bytes[at + 1] as u32 * 0x100 + self.bytes[at + 2] as u32
            * 0x1_0000 + self.bytes[at + 3] as u32 * 0x100_0000
    }

    pub fn read_u64(&self, address: u64) -> (value: u64)
        requires
            self@.holds(address as int, 8),
        ensures
            value == self@.u64_at(address as int),
    {
        proof {
            use_type_invariant(self);
        }
        let low = self.read_u32(address) as u64;
        let high = self.read_u32(address + 4) as u64;
        low + high * 0x1_0000_0000
    }
}

} // verus!
