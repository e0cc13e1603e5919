//! Flag sets and units shared by the rest of the library.

use vstd::prelude::*;

verus! {

/// A choice in how a duration is worded.
#[derive(Debug, Clone, Copy, PartialEq, Eq, Structural)]
pub enum GduFormatDurationFlags {
    /// Show milliseconds where the duration is below a second.
    SubSecondPrecision,
    /// Leave seconds out.
    NoSeconds,
}

impl GduFormatDurationFlags {
    /// The bit that stands for the flag in a set.
    pub open spec fn spec_bits(self) -> u32 {
        match self {
            GduFormatDurationFlags::SubSecondPrecision => 1,
            GduFormatDurationFlags::NoSeconds => 2,
        }
    }

    /// The bit that stands for the flag in a set.
    #[verifier::when_used_as_spec(spec_bits)]
    pub fn bits(self) -> (bits: u32)
        ensures
            bits == self.spec_bits(),
    {
        match self {
            GduFormatDurationFlags::SubSecondPrecision => 1,
            GduFormatDurationFlags::NoSeconds => 2,
        }
    }
}

/// A set of [`GduFormatDurationFlags`], held as bits.
#[derive(Debug, Clone, Copy, PartialEq, Eq, Structural)]
pub struct DurationFlagSet {
    pub bits: u32,
}

impl DurationFlagSet {
    /// Whether `flag` is in the set.
    pub open spec fn spec_contains(self, flag: GduFormatDurationFlags) -> bool {
        self.bits & flag.spec_bits() == flag.spec_bits()
    }

    /// The set of no flags.
    pub fn empty() -> (set: DurationFlagSet)
        ensures
            set.bits == 0,
            !set.spec_contains(GduFormatDurationFlags::SubSecondPrecision),
            !set.spec_contains(GduFormatDurationFlags::NoSeconds),
    {
        assert(0u32 & 1 != 1 && 0u32 & 2 != 2) by (bit_vector);
        DurationFlagSet { bits: 0 }
    }

    /// The set with these bits, if each of them is a flag.
    pub fn from_bits(bits: u32) -> (set: Option<DurationFlagSet>)
        ensures
            set == if bits <= 3 {
                Some(DurationFlagSet { bits })
            } else {
                None
            },
    {
        if bits <= 3 {
            Some(DurationFlagSet { bits })
        } else {
            None
        }
    }

    /// Whether `flag` is in the set.
    #[verifier::when_used_as_spec(spec_contains)]
    pub fn contains(self, flag: GduFormatDurationFlags) -> (found: bool)
        ensures
            found == self.spec_contains(flag),
    {
        self.bits & flag.bits() == flag.bits()
    }

    /// The set with `flag` added: it holds `flag`, and of the other flags
    /// those that `self` holds.
    pub fn with(self, flag: GduFormatDurationFlags) -> (set: DurationFlagSet)
        ensures
            set.bits == self.bits | flag.spec_bits(),
            set.spec_contains(flag),
            forall|other: GduFormatDurationFlags|
                other != flag ==> #[trigger] set.spec_contains(other) == self.spec_contains(other),
    {
        let b = self.bits;
        assert((b | 1) & 1 == 1 && (b | 2) & 2 == 2) by (bit_vector);
        assert(((b | 1) & 2 == 2) == (b & 2 == 2)) by (bit_vector);
        assert(((b | 2) & 1 == 1) == (b & 1 == 1)) by (bit_vector);
        DurationFlagSet { bits: self.bits | flag.bits() }
    }
}

/// A way in which a filesystem can be resized.
#[derive(Debug, Clone, Copy, PartialEq, Eq, Structural)]
pub enum ResizeFlags {
    OfflineShrink,
    OfflineGrow,
    OnlineShrink,
    OnlineGrow,
}

impl ResizeFlags {
    /// The bit that stands for the flag in a set.
    pub open spec fn spec_bits(self) -> u32 {
        match self {
            ResizeFlags::OfflineShrink => 2,
            ResizeFlags::OfflineGrow => 4,
            ResizeFlags::OnlineShrink => 8,
            ResizeFlags::OnlineGrow => 16,
        }
    }

    /// The bit that stands for the flag in a set.
    #[verifier::when_used_as_spec(spec_bits)]
    pub fn bits(self) -> (bits: u32)
        ensures
            bits == self.spec_bits(),
    {
        match self {
            ResizeFlags::OfflineShrink => 2,
            ResizeFlags::OfflineGrow => 4,
            ResizeFlags::OnlineShrink => 8,
            ResizeFlags::OnlineGrow => 16,
        }
    }
}

/// A set of [`ResizeFlags`], held as bits.
#[derive(Debug, Clone, Copy, PartialEq, Eq, Structural)]
pub struct ResizeFlagSet {
    pub bits: u32,
}

impl ResizeFlagSet {
    /// The bits of all flags together.
    pub const ALL: u32 = 30;

    /// Whether `flag` is in the set.
    pub open spec fn spec_contains(self, flag: ResizeFlags) -> bool {
        self.bits & flag.spec_bits() == flag.spec_bits()
    }

    /// The set of no flags.
    pub fn empty() -> (set: ResizeFlagSet)
        ensures
            set.bits == 0,
            forall|flag: ResizeFlags| !(#[trigger] set.spec_contains(flag)),
    {
        assert(0u32 & 2 != 2 && 0u32 & 4 != 4 && 0u32 & 8 != 8 && 0u32 & 16 != 16)
            by (bit_vector);
        ResizeFlagSet { bits: 0 }
    }

    /// The set with these bits, if each of them is a flag.
    pub open spec fn from_bits_spec(bits: u32) -> Option<ResizeFlagSet> {
        if bits & !ResizeFlagSet::ALL == 0 {
            Some(ResizeFlagSet { bits })
        } else {
            None
        }
    }

    /// The set with these bits, if each of them is a flag.
    #[verifier::when_used_as_spec(from_bits_spec)]
    pub fn from_bits(bits: u32) -> (set: Option<ResizeFlagSet>)
        ensures
            set == ResizeFlagSet::from_bits_spec(bits),
            bits <= 1 ==> (set is Some <==> bits == 0),
    {
        assert(bits <= 1 ==> (bits & !30u32 == 0 <==> bits == 0)) by (bit_vector);
        if bits & !ResizeFlagSet::ALL == 0 {
            Some(ResizeFlagSet { bits })
        } else {
            None
        }
    }

    /// Whether `flag` is in the set.
    #[verifier::when_used_as_spec(spec_contains)]
    pub fn contains(self, flag: ResizeFlags) -> (found: bool)
        ensures
            found == self.spec_contains(flag),
    {
        self.bits & flag.bits() == flag.bits()
    }

    /// The set with `flag` added: it holds `flag`, and of the other flags
    /// those that `self` holds.
    pub fn with(self, flag: ResizeFlags) -> (set: ResizeFlagSet)
        ensures
            set.bits == self.bits | flag.spec_bits(),
            set.spec_contains(flag),
            forall|other: ResizeFlags|
                other != flag ==> #[trigger] set.spec_contains(other) == self.spec_contains(other),
    {
        let b = self.bits;
        let f = flag.bits();
        assert(f == 2 || f == 4 || f == 8 || f == 16);
        assert((b | f) & f == f) by (bit_vector);
        assert forall|other: ResizeFlags| other != flag implies #[trigger] ResizeFlagSet {
            bits: b | f,
        }.spec_contains(other) == self.spec_contains(other) by {
            let g = other.spec_bits();
            assert(g == 2 || g == 4 || g == 8 || g == 16);
            assert(g != f);
            assert((f == 2 || f == 4 || f == 8 || f == 16) && (g == 2 || g == 4 || g == 8 || g
                == 16) && g != f ==> ((b | f) & g == g) == (b & g == g)) by (bit_vector);
        }
        ResizeFlagSet { bits: b | f }
    }
}

/// A unit in which a size is shown: decimal units first, then binary ones.
#[derive(Debug, Clone, Copy, PartialEq, Eq, Structural)]
pub enum UnitSize {
    Byte,
    KByte,
    MByte,
    GByte,
    TByte,
    PByte,
    KiByte,
    MiByte,
    GiByte,
    TiByte,
    PiByte,
}

impl UnitSize {
    /// The number of bytes in one unit.
    pub open spec fn spec_size_in_bytes(self) -> u64 {
        match self {
            UnitSize::Byte => 1,
            UnitSize::KByte => 1_000,
            UnitSize::MByte => 1_000_000,
            UnitSize::GByte => 1_000_000_000,
            UnitSize::TByte => 1_000_000_000_000,
            UnitSize::PByte => 1_000_000_000_000_000,
            UnitSize::KiByte => 0x400,
            UnitSize::MiByte => 0x10_0000,
            UnitSize::GiByte => 0x4000_0000,
            UnitSize::TiByte => 0x100_0000_0000,
            UnitSize::PiByte => 0x4_0000_0000_0000,
        }
    }

    /// The unit's place in the list of units, from 0.
    pub open spec fn spec_place(self) -> u32 {
        match self {
            UnitSize::Byte => 0,
            UnitSize::KByte => 1,
            UnitSize::MByte => 2,
            UnitSize::GByte => 3,
            UnitSize::TByte => 4,
            UnitSize::PByte => 5,
            UnitSize::KiByte => 6,
            UnitSize::MiByte => 7,
            UnitSize::GiByte => 8,
            UnitSize::TiByte => 9,
            UnitSize::PiByte => 10,
        }
    }

    /// The unit's place in the list of units, from 0.
    #[verifier::when_used_as_spec(spec_place)]
    pub fn place(self) -> (place: u32)
        ensures
            place == self.spec_place(),
    {
        match self {
            UnitSize::Byte => 0,
            UnitSize::KByte => 1,
            UnitSize::MByte => 2,
            UnitSize::GByte => 3,
            UnitSize::TByte => 4,
            UnitSize::PByte => 5,
            UnitSize::KiByte => 6,
            UnitSize::MiByte => 7,
            UnitSize::GiByte => 8,
            UnitSize::TiByte => 9,
            UnitSize::PiByte => 10,
        }
    }

    /// The number of bytes in one unit.
    #[verifier::when_used_as_spec(spec_size_in_bytes)]
    pub fn size_in_bytes(self) -> (bytes: u64)
        ensures
            bytes == self.spec_size_in_bytes(),
    {
        match self {
            UnitSize::Byte => 1,
            UnitSize::KByte => 1_000,
            UnitSize::MByte => 1_000_000,
            UnitSize::GByte => 1_000_000_000,
            UnitSize::TByte => 1_000_000_000_000,
            UnitSize::PByte => 1_000_000_000_000_000,
            UnitSize::KiByte => 0x400,
            UnitSize::MiByte => 0x10_0000,
            UnitSize::GiByte => 0x4000_0000,
            UnitSize::TiByte => 0x100_0000_0000,
            UnitSize::PiByte => 0x4_0000_0000_0000,
        }
    }
}

/// The unit in which a size of `size` bytes is best entered: the largest
/// decimal unit, up to terabytes, of which the size holds more than ten. The
/// result is that unit's place among the units, bytes being 0.
pub fn default_unit(size: u64) -> (unit: u32)
    ensures
        unit == if size > 10_000_000_000_000 {
            4u32
        } else if size > 10_000_000_000 {
            3u32
        } else if size > 10_000_000 {
            2u32
        } else if size > 10_000 {
            1u32
        } else {
            0u32
        },
        unit == spec_default_unit(size).place(),
        size > 10 * spec_default_unit(size).spec_size_in_bytes() || unit == 0,
{
    if size > UnitSize::TByte.size_in_bytes() * 10 {
        UnitSize::TByte.place()
    } else if size > UnitSize::GByte.size_in_bytes() * 10 {
        UnitSize::GByte.place()
    } else if size > UnitSize::MByte.size_in_bytes() * 10 {
        UnitSize::MByte.place()
    } else if size > UnitSize::KByte.size_in_bytes() * 10 {
        UnitSize::KByte.place()
    } else {
        UnitSize::Byte.place()
    }
}

/// The unit that [`default_unit`] picks.
pub open spec fn spec_default_unit(size: u64) -> UnitSize {
    if size > 10 * UnitSize::TByte.spec_size_in_bytes() {
        UnitSize::TByte
    } else if size > 10 * UnitSize::GByte.spec_size_in_bytes() {
        UnitSize::GByte
    } else if size > 10 * UnitSize::MByte.spec_size_in_bytes() {
        UnitSize::MByte
    } else if size > 10 * UnitSize::KByte.spec_size_in_bytes() {
        UnitSize::KByte
    } else {
        UnitSize::Byte
    }
}

} // verus!
