//! The flag byte of a frame header.

use vstd::prelude::*;

verus! {

/// Bit 0: the sender asks for an acknowledgement.
pub const ACK_REQUIRED: u8 = 0b0000_0001;

/// Bit 1: the payload is compressed. Defined by the protocol; nothing acts on it.
pub const COMPRESSED: u8 = 0b0000_0010;

/// Bit 2: the frame is urgent. Defined by the protocol; nothing acts on it.
pub const URGENT: u8 = 0b0000_0100;

/// Every bit the protocol defines.
pub const KNOWN_FLAG_BITS: u8 = 0b0000_0111;

/// Whether `bits` sets nothing but defined flag bits.
pub open spec fn only_known_bits(bits: u8) -> bool {
    bits & !KNOWN_FLAG_BITS == 0
}

/// A byte sets only defined bits exactly when none of its bits 3 to 7 is set,
/// that is, when it is less than 8.
pub proof fn lemma_only_known_bits(bits: u8)
    ensures
        only_known_bits(bits) <==> bits < 8,
        only_known_bits(bits) <==> bits & 0b1111_1000 == 0,
{
    assert((bits & !KNOWN_FLAG_BITS == 0) == (bits < 8) && (bits & !KNOWN_FLAG_BITS == 0) == (bits
        & 0b1111_1000 == 0)) by (bit_vector);
}

/// Masking with the defined bits leaves only defined bits, and changes
/// nothing where there were no others.
proof fn lemma_mask(bits: u8)
    ensures
        only_known_bits(bits & KNOWN_FLAG_BITS),
        only_known_bits(bits) ==> bits & KNOWN_FLAG_BITS == bits,
{
    assert((bits & KNOWN_FLAG_BITS) & !KNOWN_FLAG_BITS == 0 && (bits & !KNOWN_FLAG_BITS == 0
        ==> bits & KNOWN_FLAG_BITS == bits)) by (bit_vector);
}

/// A set of header flags, held as the bits of one byte.
///
/// A value never holds a bit outside [`KNOWN_FLAG_BITS`]: every constructor
/// masks or rejects the others, so the byte written for a set is always one
/// that a decoder accepts.
#[derive(Debug, Clone, Copy, PartialEq, Eq, Structural)]
pub struct FrameFlags {
    bits: u8,
}

impl FrameFlags {
    /// Every value that executable code holds is well formed.
    #[verifier::type_invariant]
    pub open spec fn inv(self) -> bool {
        self.wf()
    }

    /// The byte this set is written as.
    pub closed spec fn spec_bits(&self) -> u8 {
        self.bits
    }

    /// The set with no flag.
    pub closed spec fn spec_empty() -> FrameFlags {
        FrameFlags { bits: 0 }
    }

    /// The set of every defined flag.
    pub closed spec fn spec_all() -> FrameFlags {
        FrameFlags { bits: KNOWN_FLAG_BITS }
    }

    /// The set that holds `ACK_REQUIRED` alone.
    pub closed spec fn spec_ack_required() -> FrameFlags {
        FrameFlags { bits: ACK_REQUIRED }
    }

    /// The set that holds `COMPRESSED` alone.
    pub closed spec fn spec_compressed() -> FrameFlags {
        FrameFlags { bits: COMPRESSED }
    }

    /// The set that holds `URGENT` alone.
    pub closed spec fn spec_urgent() -> FrameFlags {
        FrameFlags { bits: URGENT }
    }

    /// The set that keeps the defined bits of `bits` and drops the others.
    pub closed spec fn spec_from_bits_truncate(bits: u8) -> FrameFlags {
        FrameFlags { bits: bits & KNOWN_FLAG_BITS }
    }

    /// The set written as `bits`, where `bits` sets only defined bits.
    pub open spec fn spec_from_bits(bits: u8) -> Option<FrameFlags> {
        if only_known_bits(bits) {
            Some(Self::spec_from_bits_truncate(bits))
        } else {
            None
        }
    }

    /// No bit outside the defined ones is set. It holds of every value that
    /// executable code can build.
    pub open spec fn wf(self) -> bool {
        only_known_bits(self.bits())
    }

    /// Every flag of `other` is in `self`.
    pub open spec fn spec_contains(&self, other: FrameFlags) -> bool {
        self.bits() & other.bits() == other.bits()
    }

    /// Truncation keeps exactly the defined bits, and what it gives is well
    /// formed.
    pub broadcast proof fn lemma_bits(bits: u8)
        ensures
            #[trigger] Self::spec_from_bits_truncate(bits).spec_bits() == bits & KNOWN_FLAG_BITS,
            Self::spec_from_bits_truncate(bits).wf(),
            only_known_bits(bits) ==> Self::spec_from_bits_truncate(bits).spec_bits() == bits,
    {
        lemma_mask(bits);
    }

    /// The bytes of the named sets: each is written as its own bits, and
    /// each is well formed.
    pub proof fn lemma_named_sets()
        ensures
            Self::spec_empty().spec_bits() == 0,
            Self::spec_all().spec_bits() == KNOWN_FLAG_BITS,
            Self::spec_ack_required().spec_bits() == ACK_REQUIRED,
            Self::spec_compressed().spec_bits() == COMPRESSED,
            Self::spec_urgent().spec_bits() == URGENT,
            Self::spec_empty().wf(),
            Self::spec_all().wf(),
            Self::spec_ack_required().wf(),
            Self::spec_compressed().wf(),
            Self::spec_urgent().wf(),
    {
        assert(0u8 & !KNOWN_FLAG_BITS == 0 && KNOWN_FLAG_BITS & !KNOWN_FLAG_BITS == 0
            && ACK_REQUIRED & !KNOWN_FLAG_BITS == 0 && COMPRESSED & !KNOWN_FLAG_BITS == 0 && URGENT
            & !KNOWN_FLAG_BITS == 0) by (bit_vector);
    }

    /// A well-formed set is what truncation makes of its own byte.
    pub proof fn lemma_truncate_own_bits(f: FrameFlags)
        requires
            f.wf(),
        ensures
            Self::spec_from_bits_truncate(f.spec_bits()) == f,
    {
        lemma_mask(f.bits);
    }

    /// The byte this set is written as.
    #[verifier::when_used_as_spec(spec_bits)]
    pub fn bits(&self) -> (b: u8)
        ensures
            b == self.spec_bits(),
            only_known_bits(b),
    {
        proof {
            use_type_invariant(self);
        }
        self.bits
    }

    /// The set with no flag.
    #[verifier::when_used_as_spec(spec_empty)]
    pub fn empty() -> (f: FrameFlags)
        ensures
            f == Self::spec_empty(),
            f.bits() == 0,
    {
        proof {
            Self::lemma_named_sets();
        }
        FrameFlags { bits: 0 }
    }

    /// The set of every defined flag.
    #[verifier::when_used_as_spec(spec_all)]
    pub fn all() -> (f: FrameFlags)
        ensures
            f == Self::spec_all(),
            f.bits() == KNOWN_FLAG_BITS,
    {
        proof {
            Self::lemma_named_sets();
        }
        FrameFlags { bits: KNOWN_FLAG_BITS }
    }

    /// The set that holds `ACK_REQUIRED` alone.
    #[verifier::when_used_as_spec(spec_ack_required)]
    pub fn ack_required() -> (f: FrameFlags)
        ensures
            f == Self::spec_ack_required(),
            f.bits() == ACK_REQUIRED,
    {
        proof {
            Self::lemma_named_sets();
        }
        FrameFlags { bits: ACK_REQUIRED }
    }

    /// The set that holds `COMPRESSED` alone.
    #[verifier::when_used_as_spec(spec_compressed)]
    pub fn compressed() -> (f: FrameFlags)
        ensures
            f == Self::spec_compressed(),
            f.bits() == COMPRESSED,
    {
        proof {
            Self::lemma_named_sets();
        }
        FrameFlags { bits: COMPRESSED }
    }

    /// The set that holds `URGENT` alone.
    #[verifier::when_used_as_spec(spec_urgent)]
    pub fn urgent() -> (f: FrameFlags)
        ensures
            f == Self::spec_urgent(),
            f.bits() == URGENT,
    {
        proof {
            Self::lemma_named_sets();
        }
        FrameFlags { bits: URGENT }
    }

    /// The set written as `bits`, or `None` where `bits` sets a bit that the
    /// protocol does not define.
    #[verifier::when_used_as_spec(spec_from_bits)]
    pub fn from_bits(bits: u8) -> (r: Option<FrameFlags>)
        ensures
            r == Self::spec_from_bits(bits),
            r matches Some(f) ==> f.bits() == bits,
    {
        if bits & !KNOWN_FLAG_BITS == 0 {
            proof {
                lemma_mask(bits);
            }
            Some(FrameFlags { bits })
        } else {
            None
        }
    }

    /// The set of the defined bits of `bits`; undefined bits are dropped.
    #[verifier::when_used_as_spec(spec_from_bits_truncate)]
    pub fn from_bits_truncate(bits: u8) -> (f: FrameFlags)
        ensures
            f == Self::spec_from_bits_truncate(bits),
            f.bits() == bits & KNOWN_FLAG_BITS,
    {
        proof {
            lemma_mask(bits);
        }
        FrameFlags { bits: bits & KNOWN_FLAG_BITS }
    }

    /// The union of two sets.
    pub fn union(self, other: FrameFlags) -> (f: FrameFlags)
        ensures
            f.bits() == self.bits() | other.bits(),
    {
        proof {
            use_type_invariant(self);
            use_type_invariant(other);
        }
        let a = self.bits;
        let b = other.bits;
        assert(a & !KNOWN_FLAG_BITS == 0 && b & !KNOWN_FLAG_BITS == 0 ==> (a | b)
            & !KNOWN_FLAG_BITS == 0) by (bit_vector);
        FrameFlags { bits: a | b }
    }

    /// Whether every flag of `other` is in `self`.
    #[verifier::when_used_as_spec(spec_contains)]
    pub fn contains(&self, other: FrameFlags) -> (b: bool)
        ensures
            b == self.spec_contains(other),
    {
        self.bits & other.bits == other.bits
    }
}

} // verus!
