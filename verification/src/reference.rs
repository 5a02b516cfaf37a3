//! MFT file references: an (entry number, sequence number) pair and its
//! packed 64-bit form.
//!
//! The packed form keeps the entry number in the low 48 bits and the sequence
//! number in the high 16; the sequence number distinguishes reused entry
//! slots, so identity comparisons use both fields.

use vstd::prelude::*;

verus! {

/// An MFT file reference: entry number plus slot-reuse sequence number.
#[derive(Debug, Clone, Copy, PartialEq, Eq, Hash, Structural)]
pub struct EntryReference {
    pub entry: u64,
    pub sequence: u16,
}

/// The entry-number part of a packed file reference number.
pub open spec fn spec_entry_of(frn: u64) -> u64 {
    frn % 0x1_0000_0000_0000
}

/// The sequence-number part of a packed file reference number.
pub open spec fn spec_sequence_of(frn: u64) -> u16 {
    (frn / 0x1_0000_0000_0000) as u16
}

/// The reference a packed file reference number denotes.
pub open spec fn spec_reference_of(frn: u64) -> EntryReference {
    EntryReference { entry: spec_entry_of(frn), sequence: spec_sequence_of(frn) }
}

/// The packed form of a reference; entry numbers wider than 48 bits lose
/// their high bits, as they do in the on-disk format.
pub open spec fn spec_frn(r: EntryReference) -> u64 {
    ((r.entry % 0x1_0000_0000_0000) + (r.sequence as u64) * 0x1_0000_0000_0000) as u64
}

impl EntryReference {
    /// Splits a packed file reference number into its parts.
    pub fn from_frn(frn: u64) -> (r: EntryReference)
        ensures
            r == spec_reference_of(frn),
    {
        EntryReference {
            entry: frn % 0x1_0000_0000_0000,
            sequence: (frn / 0x1_0000_0000_0000) as u16,
        }
    }

    /// Packs the reference back into its 64-bit form.
    pub fn to_frn(&self) -> (r: u64)
        ensures
            r == spec_frn(*self),
    {
        proof {
            assert((self.entry % 0x1_0000_0000_0000) + (self.sequence as u64) * 0x1_0000_0000_0000
                <= 0xffff_ffff_ffff_ffff) by (nonlinear_arith);
        }
        (self.entry % 0x1_0000_0000_0000) + (self.sequence as u64) * 0x1_0000_0000_0000
    }
}

/// Packing is the inverse of splitting: a reference whose entry number fits
/// in 48 bits survives the round trip, and every packed value splits back to
/// the value it was packed from.
pub proof fn lemma_frn_round_trip(r: EntryReference, frn: u64)
    ensures
        r.entry < 0x1_0000_0000_0000 ==> spec_reference_of(spec_frn(r)) == r,
        spec_frn(spec_reference_of(frn)) == frn,
{
    assert(r.entry < 0x1_0000_0000_0000 ==> spec_reference_of(spec_frn(r)) == r) by {
        if r.entry < 0x1_0000_0000_0000 {
            let packed = (r.entry % 0x1_0000_0000_0000) + (r.sequence as u64)
                * 0x1_0000_0000_0000;
            assert(packed % 0x1_0000_0000_0000 == r.entry && packed / 0x1_0000_0000_0000
                == r.sequence as u64) by (nonlinear_arith)
                requires
                    r.entry < 0x1_0000_0000_0000,
                    packed == r.entry + (r.sequence as u64) * 0x1_0000_0000_0000,
            ;
        }
    }
    assert(spec_frn(spec_reference_of(frn)) == frn) by {
        let e = frn % 0x1_0000_0000_0000;
        let s = frn / 0x1_0000_0000_0000;
        assert(s < 0x1_0000 && e + s * 0x1_0000_0000_0000 == frn) by (nonlinear_arith)
            requires
                e == frn % 0x1_0000_0000_0000,
                s == frn / 0x1_0000_0000_0000,
        ;
    }
}

/// Packing is injective on references whose entry numbers fit in 48 bits.
pub proof fn lemma_frn_injective(a: EntryReference, b: EntryReference)
    requires
        a.entry < 0x1_0000_0000_0000,
        b.entry < 0x1_0000_0000_0000,
        spec_frn(a) == spec_frn(b),
    ensures
        a == b,
{
    lemma_frn_round_trip(a, 0);
    lemma_frn_round_trip(b, 0);
}

} // verus!
