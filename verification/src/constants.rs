//! Numerology constants shared by the capacity and occupancy computations.

use vstd::prelude::*;

verus! {

/// OFDM symbols in one slot.
pub const NUM_SYM_PER_SLOT: u32 = 14;

/// Subcarriers in one physical resource block.
pub const NUM_SC_PER_RB: u32 = 12;

/// Bits per modulation symbol for pi/2-BPSK.
pub const BPSK_BITS: u32 = 1;

/// Bits per modulation symbol for QPSK.
pub const QPSK_BITS: u32 = 2;

} // verus!
