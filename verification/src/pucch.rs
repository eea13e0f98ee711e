//! The resolved PUCCH configuration: immutable after resolution, with
//! precomputed per-resource capacities, format classifications and
//! integer-indexed resource references.

use crate::constants::{BPSK_BITS, NUM_SC_PER_RB, QPSK_BITS};
use crate::err::Error;
use crate::math::{mask, mask_spec};
use crate::rrc_pucch::{IntraSlotFreqHopping, PucchFormat};
use vstd::prelude::*;

verus! {

/// The resolved runtime configuration.  Built once per RRC (re)configuration
/// by [`PucchConfig::resolve`], then shared read-only.
#[derive(Debug, Clone, PartialEq)]
pub struct PucchConfig {
    pub pucch_resource_set: Vec<PucchResourceSet>,
    pub pucch_resource: Vec<PucchResource>,
    pub pucch_formats: PucchFormatsConfig,
    pub sr_resource: Option<Vec<SrResourceConfig>>,
    /// Candidates for a multiplexed-CSI transmission, sorted ascending by
    /// maximum holdable payload.
    pub multi_csi_resource: Option<Vec<PucchResourceId>>,
    /// K1: candidate delays from DL data to the UL ACK, in slots.
    pub dl_data_to_ul_ack: Option<Vec<u32>>,
}

/// The four resolved per-format configurations.
#[derive(Debug, Clone, Copy, PartialEq, Eq, Structural)]
pub struct PucchFormatsConfig {
    pub pucch_format1: PucchFormatConfig,
    pub pucch_format2: PucchFormatConfig,
    pub pucch_format3: PucchFormatConfig,
    pub pucch_format4: PucchFormatConfig,
}

/// One resolved per-format configuration; every optional raw field has been
/// defaulted and validated.
#[derive(Debug, Clone, Copy, PartialEq, Eq, Structural)]
pub struct PucchFormatConfig {
    pub inter_slot_freq_hopping: bool,
    pub addition_dmrs: bool,
    /// One hundred times the maximum code rate; one of {8, 15, 25, 35, 45,
    /// 60, 80}.
    pub max_coderate_x100: u32,
    /// Slot-aggregation count; one of {1, 2, 4, 8}.
    pub num_slots: u32,
    pub pi2_bpsk: bool,
    pub simul_harq_csi: bool,
}

/// One resolved resource set with a concrete maximum payload bound.
#[derive(Debug, Clone, PartialEq)]
pub struct PucchResourceSet {
    pub pucch_resource_set_id: u32,
    pub pucch_resource_id: Vec<PucchResourceId>,
    pub max_payload_minus_1: u32,
}

/// A resource reference: the configured id together with the position of the
/// resource in the resource table, so it is never re-searched at runtime.
#[derive(Debug, Clone, Copy, PartialEq, Eq, Structural)]
pub struct PucchResourceId {
    pub id: u32,
    pub idx: usize,
}

/// One resolved resource with its precomputed classification and capacity.
#[derive(Debug, Clone, Copy, PartialEq)]
pub struct PucchResource {
    pub pucch_resource_id: u32,
    pub start_prb: u32,
    pub intra_slot_freq_hopping: IntraSlotFreqHopping,
    pub format: PucchFormat,
    pub format_type: PucchFormatType,
    pub max_hold_bits: u32,
}

/// One resolved scheduling-request resource.
#[derive(Debug, Clone, Copy, PartialEq)]
pub struct SrResourceConfig {
    pub sr_resource_id: u32,
    pub sr_id: u32,
    pub period_offset: crate::rrc_pucch::SrPeriodOffset,
    pub pucch_resource_id: PucchResourceId,
}

/// Short PUCCH (formats 0 and 2, at most two symbols) or long PUCCH
/// (formats 1, 3 and 4).
#[derive(Debug, Clone, Copy, PartialEq, Eq, Structural)]
pub enum PucchFormatType {
    ShortPucch,
    LongPucch,
}

/// The number of occupied OFDM symbols of a format variant.
pub open spec fn fmt_num_sym(f: PucchFormat) -> u32 {
    match f {
        PucchFormat::Format0 { num_sym, .. } => num_sym,
        PucchFormat::Format1 { num_sym, .. } => num_sym,
        PucchFormat::Format2 { num_sym, .. } => num_sym,
        PucchFormat::Format3 { num_sym, .. } => num_sym,
        PucchFormat::Format4 { num_sym, .. } => num_sym,
    }
}

/// The first occupied OFDM symbol of a format variant.
pub open spec fn fmt_start_sym(f: PucchFormat) -> u32 {
    match f {
        PucchFormat::Format0 { start_sym, .. } => start_sym,
        PucchFormat::Format1 { start_sym, .. } => start_sym,
        PucchFormat::Format2 { start_sym, .. } => start_sym,
        PucchFormat::Format3 { start_sym, .. } => start_sym,
        PucchFormat::Format4 { start_sym, .. } => start_sym,
    }
}

/// Formats 0 and 2 are short PUCCH, the others long PUCCH.
pub open spec fn spec_format_type(f: PucchFormat) -> PucchFormatType {
    match f {
        PucchFormat::Format0 { .. } => PucchFormatType::ShortPucch,
        PucchFormat::Format2 { .. } => PucchFormatType::ShortPucch,
        _ => PucchFormatType::LongPucch,
    }
}

/// Whether the resource hops between PRBs within the slot.
pub open spec fn spec_is_hopping(h: IntraSlotFreqHopping) -> bool {
    h is Hopping
}

/// The per-format configuration that governs a format variant.  Format 0 has
/// no per-format configuration; it is mapped to the format-1 entry so the
/// function stays total, and executable code never reads it.
pub open spec fn spec_format_config(f: PucchFormat, formats: PucchFormatsConfig) -> PucchFormatConfig {
    match f {
        PucchFormat::Format2 { .. } => formats.pucch_format2,
        PucchFormat::Format3 { .. } => formats.pucch_format3,
        PucchFormat::Format4 { .. } => formats.pucch_format4,
        _ => formats.pucch_format1,
    }
}

/// DMRS symbol positions for PUCCH formats 3 and 4 (TS 38.211 Table
/// 6.4.1.3.3.2-1), as a function of the occupied symbol count, the intra-slot
/// frequency-hopping flag and the additional-DMRS flag.  Outside the defined
/// range [4, 14] the result is the empty sequence.
pub open spec fn dmrs_positions(num_sym: u32, hopping: bool, addition_dmrs: bool) -> Seq<u32> {
    if num_sym == 4 {
        if hopping {
            seq![0u32, 2u32]
        } else {
            seq![1u32]
        }
    } else if addition_dmrs {
        if num_sym == 5 {
            seq![0u32, 3u32]
        } else if num_sym == 6 {
            seq![1u32, 4u32]
        } else if num_sym == 7 {
            seq![1u32, 4u32]
        } else if num_sym == 8 {
            seq![1u32, 5u32]
        } else if num_sym == 9 {
            seq![1u32, 6u32]
        } else if num_sym == 10 {
            seq![1u32, 3u32, 6u32, 8u32]
        } else if num_sym == 11 {
            seq![1u32, 3u32, 6u32, 9u32]
        } else if num_sym == 12 {
            seq![1u32, 4u32, 7u32, 10u32]
        } else if num_sym == 13 {
            seq![1u32, 4u32, 7u32, 11u32]
        } else if num_sym == 14 {
            seq![1u32, 5u32, 8u32, 12u32]
        } else {
            Seq::empty()
        }
    } else {
        if num_sym == 5 {
            seq![0u32, 3u32]
        } else if num_sym == 6 {
            seq![1u32, 4u32]
        } else if num_sym == 7 {
            seq![1u32, 4u32]
        } else if num_sym == 8 {
            seq![1u32, 5u32]
        } else if num_sym == 9 {
            seq![1u32, 6u32]
        } else if num_sym == 10 {
            seq![2u32, 7u32]
        } else if num_sym == 11 {
            seq![2u32, 7u32]
        } else if num_sym == 12 {
            seq![2u32, 8u32]
        } else if num_sym == 13 {
            seq![2u32, 9u32]
        } else if num_sym == 14 {
            seq![3u32, 10u32]
        } else {
            Seq::empty()
        }
    }
}

/// The DMRS symbol count of a format-3/4 resource.
pub open spec fn spec_num_dmrs(num_sym: u32, hopping: bool, addition_dmrs: bool) -> int {
    dmrs_positions(num_sym, hopping, addition_dmrs).len() as int
}

/// Maximum UCI payload, in bits, that a resource can hold (TS 38.213
/// section 9.2.5.2), as a function of its static format parameters and the
/// per-format configuration.
pub open spec fn spec_max_hold_bits(f: PucchFormat, hopping: bool, formats: PucchFormatsConfig) -> int {
    let cfg = spec_format_config(f, formats);
    let qm: int = if cfg.pi2_bpsk {
        BPSK_BITS as int
    } else {
        QPSK_BITS as int
    };
    match f {
        PucchFormat::Format0 { .. } => 2,
        PucchFormat::Format1 { .. } => 2,
        PucchFormat::Format2 { num_rb, num_sym, .. } => (cfg.max_coderate_x100 * num_rb * (
        NUM_SC_PER_RB - 4) * num_sym * QPSK_BITS) as int / 100,
        PucchFormat::Format3 { num_rb, num_sym, .. } => {
            let num_data_sym = num_sym - spec_num_dmrs(num_sym, hopping, cfg.addition_dmrs);
            cfg.max_coderate_x100 * num_rb * NUM_SC_PER_RB * num_data_sym * qm / 100
        },
        PucchFormat::Format4 { num_sym, occ_len, .. } => {
            let num_data_sym = num_sym - spec_num_dmrs(num_sym, hopping, cfg.addition_dmrs);
            cfg.max_coderate_x100 * (NUM_SC_PER_RB as int / occ_len as int) * num_data_sym * qm
                / 100
        },
    }
}

/// Validity of the numerology of a raw format variant: the occupied symbols
/// fit in the 14-symbol slot, formats 3 and 4 occupy at least the 4 symbols
/// the DMRS table is defined for, the PRB count of formats 2 and 3 lies in
/// the configurable range [1, 16], and the format-4 cover-code length is 2
/// or 4.
pub open spec fn wf_format(f: PucchFormat) -> bool {
    &&& fmt_num_sym(f) >= 1
    &&& fmt_start_sym(f) + fmt_num_sym(f) <= 14
    &&& (f is Format3 || f is Format4 ==> fmt_num_sym(f) >= 4)
    &&& (match f {
        PucchFormat::Format2 { num_rb, .. } => 1 <= num_rb <= 16,
        PucchFormat::Format3 { num_rb, .. } => 1 <= num_rb <= 16,
        _ => true,
    })
    &&& (match f {
        PucchFormat::Format4 { occ_len, .. } => occ_len == 2 || occ_len == 4,
        _ => true,
    })
}

/// Validity of one resolved per-format configuration: the code rate and the
/// slot-aggregation count are drawn from their candidate sets.
pub open spec fn wf_format_config(c: PucchFormatConfig) -> bool {
    &&& (c.max_coderate_x100 == 8 || c.max_coderate_x100 == 15 || c.max_coderate_x100 == 25
        || c.max_coderate_x100 == 35 || c.max_coderate_x100 == 45 || c.max_coderate_x100 == 60
        || c.max_coderate_x100 == 80)
    &&& (c.num_slots == 1 || c.num_slots == 2 || c.num_slots == 4 || c.num_slots == 8)
}

/// Validity of all four per-format configurations.
pub open spec fn wf_formats_config(formats: PucchFormatsConfig) -> bool {
    &&& wf_format_config(formats.pucch_format1)
    &&& wf_format_config(formats.pucch_format2)
    &&& wf_format_config(formats.pucch_format3)
    &&& wf_format_config(formats.pucch_format4)
}

impl PucchResource {
    /// Whether this resource hops between PRBs within the slot.
    pub open spec fn is_hopping(self) -> bool {
        spec_is_hopping(self.intra_slot_freq_hopping)
    }

    /// Validity of one resolved resource: valid numerology, and the
    /// classification and capacity fields hold exactly their precomputed
    /// values.
    pub open spec fn wf(self, formats: PucchFormatsConfig) -> bool {
        &&& wf_format(self.format)
        &&& self.format_type == spec_format_type(self.format)
        &&& self.max_hold_bits == spec_max_hold_bits(self.format, self.is_hopping(), formats)
    }

    /// Classifies a format variant as short or long PUCCH.
    pub fn pucch_format_type(format: &PucchFormat) -> (t: PucchFormatType)
        ensures
            t == spec_format_type(*format),
    {
        match format {
            PucchFormat::Format0 { .. } | PucchFormat::Format2 { .. } => PucchFormatType::ShortPucch,
            _ => PucchFormatType::LongPucch,
        }
    }

    /// The per-format configuration that governs this resource.  Format 0
    /// has none, so it is excluded.
    pub fn pucch_format_config<'a>(&'a self, pucch_formats: &'a PucchFormatsConfig) -> (c:
        &'a PucchFormatConfig)
        requires
            !(self.format is Format0),
        ensures
            *c == spec_format_config(self.format, *pucch_formats),
    {
        match self.format {
            PucchFormat::Format1 { .. } => &pucch_formats.pucch_format1,
            PucchFormat::Format2 { .. } => &pucch_formats.pucch_format2,
            PucchFormat::Format3 { .. } => &pucch_formats.pucch_format3,
            PucchFormat::Format4 { .. } => &pucch_formats.pucch_format4,
            PucchFormat::Format0 { .. } => &pucch_formats.pucch_format1,
        }
    }

    /// DMRS symbol positions of this format-3/4 resource (TS 38.211 Table
    /// 6.4.1.3.3.2-1).
    pub fn pucch_dmrs_pos(&self, pucch_formats: &PucchFormatsConfig) -> (pos: Vec<u32>)
        requires
            self.format is Format3 || self.format is Format4,
            4 <= fmt_num_sym(self.format) <= 14,
        ensures
            pos@ == dmrs_positions(
                fmt_num_sym(self.format),
                self.is_hopping(),
                spec_format_config(self.format, *pucch_formats).addition_dmrs,
            ),
    {
        let num_sym = match &self.format {
            PucchFormat::Format3 { num_sym, .. } => *num_sym,
            PucchFormat::Format4 { num_sym, .. } => *num_sym,
            _ => 4,
        };

        if num_sym == 4 {
            match self.intra_slot_freq_hopping {
                IntraSlotFreqHopping::Hopping { .. } => vec2(0, 2),
                IntraSlotFreqHopping::NoHopping => vec1(1),
            }
        } else {
            let cfg = self.pucch_format_config(pucch_formats);
            if cfg.addition_dmrs {
                match num_sym {
                    5 => vec2(0, 3),
                    6 => vec2(1, 4),
                    7 => vec2(1, 4),
                    8 => vec2(1, 5),
                    9 => vec2(1, 6),
                    10 => vec4(1, 3, 6, 8),
                    11 => vec4(1, 3, 6, 9),
                    12 => vec4(1, 4, 7, 10),
                    13 => vec4(1, 4, 7, 11),
                    _ => vec4(1, 5, 8, 12),
                }
            } else {
                match num_sym {
                    5 => vec2(0, 3),
                    6 => vec2(1, 4),
                    7 => vec2(1, 4),
                    8 => vec2(1, 5),
                    9 => vec2(1, 6),
                    10 => vec2(2, 7),
                    11 => vec2(2, 7),
                    12 => vec2(2, 8),
                    13 => vec2(2, 9),
                    _ => vec2(3, 10),
                }
            }
        }
    }

    /// How many DMRS symbols this format-3/4 resource spends.
    pub fn pucch_num_dmrs_sym(&self, pucch_formats: &PucchFormatsConfig) -> (n: u32)
        requires
            self.format is Format3 || self.format is Format4,
            4 <= fmt_num_sym(self.format) <= 14,
        ensures
            n == spec_num_dmrs(
                fmt_num_sym(self.format),
                self.is_hopping(),
                spec_format_config(self.format, *pucch_formats).addition_dmrs,
            ),
    {
        self.pucch_dmrs_pos(pucch_formats).len() as u32
    }

    /// Maximum UCI payload, in bits, this resource can hold (TS 38.213
    /// section 9.2.5.2).
    pub fn max_hold_bits(&self, pucch_formats: &PucchFormatsConfig) -> (bits: u32)
        requires
            wf_format(self.format),
            wf_formats_config(*pucch_formats),
        ensures
            bits == spec_max_hold_bits(self.format, self.is_hopping(), *pucch_formats),
    {
        match &self.format {
            PucchFormat::Format0 { .. } => 2,
            PucchFormat::Format1 { .. } => 2,
            _ => {
                let cfg = self.pucch_format_config(pucch_formats);
                let c = cfg.max_coderate_x100;
                let num_bits: u32 = match &self.format {
                    PucchFormat::Format2 { num_rb, num_sym, .. } => {
                        let data_sc = NUM_SC_PER_RB - 4;
                        let rb = *num_rb;
                        let ns = *num_sym;
                        proof {
                            assert(c * rb <= 1280 && c * rb * 8 <= 10240 && c * rb * 8 * ns
                                <= 143360 && c * rb * 8 * ns * 2 <= 286720) by (nonlinear_arith)
                                requires
                                    c <= 80,
                                    rb <= 16,
                                    ns <= 14,
                            ;
                        }
                        c * rb * data_sc * ns * QPSK_BITS
                    },
                    PucchFormat::Format3 { num_rb, num_sym, .. } => {
                        let num_data_sym = *num_sym - self.pucch_num_dmrs_sym(pucch_formats);
                        let qm = if cfg.pi2_bpsk {
                            BPSK_BITS
                        } else {
                            QPSK_BITS
                        };
                        let rb = *num_rb;
                        proof {
                            assert(c * rb <= 1280 && c * rb * 12 <= 15360 && c * rb * 12
                                * num_data_sym <= 215040 && c * rb * 12 * num_data_sym * qm
                                <= 430080) by (nonlinear_arith)
                                requires
                                    c <= 80,
                                    rb <= 16,
                                    num_data_sym <= 14,
                                    qm <= 2,
                            ;
                        }
                        c * rb * NUM_SC_PER_RB * num_data_sym * qm
                    },
                    PucchFormat::Format4 { num_sym, occ_len, .. } => {
                        let data_sc = NUM_SC_PER_RB / *occ_len;
                        let num_data_sym = *num_sym - self.pucch_num_dmrs_sym(pucch_formats);
                        let qm = if cfg.pi2_bpsk {
                            BPSK_BITS
                        } else {
                            QPSK_BITS
                        };
                        proof {
                            assert(c * data_sc <= 480 && c * data_sc * num_data_sym <= 6720 && c
                                * data_sc * num_data_sym * qm <= 13440) by (nonlinear_arith)
                                requires
                                    c <= 80,
                                    data_sc <= 6,
                                    num_data_sym <= 14,
                                    qm <= 2,
                            ;
                        }
                        c * data_sc * num_data_sym * qm
                    },
                    _ => 0,
                };
                num_bits / 100
            },
        }
    }
}

/// The slot-wide symbol-occupancy bitmap of a format variant: bits
/// `[start_sym, start_sym + num_sym)` are set.
pub open spec fn spec_sym_bitmap(f: PucchFormat) -> u32 {
    mask_spec(fmt_start_sym(f), fmt_num_sym(f))
}

/// Two format variants overlap iff their occupancy bitmaps intersect.
pub open spec fn spec_overlap(a: PucchFormat, b: PucchFormat) -> bool {
    spec_sym_bitmap(a) & spec_sym_bitmap(b) != 0
}

impl PucchResource {
    /// The occupied symbol range `(start_sym, num_sym)` of this resource.
    pub fn occupied_sym(&self) -> (r: (u32, u32))
        ensures
            r.0 == fmt_start_sym(self.format),
            r.1 == fmt_num_sym(self.format),
    {
        match self.format {
            PucchFormat::Format0 { init_cyclic_shift: _, num_sym, start_sym } => (
                start_sym,
                num_sym,
            ),
            PucchFormat::Format1 { init_cyclic_shift: _, num_sym, start_sym, .. } => (
                start_sym,
                num_sym,
            ),
            PucchFormat::Format2 { num_rb: _, num_sym, start_sym } => (start_sym, num_sym),
            PucchFormat::Format3 { num_rb: _, num_sym, start_sym } => (start_sym, num_sym),
            PucchFormat::Format4 { num_sym, occ_len: _, occ_idx: _, start_sym } => (
                start_sym,
                num_sym,
            ),
        }
    }

    /// The slot-wide symbol-occupancy bitmap of this resource.
    pub fn sym_bitmap(&self) -> (r: u32)
        requires
            wf_format(self.format),
        ensures
            r == spec_sym_bitmap(self.format),
    {
        let (start_sym, num_sym) = self.occupied_sym();
        mask(start_sym, num_sym)
    }

    /// Whether this resource occupies a symbol that `other` also occupies.
    pub fn is_overlap(&self, other: &PucchResource) -> (r: bool)
        requires
            wf_format(self.format),
            wf_format(other.format),
        ensures
            r == spec_overlap(self.format, other.format),
    {
        (self.sym_bitmap() & other.sym_bitmap()) != 0
    }
}

impl PucchResourceSet {
    /// Validity of one resolved set against a resource table of `pool_len`
    /// entries: the set id is one of the four the selection rules cover,
    /// the member count fits the 32-bit index arithmetic, and every member
    /// points into the table.
    pub open spec fn wf(self, pool_len: int) -> bool {
        &&& self.pucch_resource_set_id <= 3
        &&& self.pucch_resource_id@.len() <= u32::MAX
        &&& forall|j: int|
            0 <= j < self.pucch_resource_id@.len() ==> (#[trigger] self.pucch_resource_id@[j]).idx
                < pool_len
    }
}

impl PucchConfig {
    /// Validity of the whole resolved configuration; established by
    /// [`PucchConfig::resolve`] and preserved thereafter (the configuration
    /// is immutable).
    pub open spec fn wf(self) -> bool {
        &&& wf_formats_config(self.pucch_formats)
        &&& forall|i: int|
            0 <= i < self.pucch_resource@.len() ==> (#[trigger] self.pucch_resource@[i]).wf(
                self.pucch_formats,
            )
        &&& forall|i: int|
            0 <= i < self.pucch_resource_set@.len() ==> (#[trigger] self.pucch_resource_set@[i]).wf(
                self.pucch_resource@.len() as int,
            )
        &&& (self.multi_csi_resource matches Some(m) ==> {
            &&& m@.len() <= 2
            &&& forall|i: int|
                0 <= i < m@.len() ==> (#[trigger] m@[i]).idx < self.pucch_resource@.len()
            &&& forall|i: int, j: int|
                0 <= i < j < m@.len() ==> self.pucch_resource@[m@[i].idx as int].max_hold_bits
                    <= self.pucch_resource@[m@[j].idx as int].max_hold_bits
        })
        &&& (self.sr_resource matches Some(v) ==> forall|i: int|
            0 <= i < v@.len() ==> (#[trigger] v@[i]).pucch_resource_id.idx
                < self.pucch_resource@.len())
    }
}

/// Whether a resource set can hold a UCI payload of `o_uci` bits.
pub open spec fn set_holds_uci(set: PucchResourceSet, o_uci: u32) -> bool {
    o_uci <= set.max_payload_minus_1
}

/// The position of the first resource set, in configured order, whose
/// maximum payload bound can hold `o_uci` bits.
pub open spec fn first_set_for_uci(sets: Seq<PucchResourceSet>, o_uci: u32) -> Option<int>
    decreases sets.len(),
{
    if sets.len() == 0 {
        None
    } else if set_holds_uci(sets[0], o_uci) {
        Some(0)
    } else {
        match first_set_for_uci(sets.drop_first(), o_uci) {
            Some(i) => Some(i + 1),
            None => None,
        }
    }
}

/// `first_set_for_uci` returns exactly the first matching position: every
/// earlier set cannot hold the payload, and `None` means no set can.
pub proof fn lemma_first_set_for_uci(sets: Seq<PucchResourceSet>, o_uci: u32)
    ensures
        match first_set_for_uci(sets, o_uci) {
            Some(i) => 0 <= i < sets.len() && set_holds_uci(sets[i], o_uci) && (forall|j: int|
                0 <= j < i ==> !set_holds_uci(sets[j], o_uci)),
            None => forall|j: int| 0 <= j < sets.len() ==> !set_holds_uci(sets[j], o_uci),
        },
    decreases sets.len(),
{
    if sets.len() > 0 && !set_holds_uci(sets[0], o_uci) {
        let rest = sets.drop_first();
        lemma_first_set_for_uci(rest, o_uci);
        match first_set_for_uci(rest, o_uci) {
            Some(i) => {
                assert(set_holds_uci(sets[i + 1], o_uci)) by {
                    assert(sets[i + 1] == rest[i]);
                }
                assert forall|j: int| 0 <= j < i + 1 implies !set_holds_uci(sets[j], o_uci) by {
                    if j >= 1 {
                        assert(sets[j] == rest[j - 1]);
                    }
                }
            },
            None => {
                assert forall|j: int| 0 <= j < sets.len() implies !set_holds_uci(
                    sets[j],
                    o_uci,
                ) by {
                    if j >= 1 {
                        assert(sets[j] == rest[j - 1]);
                    }
                }
            },
        }
    }
}

/// The within-set resource index selected by the DCI fields (TS 38.213
/// section 9.2.3): the resource indicator itself for sets 1 to 3 and for a
/// set 0 of at most 8 resources, the spread formula otherwise.
pub open spec fn spec_idx_in_set(
    set: PucchResourceSet,
    pri: u32,
    dci_first_cce: u32,
    num_cce: u32,
) -> int {
    let n = set.pucch_resource_id@.len() as int;
    if set.pucch_resource_set_id == 0 && n > 8 {
        let c8 = (n + 7) / 8;
        let r = dci_first_cce * c8 / (num_cce as int) + pri * c8;
        if pri < n % 8 {
            r
        } else {
            r + n % 8
        }
    } else {
        pri as int
    }
}

/// What `pucch_resource_for_uci` returns: the resource selected from the
/// first set that can hold the payload, or the error that names why no
/// resource was selected.
pub open spec fn spec_resource_for_uci(
    cfg: PucchConfig,
    o_uci: u32,
    pri: u32,
    dci_first_cce: u32,
    num_cce: u32,
) -> Result<PucchResource, Error> {
    match first_set_for_uci(cfg.pucch_resource_set@, o_uci) {
        None => Err(Error::NoMatchingResourceSet),
        Some(si) => {
            let set = cfg.pucch_resource_set@[si];
            let n = set.pucch_resource_id@.len() as int;
            if set.pucch_resource_set_id == 0 && n > 8 && num_cce == 0 {
                Err(Error::ConfigInconsistency)
            } else {
                let k = spec_idx_in_set(set, pri, dci_first_cce, num_cce);
                if 0 <= k < n {
                    Ok(cfg.pucch_resource@[set.pucch_resource_id@[k].idx as int])
                } else {
                    Err(Error::ConfigInconsistency)
                }
            }
        },
    }
}

impl PucchConfig {
    /// The first resource set, in configured order, whose maximum payload
    /// bound can hold `o_uci` bits (TS 38.213 section 9.2.1).
    pub fn pucch_resource_set_for_uci<'a>(&'a self, o_uci: u32) -> (r: Result<
        &'a PucchResourceSet,
        Error,
    >)
        ensures
            match r {
                Ok(set) => first_set_for_uci(self.pucch_resource_set@, o_uci) matches Some(i)
                    && *set == self.pucch_resource_set@[i],
                Err(e) => e == Error::NoMatchingResourceSet && first_set_for_uci(
                    self.pucch_resource_set@,
                    o_uci,
                ) is None,
            },
    {
        proof {
            lemma_first_set_for_uci(self.pucch_resource_set@, o_uci);
        }
        let n = self.pucch_resource_set.len();
        let mut i: usize = 0;
        while i < n
            invariant
                n == self.pucch_resource_set@.len(),
                0 <= i <= n,
                forall|j: int| 0 <= j < i ==> !set_holds_uci(self.pucch_resource_set@[j], o_uci),
            decreases n - i,
        {
            if o_uci <= self.pucch_resource_set[i].max_payload_minus_1 {
                proof {
                    lemma_first_set_for_uci(self.pucch_resource_set@, o_uci);
                    let fi = first_set_for_uci(self.pucch_resource_set@, o_uci);
                    assert(fi matches Some(k) && k == i) by {
                        if fi is None {
                            assert(set_holds_uci(self.pucch_resource_set@[i as int], o_uci));
                        } else {
                            let k = fi->Some_0;
                            if k < i {
                                assert(set_holds_uci(self.pucch_resource_set@[k], o_uci));
                            }
                        }
                    }
                }
                return Ok(&self.pucch_resource_set[i]);
            }
            i = i + 1;
        }
        Err(Error::NoMatchingResourceSet)
    }

    /// The single resource that carries a UCI payload of `o_uci` bits, given
    /// the PUCCH resource indicator `pucch_resource_indicator` and the DCI
    /// CCE fields (TS 38.213 sections 9.2.1 and 9.2.3).  A computed index
    /// outside the owning set, or a zero `num_cce` when the spread formula
    /// needs it, signals DCI fields inconsistent with the resolved
    /// configuration.
    pub fn pucch_resource_for_uci<'a>(
        &'a self,
        o_uci: u32,
        pucch_resource_indicator: u32,
        dci_first_cce: u32,
        num_cce: u32,
    ) -> (r: Result<&'a PucchResource, Error>)
        requires
            self.wf(),
        ensures
            match r {
                Ok(res) => spec_resource_for_uci(
                    *self,
                    o_uci,
                    pucch_resource_indicator,
                    dci_first_cce,
                    num_cce,
                ) == Ok::<PucchResource, Error>(*res),
                Err(e) => spec_resource_for_uci(
                    *self,
                    o_uci,
                    pucch_resource_indicator,
                    dci_first_cce,
                    num_cce,
                ) == Err::<PucchResource, Error>(e),
            },
    {
        let pucch_resource_set = match self.pucch_resource_set_for_uci(o_uci) {
            Ok(set) => set,
            Err(e) => {
                return Err(e);
            },
        };
        let ghost si = first_set_for_uci(self.pucch_resource_set@, o_uci)->Some_0;
        proof {
            lemma_first_set_for_uci(self.pucch_resource_set@, o_uci);
            assert(self.pucch_resource_set@[si].wf(self.pucch_resource@.len() as int));
        }
        let n_usize = pucch_resource_set.pucch_resource_id.len();
        let n = n_usize as u64;
        let idx_in_set: u64 = if pucch_resource_set.pucch_resource_set_id == 0 && n > 8 {
            if num_cce == 0 {
                return Err(Error::ConfigInconsistency);
            }
            let c8: u64 = (n + 7) / 8;
            proof {
                assert(c8 <= 0x2000_0000u64);
                assert((dci_first_cce as u64) * c8 <= 0x2000_0000_0000_0000u64 && (
                pucch_resource_indicator as u64) * c8 <= 0x2000_0000_0000_0000u64)
                    by (nonlinear_arith)
                    requires
                        c8 <= 0x2000_0000u64,
                        (dci_first_cce as u64) <= 0xFFFF_FFFFu64,
                        (pucch_resource_indicator as u64) <= 0xFFFF_FFFFu64,
                ;
                assert(((dci_first_cce as u64) * c8) as u64 / (num_cce as u64) <= (dci_first_cce
                    as u64) * c8) by (nonlinear_arith)
                    requires
                        num_cce >= 1,
                ;
            }
            let r = (dci_first_cce as u64) * c8 / (num_cce as u64) + (pucch_resource_indicator
                as u64) * c8;
            let n_mod_8 = n % 8;
            if (pucch_resource_indicator as u64) < n_mod_8 {
                r
            } else {
                if r > u64::MAX - n_mod_8 {
                    return Err(Error::ConfigInconsistency);
                }
                r + n_mod_8
            }
        } else {
            pucch_resource_indicator as u64
        };

        if idx_in_set >= n {
            return Err(Error::ConfigInconsistency);
        }
        let k = idx_in_set as usize;
        let pucch_resource_idx = pucch_resource_set.pucch_resource_id[k].idx;
        Ok(&self.pucch_resource[pucch_resource_idx])
    }
}

/// Builds a one-element vector.
fn vec1(a: u32) -> (v: Vec<u32>)
    ensures
        v@ == seq![a],
{
    let mut v: Vec<u32> = Vec::new();
    v.push(a);
    proof {
        assert(v@ =~= seq![a]);
    }
    v
}

/// Builds a two-element vector.
fn vec2(a: u32, b: u32) -> (v: Vec<u32>)
    ensures
        v@ == seq![a, b],
{
    let mut v: Vec<u32> = Vec::new();
    v.push(a);
    v.push(b);
    proof {
        assert(v@ =~= seq![a, b]);
    }
    v
}

/// Builds a four-element vector.
fn vec4(a: u32, b: u32, c: u32, d: u32) -> (v: Vec<u32>)
    ensures
        v@ == seq![a, b, c, d],
{
    let mut v: Vec<u32> = Vec::new();
    v.push(a);
    v.push(b);
    v.push(c);
    v.push(d);
    proof {
        assert(v@ =~= seq![a, b, c, d]);
    }
    v
}

} // verus!
