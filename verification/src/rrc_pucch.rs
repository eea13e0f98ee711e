//! Raw RRC PUCCH configuration, mirroring the PUCCH-Config information
//! element.  These types carry unvalidated input; the resolver in
//! [`crate::pucch`] turns them into the immutable runtime configuration.

use vstd::prelude::*;

verus! {

/// Cell-wide common PUCCH parameters (PUCCH-ConfigCommon).
#[derive(Debug, Clone, PartialEq)]
pub struct PucchConfigCommonR {
    pub index: u32,
    pub pucch_group_seq_hopping: PucchGroupSeqHopping,
    pub p0_nominal: i32,
}

/// Group- and sequence-hopping choice of the cell.
#[derive(Debug, Clone, Copy, PartialEq)]
pub enum PucchGroupSeqHopping {
    Neither,
    GroupHopping(u32),
    SeqHopping(u32),
}

/// Dedicated PUCCH configuration of one UE (PUCCH-Config).
#[derive(Debug, Clone, PartialEq)]
pub struct PucchConfigR {
    pub pucch_resource_set: Option<Vec<PucchResourceSetR>>,
    pub pucch_resource: Option<Vec<PucchResourceR>>,
    pub pucch_format1: PucchFormatConfigR,
    pub pucch_format2: PucchFormatConfigR,
    pub pucch_format3: PucchFormatConfigR,
    pub pucch_format4: PucchFormatConfigR,
    pub sr_resource: Option<Vec<SrResourceConfigR>>,
    /// Ids of the resources that may carry several multiplexed CSI reports.
    pub multi_csi_resource: Option<Vec<u32>>,
    /// K1: candidate delays from DL data to the UL ACK, in slots.
    pub dl_data_to_ul_ack: Option<Vec<u32>>,
}

/// One raw resource set: an id, the member resource ids, and an optional
/// maximum UCI payload bound.
#[derive(Debug, Clone, PartialEq)]
pub struct PucchResourceSetR {
    pub pucch_resource_set_id: u32,
    pub pucch_resource_id: Vec<u32>,
    pub max_payload_minus_1: Option<u32>,
}

/// One raw PUCCH resource with its format-specific numerology.
#[derive(Debug, Clone, Copy, PartialEq)]
pub struct PucchResourceR {
    pub pucch_resource_id: u32,
    pub start_prb: u32,
    pub intra_slot_freq_hopping: IntraSlotFreqHopping,
    pub format: PucchFormat,
}

/// Whether the resource hops to a second PRB within the slot.
#[derive(Debug, Clone, Copy, PartialEq)]
pub enum IntraSlotFreqHopping {
    Hopping { second_prb: u32 },
    NoHopping,
}

/// The five mutually exclusive PUCCH format variants with their
/// format-specific fields.
#[derive(Debug, Clone, Copy, PartialEq)]
pub enum PucchFormat {
    Format0 { init_cyclic_shift: u32, num_sym: u32, start_sym: u32 },
    Format1 { init_cyclic_shift: u32, num_sym: u32, start_sym: u32, time_occ: u32 },
    Format2 { num_rb: u32, num_sym: u32, start_sym: u32 },
    Format3 { num_rb: u32, num_sym: u32, start_sym: u32 },
    Format4 { num_sym: u32, occ_len: u32, occ_idx: u32, start_sym: u32 },
}

/// Raw per-format configuration (PUCCH-FormatConfig).
///
/// The maximum code rate is carried as one hundred times its value, so that
/// the candidate set {0.08, 0.15, 0.25, 0.35, 0.45, 0.60, 0.80} becomes
/// {8, 15, 25, 35, 45, 60, 80}.
#[derive(Debug, Clone, Copy, PartialEq)]
pub struct PucchFormatConfigR {
    pub inter_slot_freq_hopping: bool,
    pub addition_dmrs: bool,
    pub max_coderate_x100: Option<u32>,
    pub num_slots: Option<u32>,
    pub pi2_bpsk: bool,
    pub simul_harq_csi: bool,
}

/// One raw scheduling-request resource (SchedulingRequestResourceConfig).
#[derive(Debug, Clone, Copy, PartialEq)]
pub struct SrResourceConfigR {
    pub sr_resource_id: u32,
    pub sr_id: u32,
    pub period_offset: SrPeriodOffset,
    pub pucch_resource_id: u32,
}

/// SR periodicity and offset; `SLn(o)` is a period of `n` slots with offset
/// `o`, the two symbol-level variants have no slot offset.
#[derive(Debug, Clone, Copy, PartialEq)]
pub enum SrPeriodOffset {
    Sym2,
    Sym6Or7,
    SL1,
    SL2(u32),
    SL4(u32),
    SL5(u32),
    SL8(u32),
    SL10(u32),
    SL16(u32),
    SL20(u32),
    SL40(u32),
    SL80(u32),
    SL160(u32),
    SL320(u32),
    SL640(u32),
}

/// The default raw per-format configuration: no hopping, no additional DMRS,
/// code rate 0.08, one slot, pi/2-BPSK and simultaneous HARQ+CSI enabled.
pub open spec fn format_config_r_default() -> PucchFormatConfigR {
    PucchFormatConfigR {
        inter_slot_freq_hopping: false,
        addition_dmrs: false,
        max_coderate_x100: Some(8u32),
        num_slots: Some(1u32),
        pi2_bpsk: true,
        simul_harq_csi: true,
    }
}

impl Default for PucchFormatConfigR {
    /// Builds [`format_config_r_default`].
    fn default() -> (d: Self)
        ensures
            d == format_config_r_default(),
    {
        Self {
            inter_slot_freq_hopping: false,
            addition_dmrs: false,
            max_coderate_x100: Some(8),
            num_slots: Some(1),
            pi2_bpsk: true,
            simul_harq_csi: true,
        }
    }
}

impl Default for PucchConfigR {
    /// A small example configuration: one resource set holding a Format-0
    /// and a Format-1 resource, default per-format configs, one SR resource,
    /// one multi-CSI candidate, and the K1 set {2..9}.
    fn default() -> (d: Self)
        ensures
            d.pucch_resource_set matches Some(sets) && sets@.len() == 1
                && sets@[0].pucch_resource_set_id == 0
                && sets@[0].pucch_resource_id@ == seq![0u32, 1u32]
                && sets@[0].max_payload_minus_1 is None,
            d.pucch_resource matches Some(res) && res@.len() == 2
                && res@[0].pucch_resource_id == 0
                && res@[0].start_prb == 0
                && res@[0].intra_slot_freq_hopping is NoHopping
                && res@[0].format == (PucchFormat::Format0 {
                    init_cyclic_shift: 0,
                    num_sym: 2,
                    start_sym: 0,
                })
                && res@[1].pucch_resource_id == 1
                && res@[1].start_prb == 0
                && res@[1].intra_slot_freq_hopping == (IntraSlotFreqHopping::Hopping {
                    second_prb: 20,
                })
                && res@[1].format == (PucchFormat::Format1 {
                    init_cyclic_shift: 2,
                    num_sym: 2,
                    start_sym: 3,
                    time_occ: 1,
                }),
            d.pucch_format1 == format_config_r_default(),
            d.pucch_format2 == format_config_r_default(),
            d.pucch_format3 == format_config_r_default(),
            d.pucch_format4 == format_config_r_default(),
            d.sr_resource matches Some(sr) && sr@.len() == 1
                && sr@[0].sr_resource_id == 0
                && sr@[0].sr_id == 0
                && sr@[0].period_offset == SrPeriodOffset::SL8(1)
                && sr@[0].pucch_resource_id == 1,
            d.multi_csi_resource matches Some(m) && m@ == seq![3u32],
            d.dl_data_to_ul_ack matches Some(k1)
                && k1@ == seq![2u32, 3u32, 4u32, 5u32, 6u32, 7u32, 8u32, 9u32],
    {
        PucchConfigR {
            pucch_resource_set: Some(vec![
                PucchResourceSetR {
                    pucch_resource_set_id: 0,
                    pucch_resource_id: vec![0, 1],
                    max_payload_minus_1: None,
                },
            ]),
            pucch_resource: Some(vec![
                PucchResourceR {
                    pucch_resource_id: 0,
                    start_prb: 0,
                    intra_slot_freq_hopping: IntraSlotFreqHopping::NoHopping,
                    format: PucchFormat::Format0 { init_cyclic_shift: 0, num_sym: 2, start_sym: 0 },
                },
                PucchResourceR {
                    pucch_resource_id: 1,
                    start_prb: 0,
                    intra_slot_freq_hopping: IntraSlotFreqHopping::Hopping { second_prb: 20 },
                    format: PucchFormat::Format1 {
                        init_cyclic_shift: 2,
                        num_sym: 2,
                        start_sym: 3,
                        time_occ: 1,
                    },
                },
            ]),
            pucch_format1: PucchFormatConfigR::default(),
            pucch_format2: PucchFormatConfigR::default(),
            pucch_format3: PucchFormatConfigR::default(),
            pucch_format4: PucchFormatConfigR::default(),
            sr_resource: Some(vec![
                SrResourceConfigR {
                    sr_resource_id: 0,
                    sr_id: 0,
                    period_offset: SrPeriodOffset::SL8(1),
                    pucch_resource_id: 1,
                },
            ]),
            multi_csi_resource: Some(vec![3]),
            dl_data_to_ul_ack: Some(vec![2, 3, 4, 5, 6, 7, 8, 9]),
        }
    }
}

} // verus!
