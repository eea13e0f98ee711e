//! Tests of the per-slot multiplexing pipeline: HARQ consolidation, CSI
//! reduction, HARQ/CSI enforcement and SR pruning.

use pucch::{
    csi_pucch_proc, harq_consolidation_proc, harq_csi_simul_proc, pucch_proc, sr_pucch_proc,
    CsiReport, Error, IntraSlotFreqHopping, PucchChannelType, PucchConfig, PucchConfigR,
    PucchFormat, PucchFormatConfigR, PucchLogicChannel, PucchResourceId, PucchResourceR,
    PucchResourceSetR, SrRequest,
};

fn format_cfg(coderate_x100: u32) -> PucchFormatConfigR {
    PucchFormatConfigR {
        inter_slot_freq_hopping: false,
        addition_dmrs: false,
        max_coderate_x100: Some(coderate_x100),
        num_slots: Some(1),
        pi2_bpsk: true,
        simul_harq_csi: true,
    }
}

fn resolve_with(
    resources: Vec<PucchResourceR>,
    multi_csi: Option<Vec<u32>>,
    raw_tweak: impl FnOnce(&mut PucchConfigR),
) -> PucchConfig {
    let ids = resources.iter().map(|r| r.pucch_resource_id).collect();
    let mut raw = PucchConfigR {
        pucch_resource_set: Some(vec![PucchResourceSetR {
            pucch_resource_set_id: 0,
            pucch_resource_id: ids,
            max_payload_minus_1: Some(1706),
        }]),
        pucch_resource: Some(resources),
        pucch_format1: format_cfg(8),
        pucch_format2: format_cfg(80),
        pucch_format3: format_cfg(25),
        pucch_format4: format_cfg(80),
        sr_resource: None,
        multi_csi_resource: multi_csi,
        dl_data_to_ul_ack: None,
    };
    raw_tweak(&mut raw);
    PucchConfig::resolve(&raw).unwrap()
}

fn format2(num_rb: u32, num_sym: u32, start_sym: u32) -> PucchFormat {
    PucchFormat::Format2 { num_rb, num_sym, start_sym }
}

fn resource(id: u32, format: PucchFormat) -> PucchResourceR {
    PucchResourceR {
        pucch_resource_id: id,
        start_prb: 0,
        intra_slot_freq_hopping: IntraSlotFreqHopping::NoHopping,
        format,
    }
}

fn channel(cfg: &PucchConfig, channel_type: PucchChannelType, resource_id: u32) -> PucchLogicChannel {
    PucchLogicChannel {
        channel_type,
        pucch_resource_id: PucchResourceId::from_pucch_resource_id(
            &cfg.pucch_resource,
            resource_id,
        )
        .unwrap(),
    }
}

fn csi(priority: u32, o_csi: u32) -> PucchChannelType {
    PucchChannelType::Csi(CsiReport { priority, o_csi, o_csi_1: o_csi, o_csi_2: None })
}

fn csi_priorities(channels: &[PucchLogicChannel]) -> Vec<u32> {
    let mut p: Vec<u32> = channels
        .iter()
        .filter_map(|c| match &c.channel_type {
            PucchChannelType::Csi(r) => Some(r.priority),
            _ => None,
        })
        .collect();
    p.sort();
    p
}

#[test]
fn csi_selection_keeps_the_two_best_priorities() {
    // three non-overlapping CSI channels with priorities [5, 1, 3] and no
    // multi-CSI list: priorities {1, 3} survive, 5 is dropped
    let cfg = resolve_with(
        vec![
            resource(0, format2(1, 2, 0)),
            resource(1, format2(1, 2, 2)),
            resource(2, format2(1, 2, 4)),
        ],
        None,
        |_| {},
    );
    let mut channels = vec![
        channel(&cfg, csi(5, 4), 0),
        channel(&cfg, csi(1, 4), 1),
        channel(&cfg, csi(3, 4), 2),
    ];
    csi_pucch_proc(&cfg, &mut channels);
    assert_eq!(channels.len(), 2);
    assert_eq!(csi_priorities(&channels), vec![1, 3]);
}

#[test]
fn csi_selection_prefers_earliest_on_equal_priority() {
    let cfg = resolve_with(
        vec![
            resource(0, format2(1, 2, 0)),
            resource(1, format2(1, 2, 2)),
            resource(2, format2(1, 2, 4)),
        ],
        None,
        |_| {},
    );
    let mut channels = vec![
        channel(&cfg, csi(2, 4), 0),
        channel(&cfg, csi(2, 4), 1),
        channel(&cfg, csi(2, 4), 2),
    ];
    csi_pucch_proc(&cfg, &mut channels);
    assert_eq!(channels.len(), 2);
    // the primary is the earliest of equal priority, the secondary the next
    assert_eq!(channels[0].pucch_resource_id.id, 0);
    assert_eq!(channels[1].pucch_resource_id.id, 1);
}

#[test]
fn csi_selection_requires_short_secondary_next_to_long_primary() {
    // the primary (priority 1) sits on a long Format-3 resource; the next
    // priority (2) also sits on a long resource and is skipped; priority 4
    // sits on a short one and becomes the secondary
    let cfg = resolve_with(
        vec![
            resource(0, PucchFormat::Format3 { num_rb: 1, num_sym: 4, start_sym: 0 }),
            resource(1, PucchFormat::Format3 { num_rb: 1, num_sym: 4, start_sym: 4 }),
            resource(2, format2(1, 2, 8)),
        ],
        None,
        |_| {},
    );
    let mut channels = vec![
        channel(&cfg, csi(1, 4), 0),
        channel(&cfg, csi(2, 4), 1),
        channel(&cfg, csi(4, 4), 2),
    ];
    csi_pucch_proc(&cfg, &mut channels);
    assert_eq!(csi_priorities(&channels), vec![1, 4]);
}

#[test]
fn overlapping_csi_channels_are_multiplexed() {
    // resource 2 holds 12 bits, resource 3 holds 51: with a combined payload
    // of 30 the capacity-51 candidate is chosen
    let cfg = resolve_with(
        vec![
            resource(0, format2(1, 2, 0)),
            resource(1, format2(1, 2, 0)),
            resource(2, format2(1, 1, 4)),
            resource(3, format2(2, 2, 6)),
        ],
        Some(vec![2, 3]),
        |_| {},
    );
    assert_eq!(cfg.pucch_resource[2].max_hold_bits, 12);
    assert_eq!(cfg.pucch_resource[3].max_hold_bits, 51);

    let mut channels = vec![
        channel(&cfg, csi(1, 15), 0),
        channel(&cfg, csi(2, 15), 1),
    ];
    csi_pucch_proc(&cfg, &mut channels);
    assert_eq!(channels.len(), 1);
    match &channels[0].channel_type {
        PucchChannelType::CsiMulti(reports) => {
            assert_eq!(reports.len(), 2);
            assert_eq!(reports[0].o_csi + reports[1].o_csi, 30);
        },
        other => panic!("expected a multiplexed CSI channel, got {:?}", other),
    }
    assert_eq!(channels[0].pucch_resource_id.id, 3);
}

#[test]
fn multiplexing_falls_back_to_the_largest_candidate() {
    let cfg = resolve_with(
        vec![
            resource(0, format2(1, 2, 0)),
            resource(1, format2(1, 2, 0)),
            resource(2, format2(1, 1, 4)),
            resource(3, format2(2, 2, 6)),
        ],
        Some(vec![2, 3]),
        |_| {},
    );
    // combined payload 80 exceeds both 12 and 51: the last (largest) wins
    let mut channels = vec![
        channel(&cfg, csi(1, 40), 0),
        channel(&cfg, csi(2, 40), 1),
    ];
    csi_pucch_proc(&cfg, &mut channels);
    assert_eq!(channels.len(), 1);
    assert_eq!(channels[0].pucch_resource_id.id, 3);
}

#[test]
fn non_overlapping_csi_channels_are_selected_despite_candidates() {
    // a multi-CSI list is configured, but the CSI channels do not overlap:
    // selection, not multiplexing
    let cfg = resolve_with(
        vec![
            resource(0, format2(1, 2, 0)),
            resource(1, format2(1, 2, 2)),
            resource(2, format2(1, 1, 4)),
        ],
        Some(vec![2]),
        |_| {},
    );
    let mut channels = vec![
        channel(&cfg, csi(5, 4), 0),
        channel(&cfg, csi(1, 4), 1),
    ];
    csi_pucch_proc(&cfg, &mut channels);
    assert_eq!(channels.len(), 2);
    assert_eq!(csi_priorities(&channels), vec![1, 5]);
}

#[test]
fn a_single_csi_channel_is_left_alone() {
    let cfg = resolve_with(vec![resource(0, format2(1, 2, 0))], None, |_| {});
    let mut channels = vec![channel(&cfg, csi(1, 4), 0)];
    csi_pucch_proc(&cfg, &mut channels);
    assert_eq!(channels.len(), 1);
    assert!(matches!(channels[0].channel_type, PucchChannelType::Csi(..)));
}

#[test]
fn dci_harq_displaces_semi_persistent_harq() {
    let mut channels = vec![
        PucchLogicChannel {
            channel_type: PucchChannelType::HarqSps,
            pucch_resource_id: PucchResourceId { id: 0, idx: 0 },
        },
        PucchLogicChannel {
            channel_type: PucchChannelType::HarqDci,
            pucch_resource_id: PucchResourceId { id: 1, idx: 1 },
        },
    ];
    harq_consolidation_proc(&mut channels);
    assert_eq!(channels.len(), 1);
    assert!(matches!(channels[0].channel_type, PucchChannelType::HarqDci));
}

#[test]
fn semi_persistent_harq_survives_alone() {
    let mut channels = vec![PucchLogicChannel {
        channel_type: PucchChannelType::HarqSps,
        pucch_resource_id: PucchResourceId { id: 0, idx: 0 },
    }];
    harq_consolidation_proc(&mut channels);
    assert_eq!(channels.len(), 1);
    assert!(matches!(channels[0].channel_type, PucchChannelType::HarqSps));
}

#[test]
fn sr_pruning_drops_an_isolated_negative_sr() {
    let cfg = resolve_with(
        vec![resource(0, format2(1, 2, 0)), resource(1, format2(1, 1, 13))],
        None,
        |_| {},
    );
    let mut channels = vec![
        channel(&cfg, PucchChannelType::HarqDci, 0),
        channel(&cfg, PucchChannelType::Sr(SrRequest { positive: false, sr_id: 1 }), 1),
    ];
    sr_pucch_proc(&cfg, &mut channels);
    assert_eq!(channels.len(), 1);
    assert!(matches!(channels[0].channel_type, PucchChannelType::HarqDci));
}

#[test]
fn sr_pruning_never_drops_a_positive_sr() {
    let cfg = resolve_with(
        vec![resource(0, format2(1, 2, 0)), resource(1, format2(1, 1, 13))],
        None,
        |_| {},
    );
    let mut channels = vec![
        channel(&cfg, PucchChannelType::HarqDci, 0),
        channel(&cfg, PucchChannelType::Sr(SrRequest { positive: true, sr_id: 1 }), 1),
    ];
    sr_pucch_proc(&cfg, &mut channels);
    assert_eq!(channels.len(), 2);
}

#[test]
fn sr_pruning_keeps_a_negative_sr_that_overlaps() {
    let cfg = resolve_with(
        vec![resource(0, format2(1, 2, 0)), resource(1, format2(1, 1, 0))],
        None,
        |_| {},
    );
    let mut channels = vec![
        channel(&cfg, PucchChannelType::HarqDci, 0),
        channel(&cfg, PucchChannelType::Sr(SrRequest { positive: false, sr_id: 1 }), 1),
    ];
    sr_pucch_proc(&cfg, &mut channels);
    assert_eq!(channels.len(), 2);
}

#[test]
fn long_harq_without_simultaneous_csi_drops_all_csi() {
    // the HARQ channel sits on a long Format-3 resource whose per-format
    // configuration disallows simultaneous HARQ and CSI
    let cfg = resolve_with(
        vec![
            resource(0, PucchFormat::Format3 { num_rb: 1, num_sym: 4, start_sym: 0 }),
            resource(1, format2(1, 2, 6)),
            resource(2, format2(1, 2, 10)),
        ],
        None,
        |raw| {
            raw.pucch_format3.simul_harq_csi = false;
        },
    );
    let mut channels = vec![
        channel(&cfg, PucchChannelType::HarqDci, 0),
        channel(&cfg, csi(1, 4), 1),
        channel(&cfg, csi(2, 4), 2),
    ];
    harq_csi_simul_proc(&cfg, &mut channels);
    assert_eq!(channels.len(), 1);
    assert!(matches!(channels[0].channel_type, PucchChannelType::HarqDci));
}

#[test]
fn short_harq_without_simultaneous_csi_drops_only_overlapping_csi() {
    let cfg = resolve_with(
        vec![
            resource(0, format2(1, 2, 0)),
            resource(1, format2(1, 2, 0)),
            resource(2, format2(1, 2, 10)),
        ],
        None,
        |raw| {
            raw.pucch_format2.simul_harq_csi = false;
        },
    );
    let mut channels = vec![
        channel(&cfg, PucchChannelType::HarqDci, 0),
        channel(&cfg, csi(1, 4), 1),
        channel(&cfg, csi(2, 4), 2),
    ];
    harq_csi_simul_proc(&cfg, &mut channels);
    assert_eq!(channels.len(), 2);
    assert_eq!(csi_priorities(&channels), vec![2]);
}

#[test]
fn allowed_simultaneous_transmission_changes_nothing() {
    let cfg = resolve_with(
        vec![resource(0, format2(1, 2, 0)), resource(1, format2(1, 2, 0))],
        None,
        |_| {},
    );
    let mut channels = vec![
        channel(&cfg, PucchChannelType::HarqDci, 0),
        channel(&cfg, csi(1, 4), 1),
    ];
    harq_csi_simul_proc(&cfg, &mut channels);
    assert_eq!(channels.len(), 2);
}

#[test]
fn pipeline_runs_end_to_end() {
    let cfg = resolve_with(
        vec![
            resource(0, format2(1, 2, 0)),
            resource(1, format2(1, 2, 4)),
            resource(2, format2(1, 2, 8)),
        ],
        None,
        |_| {},
    );
    let mut channels = vec![
        channel(&cfg, PucchChannelType::HarqDci, 0),
        channel(&cfg, PucchChannelType::Sr(SrRequest { positive: true, sr_id: 1 }), 1),
        channel(&cfg, csi(1, 20), 2),
    ];
    assert_eq!(pucch_proc(&cfg, &mut channels), Ok(()));
    assert_eq!(channels.len(), 3);
}

#[test]
fn pipeline_rejects_an_unresolved_channel() {
    let cfg = resolve_with(vec![resource(0, format2(1, 2, 0))], None, |_| {});
    let mut channels = vec![PucchLogicChannel {
        channel_type: PucchChannelType::HarqDci,
        pucch_resource_id: PucchResourceId { id: 0, idx: 99 },
    }];
    assert_eq!(pucch_proc(&cfg, &mut channels), Err(Error::ConfigInconsistency));
    assert_eq!(channels.len(), 1);
}

#[test]
fn pipeline_consolidates_reduces_and_prunes_together() {
    // DCI HARQ displaces the SPS HARQ, the two overlapping CSI channels are
    // multiplexed, and the isolated negative SR is pruned
    let cfg = resolve_with(
        vec![
            resource(0, format2(1, 2, 0)),
            resource(1, format2(1, 2, 4)),
            resource(2, format2(1, 2, 4)),
            resource(3, format2(2, 2, 6)),
            resource(4, format2(1, 1, 13)),
        ],
        Some(vec![3]),
        |_| {},
    );
    let mut channels = vec![
        channel(&cfg, PucchChannelType::HarqSps, 0),
        channel(&cfg, PucchChannelType::HarqDci, 0),
        channel(&cfg, csi(1, 10), 1),
        channel(&cfg, csi(2, 10), 2),
        channel(&cfg, PucchChannelType::Sr(SrRequest { positive: false, sr_id: 0 }), 4),
    ];
    assert_eq!(pucch_proc(&cfg, &mut channels), Ok(()));
    // remaining: the DCI HARQ and the multiplexed CSI channel
    assert_eq!(channels.len(), 2);
    assert!(channels.iter().any(|c| matches!(c.channel_type, PucchChannelType::HarqDci)));
    assert!(channels.iter().any(|c| matches!(c.channel_type, PucchChannelType::CsiMulti(..))));
}

#[test]
fn mutual_overlap_is_detected_anywhere_in_the_set() {
    // the first and third channels overlap; the second is disjoint from both
    let cfg = resolve_with(
        vec![
            resource(0, format2(1, 2, 0)),
            resource(1, format2(1, 2, 4)),
            resource(2, format2(1, 2, 1)),
        ],
        None,
        |_| {},
    );
    let overlapping = vec![
        channel(&cfg, PucchChannelType::HarqDci, 0),
        channel(&cfg, PucchChannelType::HarqSps, 1),
        channel(&cfg, PucchChannelType::HarqDci, 2),
    ];
    assert!(PucchLogicChannel::is_overlap(&cfg, &overlapping));

    let disjoint = vec![
        channel(&cfg, PucchChannelType::HarqDci, 0),
        channel(&cfg, PucchChannelType::HarqSps, 1),
    ];
    assert!(!PucchLogicChannel::is_overlap(&cfg, &disjoint));
}

#[test]
fn pipeline_accepts_an_empty_slot() {
    let cfg = resolve_with(vec![resource(0, format2(1, 2, 0))], None, |_| {});
    let mut channels: Vec<PucchLogicChannel> = Vec::new();
    assert_eq!(pucch_proc(&cfg, &mut channels), Ok(()));
    assert!(channels.is_empty());
}

#[test]
fn multiplexing_keeps_equal_capacity_candidates_in_configured_order() {
    // both candidates hold 12 bits: sorting ascending by capacity is stable,
    // and the combined payload of 4 fits the first, resource 2
    let cfg = resolve_with(
        vec![
            resource(0, format2(1, 2, 0)),
            resource(1, format2(1, 2, 0)),
            resource(2, format2(1, 1, 4)),
            resource(3, format2(1, 1, 6)),
        ],
        Some(vec![2, 3]),
        |_| {},
    );
    let multi = cfg.multi_csi_resource.as_ref().unwrap();
    assert_eq!(multi[0].id, 2);
    assert_eq!(multi[1].id, 3);

    let mut channels = vec![
        channel(&cfg, csi(1, 2), 0),
        channel(&cfg, csi(2, 2), 1),
    ];
    csi_pucch_proc(&cfg, &mut channels);
    assert_eq!(channels.len(), 1);
    assert_eq!(channels[0].pucch_resource_id.id, 2);
}
