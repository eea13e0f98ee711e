//! Tests of configuration resolution: capacities, DMRS tables, defaults,
//! validation errors and determinism.

use pucch::{
    Error, IntraSlotFreqHopping, PucchConfig, PucchConfigR, PucchFormat, PucchFormatConfigR,
    PucchFormatType, PucchResourceR, PucchResourceSetR, SrPeriodOffset, SrResourceConfigR,
};

fn format_cfg(coderate_x100: u32) -> PucchFormatConfigR {
    PucchFormatConfigR {
        inter_slot_freq_hopping: false,
        addition_dmrs: false,
        max_coderate_x100: Some(coderate_x100),
        num_slots: Some(1),
        pi2_bpsk: true,
        simul_harq_csi: true,
    }
}

fn resource(id: u32, format: PucchFormat) -> PucchResourceR {
    PucchResourceR {
        pucch_resource_id: id,
        start_prb: 0,
        intra_slot_freq_hopping: IntraSlotFreqHopping::NoHopping,
        format,
    }
}

fn raw_config(resources: Vec<PucchResourceR>, sets: Vec<PucchResourceSetR>) -> PucchConfigR {
    PucchConfigR {
        pucch_resource_set: Some(sets),
        pucch_resource: Some(resources),
        pucch_format1: format_cfg(8),
        pucch_format2: format_cfg(15),
        pucch_format3: format_cfg(25),
        pucch_format4: format_cfg(80),
        sr_resource: None,
        multi_csi_resource: None,
        dl_data_to_ul_ack: None,
    }
}

fn one_set(ids: Vec<u32>) -> Vec<PucchResourceSetR> {
    vec![PucchResourceSetR {
        pucch_resource_set_id: 0,
        pucch_resource_id: ids,
        max_payload_minus_1: Some(1706),
    }]
}

#[test]
fn format0_and_format1_hold_two_bits() {
    let raw = raw_config(
        vec![
            resource(0, PucchFormat::Format0 { init_cyclic_shift: 0, num_sym: 2, start_sym: 0 }),
            resource(
                1,
                PucchFormat::Format1 { init_cyclic_shift: 0, num_sym: 14, start_sym: 0, time_occ: 0 },
            ),
        ],
        one_set(vec![0, 1]),
    );
    let cfg = PucchConfig::resolve(&raw).unwrap();
    assert_eq!(cfg.pucch_resource[0].max_hold_bits, 2);
    assert_eq!(cfg.pucch_resource[1].max_hold_bits, 2);
    assert_eq!(cfg.pucch_resource[0].format_type, PucchFormatType::ShortPucch);
    assert_eq!(cfg.pucch_resource[1].format_type, PucchFormatType::LongPucch);
}

#[test]
fn format2_capacity_formula() {
    // 15 * 2 * (12-4) * 2 * 2 / 100 = 960 / 100 = 9
    let raw = raw_config(
        vec![resource(0, PucchFormat::Format2 { num_rb: 2, num_sym: 2, start_sym: 0 })],
        one_set(vec![0]),
    );
    let cfg = PucchConfig::resolve(&raw).unwrap();
    assert_eq!(cfg.pucch_resource[0].max_hold_bits, 9);
    assert_eq!(cfg.pucch_resource[0].format_type, PucchFormatType::ShortPucch);
}

#[test]
fn format3_capacity_formula() {
    // 10 symbols without additional DMRS have 2 DMRS symbols, so 8 data
    // symbols; pi/2-BPSK gives 1 bit per symbol:
    // 25 * 1 * 12 * 8 * 1 / 100 = 2400 / 100 = 24
    let raw = raw_config(
        vec![resource(0, PucchFormat::Format3 { num_rb: 1, num_sym: 10, start_sym: 0 })],
        one_set(vec![0]),
    );
    let cfg = PucchConfig::resolve(&raw).unwrap();
    assert_eq!(cfg.pucch_resource[0].max_hold_bits, 24);
    assert_eq!(cfg.pucch_resource[0].format_type, PucchFormatType::LongPucch);
}

#[test]
fn format4_capacity_formula() {
    // occ_len 4 leaves 3 subcarriers; 14 symbols with additional DMRS have 4
    // DMRS symbols, so 10 data symbols; QPSK gives 2 bits per symbol:
    // 80 * 3 * 10 * 2 / 100 = 4800 / 100 = 48
    let mut raw = raw_config(
        vec![resource(
            0,
            PucchFormat::Format4 { num_sym: 14, occ_len: 4, occ_idx: 0, start_sym: 0 },
        )],
        one_set(vec![0]),
    );
    raw.pucch_format4.addition_dmrs = true;
    raw.pucch_format4.pi2_bpsk = false;
    let cfg = PucchConfig::resolve(&raw).unwrap();
    assert_eq!(cfg.pucch_resource[0].max_hold_bits, 48);
}

#[test]
fn dmrs_positions_match_tables() {
    let formats = {
        let raw = raw_config(
            vec![resource(0, PucchFormat::Format3 { num_rb: 1, num_sym: 10, start_sym: 0 })],
            one_set(vec![0]),
        );
        PucchConfig::resolve(&raw).unwrap().pucch_formats
    };
    let mut formats_add = formats.clone();
    formats_add.pucch_format3.addition_dmrs = true;

    let without: [&[u32]; 10] = [
        &[0, 3],
        &[1, 4],
        &[1, 4],
        &[1, 5],
        &[1, 6],
        &[2, 7],
        &[2, 7],
        &[2, 8],
        &[2, 9],
        &[3, 10],
    ];
    let with_add: [&[u32]; 10] = [
        &[0, 3],
        &[1, 4],
        &[1, 4],
        &[1, 5],
        &[1, 6],
        &[1, 3, 6, 8],
        &[1, 3, 6, 9],
        &[1, 4, 7, 10],
        &[1, 4, 7, 11],
        &[1, 5, 8, 12],
    ];
    for num_sym in 5..=14u32 {
        let raw = raw_config(
            vec![resource(0, PucchFormat::Format3 { num_rb: 1, num_sym, start_sym: 0 })],
            one_set(vec![0]),
        );
        let res = PucchConfig::resolve(&raw).unwrap().pucch_resource[0];
        assert_eq!(res.pucch_dmrs_pos(&formats), without[(num_sym - 5) as usize]);
        assert_eq!(res.pucch_dmrs_pos(&formats_add), with_add[(num_sym - 5) as usize]);
    }
}

#[test]
fn dmrs_positions_four_symbols() {
    let raw = raw_config(
        vec![resource(0, PucchFormat::Format3 { num_rb: 1, num_sym: 4, start_sym: 0 })],
        one_set(vec![0]),
    );
    let cfg = PucchConfig::resolve(&raw).unwrap();
    let no_hop = cfg.pucch_resource[0];
    assert_eq!(no_hop.pucch_dmrs_pos(&cfg.pucch_formats), &[1]);

    let mut raw_hop = raw_config(
        vec![resource(0, PucchFormat::Format3 { num_rb: 1, num_sym: 4, start_sym: 0 })],
        one_set(vec![0]),
    );
    raw_hop.pucch_resource.as_mut().unwrap()[0].intra_slot_freq_hopping =
        IntraSlotFreqHopping::Hopping { second_prb: 5 };
    let cfg_hop = PucchConfig::resolve(&raw_hop).unwrap();
    assert_eq!(cfg_hop.pucch_resource[0].pucch_dmrs_pos(&cfg_hop.pucch_formats), &[0, 2]);
}

#[test]
fn default_payload_bounds_per_position() {
    let resources =
        vec![resource(0, PucchFormat::Format0 { init_cyclic_shift: 0, num_sym: 1, start_sym: 0 })];
    let sets = (0..4)
        .map(|i| PucchResourceSetR {
            pucch_resource_set_id: i,
            pucch_resource_id: vec![0],
            max_payload_minus_1: None,
        })
        .collect();
    let cfg = PucchConfig::resolve(&raw_config(resources, sets)).unwrap();
    let bounds: Vec<u32> =
        cfg.pucch_resource_set.iter().map(|s| s.max_payload_minus_1).collect();
    assert_eq!(bounds, vec![2, 1706, 1706, 1706]);
}

#[test]
fn explicit_payload_bound_is_preserved_verbatim() {
    let resources =
        vec![resource(0, PucchFormat::Format0 { init_cyclic_shift: 0, num_sym: 1, start_sym: 0 })];
    let sets = vec![PucchResourceSetR {
        pucch_resource_set_id: 0,
        pucch_resource_id: vec![0],
        max_payload_minus_1: Some(7),
    }];
    let cfg = PucchConfig::resolve(&raw_config(resources, sets)).unwrap();
    assert_eq!(cfg.pucch_resource_set[0].max_payload_minus_1, 7);
}

#[test]
fn fifth_set_without_bound_fails() {
    let resources =
        vec![resource(0, PucchFormat::Format0 { init_cyclic_shift: 0, num_sym: 1, start_sym: 0 })];
    let sets = (0..5)
        .map(|i| PucchResourceSetR {
            pucch_resource_set_id: i.min(3),
            pucch_resource_id: vec![0],
            max_payload_minus_1: None,
        })
        .collect();
    assert_eq!(
        PucchConfig::resolve(&raw_config(resources, sets)),
        Err(Error::MissingRequiredField)
    );
}

#[test]
fn invalid_code_rate_is_rejected() {
    let mut raw = raw_config(
        vec![resource(0, PucchFormat::Format0 { init_cyclic_shift: 0, num_sym: 1, start_sym: 0 })],
        one_set(vec![0]),
    );
    raw.pucch_format2.max_coderate_x100 = Some(9);
    assert_eq!(PucchConfig::resolve(&raw), Err(Error::InvalidParameter(9)));
}

#[test]
fn absent_code_rate_is_rejected() {
    let mut raw = raw_config(
        vec![resource(0, PucchFormat::Format0 { init_cyclic_shift: 0, num_sym: 1, start_sym: 0 })],
        one_set(vec![0]),
    );
    raw.pucch_format1.max_coderate_x100 = None;
    assert_eq!(PucchConfig::resolve(&raw), Err(Error::InvalidParameter(0)));
}

#[test]
fn invalid_slot_aggregation_is_rejected() {
    let mut raw = raw_config(
        vec![resource(0, PucchFormat::Format0 { init_cyclic_shift: 0, num_sym: 1, start_sym: 0 })],
        one_set(vec![0]),
    );
    raw.pucch_format3.num_slots = Some(3);
    assert_eq!(PucchConfig::resolve(&raw), Err(Error::InvalidParameter(3)));
}

#[test]
fn absent_slot_aggregation_defaults_to_one() {
    let mut raw = raw_config(
        vec![resource(0, PucchFormat::Format0 { init_cyclic_shift: 0, num_sym: 1, start_sym: 0 })],
        one_set(vec![0]),
    );
    raw.pucch_format1.num_slots = None;
    let cfg = PucchConfig::resolve(&raw).unwrap();
    assert_eq!(cfg.pucch_formats.pucch_format1.num_slots, 1);
}

#[test]
fn unknown_resource_id_in_set_fails() {
    let raw = raw_config(
        vec![resource(0, PucchFormat::Format0 { init_cyclic_shift: 0, num_sym: 1, start_sym: 0 })],
        one_set(vec![0, 42]),
    );
    assert_eq!(PucchConfig::resolve(&raw), Err(Error::UnknownResourceId(42)));
}

#[test]
fn symbols_beyond_the_slot_are_rejected() {
    let raw = raw_config(
        vec![resource(5, PucchFormat::Format0 { init_cyclic_shift: 0, num_sym: 2, start_sym: 13 })],
        one_set(vec![5]),
    );
    assert_eq!(PucchConfig::resolve(&raw), Err(Error::InvalidParameter(5)));
}

#[test]
fn invalid_cover_code_length_is_rejected() {
    let raw = raw_config(
        vec![resource(
            3,
            PucchFormat::Format4 { num_sym: 10, occ_len: 3, occ_idx: 0, start_sym: 0 },
        )],
        one_set(vec![3]),
    );
    assert_eq!(PucchConfig::resolve(&raw), Err(Error::InvalidParameter(3)));
}

#[test]
fn set_id_beyond_three_is_rejected() {
    let resources =
        vec![resource(0, PucchFormat::Format0 { init_cyclic_shift: 0, num_sym: 1, start_sym: 0 })];
    let sets = vec![PucchResourceSetR {
        pucch_resource_set_id: 4,
        pucch_resource_id: vec![0],
        max_payload_minus_1: Some(2),
    }];
    assert_eq!(PucchConfig::resolve(&raw_config(resources, sets)), Err(Error::InvalidParameter(4)));
}

#[test]
fn missing_resource_list_fails() {
    let mut raw = raw_config(
        vec![resource(0, PucchFormat::Format0 { init_cyclic_shift: 0, num_sym: 1, start_sym: 0 })],
        one_set(vec![0]),
    );
    raw.pucch_resource = None;
    assert_eq!(PucchConfig::resolve(&raw), Err(Error::MissingRequiredField));
}

#[test]
fn multi_csi_list_of_three_is_rejected() {
    let mut raw = raw_config(
        vec![
            resource(0, PucchFormat::Format0 { init_cyclic_shift: 0, num_sym: 1, start_sym: 0 }),
            resource(1, PucchFormat::Format0 { init_cyclic_shift: 0, num_sym: 1, start_sym: 0 }),
            resource(2, PucchFormat::Format0 { init_cyclic_shift: 0, num_sym: 1, start_sym: 0 }),
        ],
        one_set(vec![0]),
    );
    raw.multi_csi_resource = Some(vec![0, 1, 2]);
    assert_eq!(PucchConfig::resolve(&raw), Err(Error::InvalidParameter(2)));
}

#[test]
fn multi_csi_candidates_sorted_by_capacity() {
    // resource 0 holds 51 bits, resource 1 holds 1 bit; the resolved list
    // must come out ascending: [1, 0]
    let mut raw = raw_config(
        vec![
            resource(0, PucchFormat::Format2 { num_rb: 2, num_sym: 2, start_sym: 0 }),
            resource(1, PucchFormat::Format2 { num_rb: 1, num_sym: 1, start_sym: 4 }),
        ],
        one_set(vec![0, 1]),
    );
    raw.pucch_format2.max_coderate_x100 = Some(80);
    raw.multi_csi_resource = Some(vec![0, 1]);
    let cfg = PucchConfig::resolve(&raw).unwrap();
    let multi = cfg.multi_csi_resource.unwrap();
    assert_eq!(multi[0].id, 1);
    assert_eq!(multi[1].id, 0);
    assert!(
        cfg.pucch_resource[multi[0].idx].max_hold_bits
            <= cfg.pucch_resource[multi[1].idx].max_hold_bits
    );
}

#[test]
fn sr_resource_is_resolved_against_pool() {
    let mut raw = raw_config(
        vec![
            resource(7, PucchFormat::Format0 { init_cyclic_shift: 0, num_sym: 1, start_sym: 0 }),
            resource(9, PucchFormat::Format0 { init_cyclic_shift: 0, num_sym: 1, start_sym: 2 }),
        ],
        one_set(vec![7]),
    );
    raw.sr_resource = Some(vec![SrResourceConfigR {
        sr_resource_id: 0,
        sr_id: 3,
        period_offset: SrPeriodOffset::SL8(1),
        pucch_resource_id: 9,
    }]);
    let cfg = PucchConfig::resolve(&raw).unwrap();
    let sr = cfg.sr_resource.unwrap();
    assert_eq!(sr[0].pucch_resource_id.id, 9);
    assert_eq!(sr[0].pucch_resource_id.idx, 1);

    let mut bad = raw_config(
        vec![resource(7, PucchFormat::Format0 { init_cyclic_shift: 0, num_sym: 1, start_sym: 0 })],
        one_set(vec![7]),
    );
    bad.sr_resource = Some(vec![SrResourceConfigR {
        sr_resource_id: 0,
        sr_id: 3,
        period_offset: SrPeriodOffset::SL8(1),
        pucch_resource_id: 9,
    }]);
    assert_eq!(PucchConfig::resolve(&bad), Err(Error::UnknownResourceId(9)));
}

#[test]
fn resolution_is_deterministic() {
    let raw = raw_config(
        vec![
            resource(0, PucchFormat::Format2 { num_rb: 2, num_sym: 2, start_sym: 0 }),
            resource(1, PucchFormat::Format3 { num_rb: 1, num_sym: 10, start_sym: 2 }),
        ],
        one_set(vec![0, 1]),
    );
    let c1 = PucchConfig::resolve(&raw).unwrap();
    let c2 = PucchConfig::resolve(&raw).unwrap();
    assert_eq!(c1, c2);
}

#[test]
fn example_config_references_a_missing_multi_csi_resource() {
    // the example configuration lists multi-CSI candidate 3, but its pool
    // only holds resources 0 and 1: resolution must fail fast
    let raw = PucchConfigR::default();
    assert_eq!(PucchConfig::resolve(&raw), Err(Error::UnknownResourceId(3)));
}
