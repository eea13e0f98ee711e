//! Tests of UCI resource-set selection and resource selection.

use pucch::{
    Error, IntraSlotFreqHopping, PucchConfig, PucchConfigR, PucchFormat, PucchFormatConfigR,
    PucchResourceId, PucchResourceR, PucchResourceSetR,
};

fn format_cfg() -> PucchFormatConfigR {
    PucchFormatConfigR {
        inter_slot_freq_hopping: false,
        addition_dmrs: false,
        max_coderate_x100: Some(8),
        num_slots: Some(1),
        pi2_bpsk: true,
        simul_harq_csi: true,
    }
}

/// Twelve Format-0 resources (ids 0..11); set 0 holds ten of them, sets 1-3
/// hold a few, all four bounds defaulted to [2, 1706, 1706, 1706].
fn selector_config() -> PucchConfig {
    let resources = (0..12)
        .map(|id| PucchResourceR {
            pucch_resource_id: id,
            start_prb: 0,
            intra_slot_freq_hopping: IntraSlotFreqHopping::NoHopping,
            format: PucchFormat::Format0 {
                init_cyclic_shift: 0,
                num_sym: 1,
                start_sym: (id % 14) as u32,
            },
        })
        .collect();
    let sets = vec![
        PucchResourceSetR {
            pucch_resource_set_id: 0,
            pucch_resource_id: (0..10).collect(),
            max_payload_minus_1: None,
        },
        PucchResourceSetR {
            pucch_resource_set_id: 1,
            pucch_resource_id: vec![4, 5, 6],
            max_payload_minus_1: None,
        },
        PucchResourceSetR {
            pucch_resource_set_id: 2,
            pucch_resource_id: vec![10],
            max_payload_minus_1: None,
        },
        PucchResourceSetR {
            pucch_resource_set_id: 3,
            pucch_resource_id: vec![11],
            max_payload_minus_1: None,
        },
    ];
    let raw = PucchConfigR {
        pucch_resource_set: Some(sets),
        pucch_resource: Some(resources),
        pucch_format1: format_cfg(),
        pucch_format2: format_cfg(),
        pucch_format3: format_cfg(),
        pucch_format4: format_cfg(),
        sr_resource: None,
        multi_csi_resource: None,
        dl_data_to_ul_ack: None,
    };
    PucchConfig::resolve(&raw).unwrap()
}

#[test]
fn small_payload_selects_first_set() {
    let cfg = selector_config();
    let set = cfg.pucch_resource_set_for_uci(1).unwrap();
    assert_eq!(set.pucch_resource_set_id, 0);
}

#[test]
fn larger_payload_selects_second_set() {
    let cfg = selector_config();
    let set = cfg.pucch_resource_set_for_uci(3).unwrap();
    assert_eq!(set.pucch_resource_set_id, 1);
}

#[test]
fn payload_beyond_all_bounds_is_an_error() {
    let cfg = selector_config();
    assert_eq!(
        cfg.pucch_resource_set_for_uci(2000).map(|_| ()),
        Err(Error::NoMatchingResourceSet)
    );
}

#[test]
fn small_set_uses_indicator_directly() {
    // set 1 (bound 1706) holds resources [4, 5, 6]: n <= 8, so the indicator
    // is the within-set index
    let cfg = selector_config();
    for pri in 0..3u32 {
        let res = cfg.pucch_resource_for_uci(3, pri, 17, 20).unwrap();
        assert_eq!(res.pucch_resource_id, 4 + pri);
    }
}

#[test]
fn indicator_beyond_small_set_is_inconsistent() {
    let cfg = selector_config();
    assert_eq!(
        cfg.pucch_resource_for_uci(3, 3, 17, 20).map(|_| ()),
        Err(Error::ConfigInconsistency)
    );
}

#[test]
fn large_set_spread_formula_zero_case() {
    // set 0 has n = 10 > 8: ceil(10, 8) = 2, r = 0 * 2 / 20 + 0 * 2 = 0,
    // pri 0 < 10 mod 8 = 2, so the within-set index is 0
    let cfg = selector_config();
    let res = cfg.pucch_resource_for_uci(1, 0, 0, 20).unwrap();
    assert_eq!(res.pucch_resource_id, 0);
}

#[test]
fn large_set_spread_formula_general_case() {
    // r = 10 * 2 / 20 + 1 * 2 = 3, pri 1 < 2, so the within-set index is 3
    let cfg = selector_config();
    let res = cfg.pucch_resource_for_uci(1, 1, 10, 20).unwrap();
    assert_eq!(res.pucch_resource_id, 3);

    // pri 2 >= 10 mod 8 = 2 adds the remainder: 0 * 2 / 20 + 2 * 2 + 2 = 6
    let res = cfg.pucch_resource_for_uci(1, 2, 0, 20).unwrap();
    assert_eq!(res.pucch_resource_id, 6);
}

#[test]
fn zero_cce_count_with_large_set_is_inconsistent() {
    let cfg = selector_config();
    assert_eq!(
        cfg.pucch_resource_for_uci(1, 0, 0, 0).map(|_| ()),
        Err(Error::ConfigInconsistency)
    );
}

#[test]
fn payload_equal_to_the_bound_still_fits() {
    // the first set's defaulted bound is 2: a 2-bit payload still selects it
    let cfg = selector_config();
    assert_eq!(cfg.pucch_resource_set_for_uci(2).unwrap().pucch_resource_set_id, 0);
}

#[test]
fn resource_lookup_by_id() {
    let cfg = selector_config();
    let rid = PucchResourceId::from_pucch_resource_id(&cfg.pucch_resource, 7).unwrap();
    assert_eq!(rid.id, 7);
    assert_eq!(rid.idx, 7);
    assert_eq!(rid.pucch_resource(&cfg).pucch_resource_id, 7);
    assert_eq!(
        PucchResourceId::pucch_resource_idx_cfg(&cfg.pucch_resource, 99),
        Err(Error::UnknownResourceId(99))
    );
}
