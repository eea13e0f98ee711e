//! Tests of the integer helpers, the occupancy bitmaps and the optional
//! configuration value.

use pucch::{
    ceil, floor, mask, swap_remove_multiple, CsiReport, IntraSlotFreqHopping, Optional,
    PucchChannelType, PucchFormat, PucchFormatType, PucchResource, SrRequest,
};

#[test]
fn floor_and_ceil_division() {
    assert_eq!(floor(7, 2), 3);
    assert_eq!(floor(8, 2), 4);
    assert_eq!(ceil(10, 8), 2);
    assert_eq!(ceil(16, 8), 2);
    assert_eq!(ceil(17, 8), 3);
    assert_eq!(ceil(0, 8), 0);
}

#[test]
fn mask_sets_the_requested_bits() {
    assert_eq!(mask(2, 3), 0b11100);
    assert_eq!(mask(0, 14), 0x3FFF);
    assert_eq!(mask(13, 1), 1 << 13);
    assert_eq!(mask(0, 0), 0);
}

#[test]
fn swap_remove_multiple_removes_the_indexed_elements() {
    let mut v = vec![10, 20, 30, 40, 50];
    swap_remove_multiple(&mut v, vec![1, 3]);
    assert_eq!(v.len(), 3);
    v.sort();
    assert_eq!(v, vec![10, 30, 50]);
}

#[test]
fn swap_remove_multiple_with_unsorted_indices() {
    let mut v = vec![0, 1, 2, 3, 4, 5];
    swap_remove_multiple(&mut v, vec![4, 0, 2]);
    assert_eq!(v.len(), 3);
    v.sort();
    assert_eq!(v, vec![1, 3, 5]);
}

#[test]
fn swap_remove_multiple_can_empty_the_vector() {
    let mut v = vec![7, 8];
    swap_remove_multiple(&mut v, vec![1, 0]);
    assert!(v.is_empty());
}

#[test]
fn optional_check_accepts_a_listed_value() {
    let opt = Optional::new(4u32).possible(vec![1, 2, 4, 8]);
    assert!(opt.check().is_ok());
}

#[test]
fn optional_check_rejects_an_unlisted_value() {
    let opt = Optional::new(3u32).possible(vec![1, 2, 4, 8]);
    assert!(opt.check().is_err());
}

#[test]
fn optional_check_passes_without_a_candidate_set() {
    let opt = Optional::new(3u32).default(1);
    assert!(opt.check().is_ok());
}

#[test]
fn channel_type_predicates() {
    let csi = PucchChannelType::Csi(CsiReport { priority: 0, o_csi: 1, o_csi_1: 1, o_csi_2: None });
    let sr = PucchChannelType::Sr(SrRequest { positive: true, sr_id: 0 });
    assert!(csi.is_csi() && csi.has_csi() && !csi.is_multi() && !csi.has_harq() && !csi.has_sr());
    assert!(sr.is_sr() && sr.has_sr() && !sr.is_multi() && !sr.has_csi());
    assert!(PucchChannelType::HarqDci.is_harq() && PucchChannelType::HarqDci.has_harq());
    assert!(PucchChannelType::HarqSps.is_harq());
    assert!(PucchChannelType::HarqCsiSrMulti.is_multi());
    assert!(PucchChannelType::HarqCsiSrMulti.has_harq());
    assert!(PucchChannelType::HarqCsiSrMulti.has_csi());
    assert!(PucchChannelType::HarqCsiSrMulti.has_sr());
    assert!(PucchChannelType::CsiMulti(vec![]).is_multi());
    assert!(PucchChannelType::CsiMulti(vec![]).has_csi());
    assert!(!PucchChannelType::CsiMulti(vec![]).is_csi());
}

#[test]
fn resource_occupancy_and_overlap() {
    let res = |start_sym: u32, num_sym: u32| PucchResource {
        pucch_resource_id: 0,
        start_prb: 0,
        intra_slot_freq_hopping: IntraSlotFreqHopping::NoHopping,
        format: PucchFormat::Format2 { num_rb: 1, num_sym, start_sym },
        format_type: PucchFormatType::ShortPucch,
        max_hold_bits: 0,
    };
    assert_eq!(res(2, 3).occupied_sym(), (2, 3));
    assert_eq!(res(2, 3).sym_bitmap(), 0b11100);
    assert!(res(2, 3).is_overlap(&res(4, 2)));
    assert!(!res(2, 3).is_overlap(&res(5, 2)));
}
