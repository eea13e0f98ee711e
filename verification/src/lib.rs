//! PUCCH resource configuration and per-slot multiplexing for a 5G NR
//! base-station stack (TS 38.213 section 9.2, TS 38.211 section 6.4.1.3).
//!
//! The crate resolves a raw RRC PUCCH configuration into an immutable,
//! validated runtime configuration with precomputed capacities, selects the
//! PUCCH resource that carries a given UCI payload, and reduces the set of
//! pending logical channels of a slot to the final transmissions.

mod channel;
mod constants;
mod err;
mod laws;
mod math;
mod optional;
mod pucch;
mod resolve;
mod rrc_pucch;

pub use channel::{
    csi_pucch_proc, harq_consolidation_proc, harq_csi_simul_proc, multi_csi_pucch_proc, pucch_proc,
    select_csi_pucch_proc, sr_pucch_proc, CsiReport, PucchChannelType, PucchChannelTypeView,
    PucchLogicChannel, PucchLogicChannelView, SrRequest,
};
pub use constants::{BPSK_BITS, NUM_SC_PER_RB, NUM_SYM_PER_SLOT, QPSK_BITS};
pub use err::Error;
pub use math::{ceil, floor, mask, swap_remove_multiple};
pub use optional::Optional;
pub use pucch::{
    PucchConfig, PucchFormatConfig, PucchFormatType, PucchFormatsConfig, PucchResource,
    PucchResourceId, PucchResourceSet, SrResourceConfig,
};
pub use laws::{
    lemma_dmrs_positions_total, lemma_format01_capacity, lemma_resolve_preserves_explicit_bound,
    lemma_resource_for_uci_direct, lemma_sets_preserve_explicit_bound,
    lemma_sr_prune_keeps_positive, lemma_sr_prune_removes_isolated_negative,
};
pub use resolve::{lemma_resolve_deterministic, PucchConfigView, PucchResourceSetView};
pub use rrc_pucch::{
    IntraSlotFreqHopping, PucchConfigCommonR, PucchConfigR, PucchFormat, PucchFormatConfigR,
    PucchGroupSeqHopping, PucchResourceR, PucchResourceSetR, SrPeriodOffset, SrResourceConfigR,
};
