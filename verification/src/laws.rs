//! Properties of the library stated and proved once, beyond the contracts of
//! the individual functions.

use crate::channel::{
    overlaps_harq_csi, spec_sr_kept, spec_sr_prune, sr_negative, PucchChannelTypeView,
    PucchLogicChannelView,
};
use crate::pucch::{
    dmrs_positions, first_set_for_uci, spec_idx_in_set, spec_resource_for_uci, PucchConfig,
    PucchResource,
};
use crate::resolve::{
    spec_default_payload, spec_resolve, spec_resolve_set, spec_resolve_sets, PucchConfigView,
    PucchResourceSetView,
};
use crate::rrc_pucch::{PucchConfigR, PucchResourceSetR};
use vstd::prelude::*;

verus! {

/// Every resolved Format-0 or Format-1 resource reports a maximum holdable
/// payload of exactly two bits, whatever the per-format configurations say.
pub proof fn lemma_format01_capacity(cfg: PucchConfig, i: int)
    requires
        cfg.wf(),
        0 <= i < cfg.pucch_resource@.len(),
        cfg.pucch_resource@[i].format is Format0 || cfg.pucch_resource@[i].format is Format1,
    ensures
        cfg.pucch_resource@[i].max_hold_bits == 2,
{
    assert(cfg.pucch_resource@[i].wf(cfg.pucch_formats));
}

/// The DMRS position lookup is total on occupied symbol counts 4 to 14: four
/// symbols yield {0, 2} with intra-slot hopping and {1} without, and counts
/// 5 to 14 yield the two fixed ten-entry tables, selected by the
/// additional-DMRS flag.
pub proof fn lemma_dmrs_positions_total(hopping: bool, addition_dmrs: bool)
    ensures
        dmrs_positions(4, true, addition_dmrs) == seq![0u32, 2u32],
        dmrs_positions(4, false, addition_dmrs) == seq![1u32],
        dmrs_positions(5, hopping, false) == seq![0u32, 3u32],
        dmrs_positions(6, hopping, false) == seq![1u32, 4u32],
        dmrs_positions(7, hopping, false) == seq![1u32, 4u32],
        dmrs_positions(8, hopping, false) == seq![1u32, 5u32],
        dmrs_positions(9, hopping, false) == seq![1u32, 6u32],
        dmrs_positions(10, hopping, false) == seq![2u32, 7u32],
        dmrs_positions(11, hopping, false) == seq![2u32, 7u32],
        dmrs_positions(12, hopping, false) == seq![2u32, 8u32],
        dmrs_positions(13, hopping, false) == seq![2u32, 9u32],
        dmrs_positions(14, hopping, false) == seq![3u32, 10u32],
        dmrs_positions(5, hopping, true) == seq![0u32, 3u32],
        dmrs_positions(6, hopping, true) == seq![1u32, 4u32],
        dmrs_positions(7, hopping, true) == seq![1u32, 4u32],
        dmrs_positions(8, hopping, true) == seq![1u32, 5u32],
        dmrs_positions(9, hopping, true) == seq![1u32, 6u32],
        dmrs_positions(10, hopping, true) == seq![1u32, 3u32, 6u32, 8u32],
        dmrs_positions(11, hopping, true) == seq![1u32, 3u32, 6u32, 9u32],
        dmrs_positions(12, hopping, true) == seq![1u32, 4u32, 7u32, 10u32],
        dmrs_positions(13, hopping, true) == seq![1u32, 4u32, 7u32, 11u32],
        dmrs_positions(14, hopping, true) == seq![1u32, 5u32, 8u32, 12u32],
        forall|num_sym: u32|
            4 <= num_sym <= 14 ==> 1 <= #[trigger] dmrs_positions(
                num_sym,
                hopping,
                addition_dmrs,
            ).len() <= 4 && dmrs_positions(num_sym, hopping, addition_dmrs).len() < num_sym,
{
}

/// When the owning resource set holds at most eight resources, the PUCCH
/// resource indicator selects the within-set position directly: the selected
/// resource is `resources[pri]` for every valid `pri`, whatever the DCI CCE
/// fields are.
pub proof fn lemma_resource_for_uci_direct(
    cfg: PucchConfig,
    o_uci: u32,
    pri: u32,
    dci_first_cce: u32,
    num_cce: u32,
)
    requires
        cfg.wf(),
        first_set_for_uci(cfg.pucch_resource_set@, o_uci) matches Some(si) && {
            let set = cfg.pucch_resource_set@[si];
            set.pucch_resource_id@.len() <= 8 && pri < set.pucch_resource_id@.len()
        },
    ensures
        ({
            let si = first_set_for_uci(cfg.pucch_resource_set@, o_uci)->Some_0;
            let set = cfg.pucch_resource_set@[si];
            spec_resource_for_uci(cfg, o_uci, pri, dci_first_cce, num_cce) == Ok::<
                PucchResource,
                crate::err::Error,
            >(cfg.pucch_resource@[set.pucch_resource_id@[pri as int].idx as int])
        }),
{
    let si = first_set_for_uci(cfg.pucch_resource_set@, o_uci)->Some_0;
    let set = cfg.pucch_resource_set@[si];
    assert(spec_idx_in_set(set, pri, dci_first_cce, num_cce) == pri as int);
}

/// SR pruning never removes a positive scheduling request: every positive SR
/// channel of the input is still present in the output.
pub proof fn lemma_sr_prune_keeps_positive(
    cfg: PucchConfig,
    s: Seq<PucchLogicChannelView>,
    i: int,
)
    requires
        0 <= i < s.len(),
        s[i].channel_type matches PucchChannelTypeView::Sr(r) && r.positive,
    ensures
        spec_sr_prune(cfg, s).contains(s[i]),
{
    lemma_sr_kept_contains(cfg, s, s.len() as int, i);
}

/// A channel that the pruning predicate keeps is contained in the kept
/// prefix once the prefix covers it.
proof fn lemma_sr_kept_contains(cfg: PucchConfig, s: Seq<PucchLogicChannelView>, k: int, i: int)
    requires
        0 <= i < k <= s.len(),
        !(sr_negative(s[i]) && !overlaps_harq_csi(cfg, s, s[i])),
    ensures
        spec_sr_kept(cfg, s, k).contains(s[i]),
    decreases k,
{
    if k - 1 > i {
        lemma_sr_kept_contains(cfg, s, k - 1, i);
        let rest = spec_sr_kept(cfg, s, k - 1);
        let w = choose|w: int| 0 <= w < rest.len() && rest[w] == s[i];
        if !(sr_negative(s[k - 1]) && !overlaps_harq_csi(cfg, s, s[k - 1])) {
            assert(rest.push(s[k - 1])[w] == s[i]);
        }
    } else {
        let rest = spec_sr_kept(cfg, s, k - 1);
        assert(rest.push(s[i])[rest.len() as int] == s[i]);
    }
}

/// SR pruning removes every negative scheduling request whose resource
/// overlaps no HARQ/CSI channel: no channel of that value survives.
pub proof fn lemma_sr_prune_removes_isolated_negative(
    cfg: PucchConfig,
    s: Seq<PucchLogicChannelView>,
    c: PucchLogicChannelView,
)
    requires
        sr_negative(c),
        !overlaps_harq_csi(cfg, s, c),
    ensures
        !spec_sr_prune(cfg, s).contains(c),
{
    lemma_sr_kept_drops(cfg, s, s.len() as int, c);
}

/// A channel that the pruning predicate drops appears in no kept prefix.
proof fn lemma_sr_kept_drops(
    cfg: PucchConfig,
    s: Seq<PucchLogicChannelView>,
    k: int,
    c: PucchLogicChannelView,
)
    requires
        k <= s.len(),
        sr_negative(c),
        !overlaps_harq_csi(cfg, s, c),
    ensures
        !spec_sr_kept(cfg, s, k).contains(c),
    decreases k,
{
    if k > 0 {
        lemma_sr_kept_drops(cfg, s, k - 1, c);
        let rest = spec_sr_kept(cfg, s, k - 1);
        if !(sr_negative(s[k - 1]) && !overlaps_harq_csi(cfg, s, s[k - 1])) {
            assert(s[k - 1] != c);
            let pushed = rest.push(s[k - 1]);
            if pushed.contains(c) {
                let w = choose|w: int| 0 <= w < pushed.len() && pushed[w] == c;
                if w < rest.len() {
                    assert(rest[w] == c);
                    assert(rest.contains(c));
                }
                assert(false);
            }
        }
    }
}

/// Resolution keeps one resolved set per raw set.
proof fn lemma_resolve_sets_len(pool: Seq<PucchResource>, raws: Seq<PucchResourceSetR>)
    requires
        spec_resolve_sets(pool, raws) is Ok,
    ensures
        spec_resolve_sets(pool, raws)->Ok_0.len() == raws.len(),
    decreases raws.len(),
{
    if raws.len() > 0 {
        lemma_resolve_sets_len(pool, raws.drop_last());
    }
}

/// An explicit maximum payload bound of a raw resource set is preserved
/// verbatim in the resolved set; the per-position default applies only when
/// the bound is absent.
pub proof fn lemma_sets_preserve_explicit_bound(
    pool: Seq<PucchResource>,
    raws: Seq<PucchResourceSetR>,
    sets: Seq<PucchResourceSetView>,
    i: int,
)
    requires
        spec_resolve_sets(pool, raws) == Ok::<Seq<PucchResourceSetView>, crate::err::Error>(sets),
        0 <= i < raws.len(),
    ensures
        sets.len() == raws.len(),
        raws[i].max_payload_minus_1 matches Some(v) ==> sets[i].max_payload_minus_1 == v,
        raws[i].max_payload_minus_1 is None ==> (spec_default_payload(i) matches Some(d)
            && sets[i].max_payload_minus_1 == d),
    decreases raws.len(),
{
    let prev = spec_resolve_sets(pool, raws.drop_last());
    assert(prev is Ok);
    lemma_resolve_sets_len(pool, raws.drop_last());
    let s = prev->Ok_0;
    assert(s.len() == raws.len() - 1);
    let last = spec_resolve_set(pool, raws.last(), raws.len() - 1);
    assert(last is Ok);
    assert(sets == s.push(last->Ok_0));
    assert(sets.drop_last() =~= s);
    assert(sets.last() == last->Ok_0);
    if i < raws.len() - 1 {
        lemma_sets_preserve_explicit_bound(pool, raws.drop_last(), s, i);
        assert(raws.drop_last()[i] == raws[i]);
        assert(sets[i] == s[i]);
    } else {
        assert(sets[i] == last->Ok_0);
    }
}

/// An explicit maximum payload bound in the raw configuration is preserved
/// verbatim by resolution; defaults apply only to absent bounds.
pub proof fn lemma_resolve_preserves_explicit_bound(raw: PucchConfigR, cfg: PucchConfigView, i: int)
    requires
        spec_resolve(raw) == Ok::<PucchConfigView, crate::err::Error>(cfg),
        raw.pucch_resource_set matches Some(rs) && 0 <= i < rs@.len(),
    ensures
        ({
            let rs = raw.pucch_resource_set->Some_0;
            &&& cfg.pucch_resource_set.len() == rs@.len()
            &&& (rs@[i].max_payload_minus_1 matches Some(v)
                ==> cfg.pucch_resource_set[i].max_payload_minus_1 == v)
            &&& (rs@[i].max_payload_minus_1 is None ==> (spec_default_payload(i) matches Some(d)
                && cfg.pucch_resource_set[i].max_payload_minus_1 == d))
        }),
{
    let rs = raw.pucch_resource_set->Some_0;
    lemma_sets_preserve_explicit_bound(cfg.pucch_resource, rs@, cfg.pucch_resource_set, i);
}

} // verus!
