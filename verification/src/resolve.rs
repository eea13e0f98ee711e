//! One-time resolution of a raw RRC configuration into the validated,
//! immutable runtime configuration: fail-fast and all-or-nothing, with every
//! derived capacity and every resource index precomputed.

use crate::err::Error;
use crate::pucch::{
    spec_format_type, spec_is_hopping, spec_max_hold_bits, wf_format, wf_format_config,
    wf_formats_config, PucchConfig, PucchFormatConfig, PucchFormatsConfig, PucchResource,
    PucchResourceId, PucchResourceSet, SrResourceConfig,
};
use crate::rrc_pucch::{
    PucchConfigR, PucchFormat, PucchFormatConfigR, PucchResourceR, PucchResourceSetR,
    SrResourceConfigR,
};
use vstd::prelude::*;

verus! {

/// The mathematical value of a resolved configuration: every vector replaced
/// by a sequence.
#[verifier::ext_equal]
pub ghost struct PucchConfigView {
    pub pucch_resource_set: Seq<PucchResourceSetView>,
    pub pucch_resource: Seq<PucchResource>,
    pub pucch_formats: PucchFormatsConfig,
    pub sr_resource: Option<Seq<SrResourceConfig>>,
    pub multi_csi_resource: Option<Seq<PucchResourceId>>,
    pub dl_data_to_ul_ack: Option<Seq<u32>>,
}

/// The mathematical value of one resolved resource set.
#[verifier::ext_equal]
pub ghost struct PucchResourceSetView {
    pub pucch_resource_set_id: u32,
    pub pucch_resource_id: Seq<PucchResourceId>,
    pub max_payload_minus_1: u32,
}

impl View for PucchResourceSet {
    type V = PucchResourceSetView;

    open spec fn view(&self) -> PucchResourceSetView {
        PucchResourceSetView {
            pucch_resource_set_id: self.pucch_resource_set_id,
            pucch_resource_id: self.pucch_resource_id@,
            max_payload_minus_1: self.max_payload_minus_1,
        }
    }
}

/// The sequence view of an optional vector.
pub open spec fn opt_view<T>(o: Option<Vec<T>>) -> Option<Seq<T>> {
    match o {
        Some(v) => Some(v@),
        None => None,
    }
}

impl View for PucchConfig {
    type V = PucchConfigView;

    open spec fn view(&self) -> PucchConfigView {
        PucchConfigView {
            pucch_resource_set: self.pucch_resource_set@.map_values(|s: PucchResourceSet| s@),
            pucch_resource: self.pucch_resource@,
            pucch_formats: self.pucch_formats,
            sr_resource: opt_view(self.sr_resource),
            multi_csi_resource: opt_view(self.multi_csi_resource),
            dl_data_to_ul_ack: opt_view(self.dl_data_to_ul_ack),
        }
    }
}

/// What resolving one raw per-format configuration yields: the maximum code
/// rate must be present and drawn from its candidate set (an absent rate is
/// reported as the invalid value zero), the slot-aggregation count defaults
/// to one and must be drawn from its candidate set.
pub open spec fn spec_resolve_format_config(raw: PucchFormatConfigR) -> Result<
    PucchFormatConfig,
    Error,
> {
    let c = match raw.max_coderate_x100 {
        Some(v) => v,
        None => 0u32,
    };
    let ns = match raw.num_slots {
        Some(v) => v,
        None => 1u32,
    };
    if !(c == 8 || c == 15 || c == 25 || c == 35 || c == 45 || c == 60 || c == 80) {
        Err(Error::InvalidParameter(c))
    } else if !(ns == 1 || ns == 2 || ns == 4 || ns == 8) {
        Err(Error::InvalidParameter(ns))
    } else {
        Ok(
            PucchFormatConfig {
                inter_slot_freq_hopping: raw.inter_slot_freq_hopping,
                addition_dmrs: raw.addition_dmrs,
                max_coderate_x100: c,
                num_slots: ns,
                pi2_bpsk: raw.pi2_bpsk,
                simul_harq_csi: raw.simul_harq_csi,
            },
        )
    }
}

/// What resolving one raw resource yields: a resource with its format
/// classification and its maximum holdable payload precomputed, or
/// `InvalidParameter` naming the resource id when the numerology is invalid.
pub open spec fn spec_resolve_resource(raw: PucchResourceR, formats: PucchFormatsConfig) -> Result<
    PucchResource,
    Error,
> {
    if wf_format(raw.format) {
        Ok(
            PucchResource {
                pucch_resource_id: raw.pucch_resource_id,
                start_prb: raw.start_prb,
                intra_slot_freq_hopping: raw.intra_slot_freq_hopping,
                format: raw.format,
                format_type: spec_format_type(raw.format),
                max_hold_bits: spec_max_hold_bits(
                    raw.format,
                    spec_is_hopping(raw.intra_slot_freq_hopping),
                    formats,
                ) as u32,
            },
        )
    } else {
        Err(Error::InvalidParameter(raw.pucch_resource_id))
    }
}

/// Resolves a list of raw resources in configured order, failing on the
/// first invalid one.
pub open spec fn spec_resolve_resources(
    raws: Seq<PucchResourceR>,
    formats: PucchFormatsConfig,
) -> Result<Seq<PucchResource>, Error>
    decreases raws.len(),
{
    if raws.len() == 0 {
        Ok(Seq::empty())
    } else {
        match spec_resolve_resources(raws.drop_last(), formats) {
            Err(e) => Err(e),
            Ok(s) => match spec_resolve_resource(raws.last(), formats) {
                Err(e) => Err(e),
                Ok(r) => Ok(s.push(r)),
            },
        }
    }
}

/// An error in a prefix of the raw resource list decides the whole list.
pub proof fn lemma_resolve_resources_extend_err(
    raws: Seq<PucchResourceR>,
    formats: PucchFormatsConfig,
    k: int,
)
    requires
        0 <= k <= raws.len(),
        spec_resolve_resources(raws.take(k), formats) is Err,
    ensures
        spec_resolve_resources(raws, formats) == spec_resolve_resources(raws.take(k), formats),
    decreases raws.len(),
{
    if raws.len() > k {
        assert(raws.drop_last().take(k) =~= raws.take(k));
        lemma_resolve_resources_extend_err(raws.drop_last(), formats, k);
    } else {
        assert(raws.take(k) =~= raws);
    }
}

/// The position of the resource with a given id in the resource table, or
/// `None` when the id is not in the pool.
pub open spec fn spec_find_resource_idx(pool: Seq<PucchResource>, id: u32) -> Option<int>
    decreases pool.len(),
{
    if pool.len() == 0 {
        None
    } else if pool[0].pucch_resource_id == id {
        Some(0int)
    } else {
        match spec_find_resource_idx(pool.drop_first(), id) {
            Some(i) => Some(i + 1),
            None => None,
        }
    }
}

/// `spec_find_resource_idx` returns exactly the first position holding the
/// id, and `None` exactly when no position holds it.
pub proof fn lemma_find_resource_idx(pool: Seq<PucchResource>, id: u32)
    ensures
        match spec_find_resource_idx(pool, id) {
            Some(i) => 0 <= i < pool.len() && pool[i].pucch_resource_id == id && (forall|j: int|
                0 <= j < i ==> pool[j].pucch_resource_id != id),
            None => forall|j: int| 0 <= j < pool.len() ==> pool[j].pucch_resource_id != id,
        },
    decreases pool.len(),
{
    if pool.len() > 0 && pool[0].pucch_resource_id != id {
        let rest = pool.drop_first();
        lemma_find_resource_idx(rest, id);
        match spec_find_resource_idx(rest, id) {
            Some(i) => {
                assert(pool[i + 1] == rest[i]);
                assert forall|j: int| 0 <= j < i + 1 implies pool[j].pucch_resource_id != id by {
                    if j >= 1 {
                        assert(pool[j] == rest[j - 1]);
                    }
                }
            },
            None => {
                assert forall|j: int| 0 <= j < pool.len() implies pool[j].pucch_resource_id
                    != id by {
                    if j >= 1 {
                        assert(pool[j] == rest[j - 1]);
                    }
                }
            },
        }
    }
}

/// What resolving one resource reference yields: the id paired with its
/// table position, or `UnknownResourceId` when the pool has no such id.
pub open spec fn spec_resource_id_of(pool: Seq<PucchResource>, id: u32) -> Result<
    PucchResourceId,
    Error,
> {
    match spec_find_resource_idx(pool, id) {
        Some(i) => Ok(PucchResourceId { id, idx: i as usize }),
        None => Err(Error::UnknownResourceId(id)),
    }
}

impl PucchResourceId {
    /// The table position of the resource with the given id, failing with
    /// `UnknownResourceId` when the pool does not contain it.
    pub fn pucch_resource_idx_cfg(pucch_resource: &Vec<PucchResource>, resource_id: u32) -> (r:
        Result<usize, Error>)
        ensures
            match r {
                Ok(i) => spec_find_resource_idx(pucch_resource@, resource_id) == Some(i as int),
                Err(e) => e == Error::UnknownResourceId(resource_id) && spec_find_resource_idx(
                    pucch_resource@,
                    resource_id,
                ) is None,
            },
    {
        proof {
            lemma_find_resource_idx(pucch_resource@, resource_id);
        }
        let n = pucch_resource.len();
        let mut i: usize = 0;
        while i < n
            invariant
                n == pucch_resource@.len(),
                0 <= i <= n,
                forall|j: int| 0 <= j < i ==> pucch_resource@[j].pucch_resource_id != resource_id,
            decreases n - i,
        {
            if pucch_resource[i].pucch_resource_id == resource_id {
                proof {
                    lemma_find_resource_idx(pucch_resource@, resource_id);
                    let fi = spec_find_resource_idx(pucch_resource@, resource_id);
                    assert(fi matches Some(k) && k == i) by {
                        if fi is None {
                            assert(pucch_resource@[i as int].pucch_resource_id == resource_id);
                        } else {
                            let k = fi->Some_0;
                            if k < i {
                                assert(pucch_resource@[k].pucch_resource_id == resource_id);
                            }
                        }
                    }
                }
                return Ok(i);
            }
            i = i + 1;
        }
        Err(Error::UnknownResourceId(resource_id))
    }

    /// Resolves a configured resource id into an indexed reference.
    pub fn from_pucch_resource_id(pucch_resource: &Vec<PucchResource>, resource_id: u32) -> (r:
        Result<PucchResourceId, Error>)
        ensures
            r == spec_resource_id_of(pucch_resource@, resource_id),
            r matches Ok(rid) ==> rid.idx < pucch_resource@.len(),
    {
        proof {
            lemma_find_resource_idx(pucch_resource@, resource_id);
        }
        match PucchResourceId::pucch_resource_idx_cfg(pucch_resource, resource_id) {
            Ok(idx) => Ok(PucchResourceId { id: resource_id, idx }),
            Err(e) => Err(e),
        }
    }

    /// The resource this reference points at.
    pub fn pucch_resource<'a>(&self, pucch_config: &'a PucchConfig) -> (r: &'a PucchResource)
        requires
            self.idx < pucch_config.pucch_resource@.len(),
        ensures
            *r == pucch_config.pucch_resource@[self.idx as int],
    {
        &pucch_config.pucch_resource[self.idx]
    }
}

impl PucchFormatConfig {
    /// Resolves one raw per-format configuration, substituting the default
    /// slot-aggregation count and validating both candidate sets.
    pub fn resolve(raw: &PucchFormatConfigR) -> (r: Result<PucchFormatConfig, Error>)
        ensures
            r == spec_resolve_format_config(*raw),
            r matches Ok(c) ==> wf_format_config(c),
    {
        let c = match raw.max_coderate_x100 {
            Some(v) => v,
            None => 0,
        };
        let ns = match raw.num_slots {
            Some(v) => v,
            None => 1,
        };
        if !(c == 8 || c == 15 || c == 25 || c == 35 || c == 45 || c == 60 || c == 80) {
            Err(Error::InvalidParameter(c))
        } else if !(ns == 1 || ns == 2 || ns == 4 || ns == 8) {
            Err(Error::InvalidParameter(ns))
        } else {
            Ok(
                PucchFormatConfig {
                    inter_slot_freq_hopping: raw.inter_slot_freq_hopping,
                    addition_dmrs: raw.addition_dmrs,
                    max_coderate_x100: c,
                    num_slots: ns,
                    pi2_bpsk: raw.pi2_bpsk,
                    simul_harq_csi: raw.simul_harq_csi,
                },
            )
        }
    }
}

/// Whether a raw format variant has valid numerology (see [`wf_format`]).
fn format_numerology_ok(f: &PucchFormat) -> (ok: bool)
    ensures
        ok == wf_format(*f),
{
    let (start_sym, num_sym) = match f {
        PucchFormat::Format0 { num_sym, start_sym, .. } => (*start_sym, *num_sym),
        PucchFormat::Format1 { num_sym, start_sym, .. } => (*start_sym, *num_sym),
        PucchFormat::Format2 { num_sym, start_sym, .. } => (*start_sym, *num_sym),
        PucchFormat::Format3 { num_sym, start_sym, .. } => (*start_sym, *num_sym),
        PucchFormat::Format4 { num_sym, start_sym, .. } => (*start_sym, *num_sym),
    };
    let base = num_sym >= 1 && (start_sym as u64) + (num_sym as u64) <= 14;
    match f {
        PucchFormat::Format2 { num_rb, .. } => base && 1 <= *num_rb && *num_rb <= 16,
        PucchFormat::Format3 { num_rb, num_sym, .. } => base && *num_sym >= 4 && 1 <= *num_rb
            && *num_rb <= 16,
        PucchFormat::Format4 { num_sym, occ_len, .. } => base && *num_sym >= 4 && (*occ_len == 2
            || *occ_len == 4),
        _ => base,
    }
}

/// Resolves the raw resource list into the resource table, in configured
/// order, failing on the first resource with invalid numerology.
fn resolve_resources(raw: &Vec<PucchResourceR>, formats: &PucchFormatsConfig) -> (r: Result<
    Vec<PucchResource>,
    Error,
>)
    requires
        wf_formats_config(*formats),
    ensures
        match r {
            Ok(v) => spec_resolve_resources(raw@, *formats) == Ok::<Seq<PucchResource>, Error>(v@)
                && v@.len() == raw@.len() && (forall|j: int|
                0 <= j < v@.len() ==> (#[trigger] v@[j]).wf(*formats)),
            Err(e) => spec_resolve_resources(raw@, *formats) == Err::<Seq<PucchResource>, Error>(
                e,
            ),
        },
{
    let n = raw.len();
    let mut out: Vec<PucchResource> = Vec::new();
    let mut i: usize = 0;
    while i < n
        invariant
            n == raw@.len(),
            0 <= i <= n,
            wf_formats_config(*formats),
            spec_resolve_resources(raw@.take(i as int), *formats) == Ok::<
                Seq<PucchResource>,
                Error,
            >(out@),
            out@.len() == i,
            forall|j: int| 0 <= j < out@.len() ==> (#[trigger] out@[j]).wf(*formats),
        decreases n - i,
    {
        let rr = raw[i];
        proof {
            assert(raw@.take(i + 1).drop_last() =~= raw@.take(i as int));
            assert(raw@.take(i + 1).last() == raw@[i as int]);
        }
        if !format_numerology_ok(&rr.format) {
            proof {
                lemma_resolve_resources_extend_err(raw@, *formats, i + 1);
            }
            return Err(Error::InvalidParameter(rr.pucch_resource_id));
        }
        let temp = PucchResource {
            pucch_resource_id: rr.pucch_resource_id,
            start_prb: rr.start_prb,
            intra_slot_freq_hopping: rr.intra_slot_freq_hopping,
            format: rr.format,
            format_type: PucchResource::pucch_format_type(&rr.format),
            max_hold_bits: 0,
        };
        let bits = temp.max_hold_bits(formats);
        let res = PucchResource { max_hold_bits: bits, ..temp };
        out.push(res);
        i = i + 1;
    }
    proof {
        assert(raw@.take(n as int) =~= raw@);
    }
    Ok(out)
}

/// Resolves a list of configured resource ids into indexed references, in
/// order, failing on the first id missing from the pool.
pub open spec fn spec_resolve_set_ids(pool: Seq<PucchResource>, ids: Seq<u32>) -> Result<
    Seq<PucchResourceId>,
    Error,
>
    decreases ids.len(),
{
    if ids.len() == 0 {
        Ok(Seq::empty())
    } else {
        match spec_resolve_set_ids(pool, ids.drop_last()) {
            Err(e) => Err(e),
            Ok(s) => match spec_resource_id_of(pool, ids.last()) {
                Err(e) => Err(e),
                Ok(r) => Ok(s.push(r)),
            },
        }
    }
}

/// An error in a prefix of an id list decides the whole list.
pub proof fn lemma_resolve_set_ids_extend_err(pool: Seq<PucchResource>, ids: Seq<u32>, k: int)
    requires
        0 <= k <= ids.len(),
        spec_resolve_set_ids(pool, ids.take(k)) is Err,
    ensures
        spec_resolve_set_ids(pool, ids) == spec_resolve_set_ids(pool, ids.take(k)),
    decreases ids.len(),
{
    if ids.len() > k {
        assert(ids.drop_last().take(k) =~= ids.take(k));
        lemma_resolve_set_ids_extend_err(pool, ids.drop_last(), k);
    } else {
        assert(ids.take(k) =~= ids);
    }
}

/// Resolves a list of configured resource ids into indexed references.
fn resolve_set_ids(pool: &Vec<PucchResource>, ids: &Vec<u32>) -> (r: Result<
    Vec<PucchResourceId>,
    Error,
>)
    ensures
        match r {
            Ok(v) => spec_resolve_set_ids(pool@, ids@) == Ok::<Seq<PucchResourceId>, Error>(v@)
                && v@.len() == ids@.len() && (forall|j: int|
                0 <= j < v@.len() ==> (#[trigger] v@[j]).idx < pool@.len()),
            Err(e) => spec_resolve_set_ids(pool@, ids@) == Err::<Seq<PucchResourceId>, Error>(e),
        },
{
    let n = ids.len();
    let mut out: Vec<PucchResourceId> = Vec::new();
    let mut i: usize = 0;
    while i < n
        invariant
            n == ids@.len(),
            0 <= i <= n,
            spec_resolve_set_ids(pool@, ids@.take(i as int)) == Ok::<Seq<PucchResourceId>, Error>(
                out@,
            ),
            out@.len() == i,
            forall|j: int| 0 <= j < out@.len() ==> (#[trigger] out@[j]).idx < pool@.len(),
        decreases n - i,
    {
        proof {
            assert(ids@.take(i + 1).drop_last() =~= ids@.take(i as int));
            assert(ids@.take(i + 1).last() == ids@[i as int]);
        }
        match PucchResourceId::from_pucch_resource_id(pool, ids[i]) {
            Ok(rid) => {
                out.push(rid);
            },
            Err(e) => {
                proof {
                    lemma_resolve_set_ids_extend_err(pool@, ids@, i + 1);
                }
                return Err(e);
            },
        }
        i = i + 1;
    }
    proof {
        assert(ids@.take(n as int) =~= ids@);
    }
    Ok(out)
}

/// The default maximum payload bound of the resource set at a 0-based
/// position in the raw list; a fifth or later set has no default.
pub open spec fn spec_default_payload(pos: int) -> Option<u32> {
    if pos == 0 {
        Some(2u32)
    } else if 1 <= pos < 4 {
        Some(1706u32)
    } else {
        None
    }
}

/// What resolving one raw resource set at a 0-based position yields: its id
/// must be one of the four the selection rules cover, its member count must
/// fit the 32-bit index arithmetic (both reported as `InvalidParameter`
/// naming the set id), every member id must resolve, and an absent payload
/// bound is substituted from the per-position defaults, a fifth or later set
/// having none.
pub open spec fn spec_resolve_set(
    pool: Seq<PucchResource>,
    raw: PucchResourceSetR,
    pos: int,
) -> Result<PucchResourceSetView, Error> {
    if raw.pucch_resource_set_id > 3 {
        Err(Error::InvalidParameter(raw.pucch_resource_set_id))
    } else if raw.pucch_resource_id@.len() > u32::MAX {
        Err(Error::InvalidParameter(raw.pucch_resource_set_id))
    } else {
        match spec_resolve_set_ids(pool, raw.pucch_resource_id@) {
            Err(e) => Err(e),
            Ok(ids) => {
                let bound = match raw.max_payload_minus_1 {
                    Some(v) => Some(v),
                    None => spec_default_payload(pos),
                };
                match bound {
                    Some(v) => Ok(
                        PucchResourceSetView {
                            pucch_resource_set_id: raw.pucch_resource_set_id,
                            pucch_resource_id: ids,
                            max_payload_minus_1: v,
                        },
                    ),
                    None => Err(Error::MissingRequiredField),
                }
            },
        }
    }
}

/// Resolves the raw resource sets in configured order, failing on the first
/// invalid one.
pub open spec fn spec_resolve_sets(pool: Seq<PucchResource>, raws: Seq<PucchResourceSetR>) -> Result<
    Seq<PucchResourceSetView>,
    Error,
>
    decreases raws.len(),
{
    if raws.len() == 0 {
        Ok(Seq::empty())
    } else {
        match spec_resolve_sets(pool, raws.drop_last()) {
            Err(e) => Err(e),
            Ok(s) => match spec_resolve_set(pool, raws.last(), raws.len() - 1) {
                Err(e) => Err(e),
                Ok(r) => Ok(s.push(r)),
            },
        }
    }
}

/// An error in a prefix of the raw set list decides the whole list.
pub proof fn lemma_resolve_sets_extend_err(
    pool: Seq<PucchResource>,
    raws: Seq<PucchResourceSetR>,
    k: int,
)
    requires
        0 <= k <= raws.len(),
        spec_resolve_sets(pool, raws.take(k)) is Err,
    ensures
        spec_resolve_sets(pool, raws) == spec_resolve_sets(pool, raws.take(k)),
    decreases raws.len(),
{
    if raws.len() > k {
        assert(raws.drop_last().take(k) =~= raws.take(k));
        lemma_resolve_sets_extend_err(pool, raws.drop_last(), k);
    } else {
        assert(raws.take(k) =~= raws);
    }
}

/// Resolves the raw resource sets into indexed sets with concrete payload
/// bounds.
fn resolve_sets(pool: &Vec<PucchResource>, raws: &Vec<PucchResourceSetR>) -> (r: Result<
    Vec<PucchResourceSet>,
    Error,
>)
    ensures
        match r {
            Ok(v) => spec_resolve_sets(pool@, raws@) == Ok::<Seq<PucchResourceSetView>, Error>(
                v@.map_values(|s: PucchResourceSet| s@),
            ) && (forall|j: int|
                0 <= j < v@.len() ==> (#[trigger] v@[j]).wf(pool@.len() as int)),
            Err(e) => spec_resolve_sets(pool@, raws@) == Err::<Seq<PucchResourceSetView>, Error>(
                e,
            ),
        },
{
    let n = raws.len();
    let mut out: Vec<PucchResourceSet> = Vec::new();
    proof {
        assert(out@.map_values(|s: PucchResourceSet| s@) =~= Seq::<PucchResourceSetView>::empty());
    }
    let mut i: usize = 0;
    while i < n
        invariant
            n == raws@.len(),
            0 <= i <= n,
            spec_resolve_sets(pool@, raws@.take(i as int)) == Ok::<
                Seq<PucchResourceSetView>,
                Error,
            >(out@.map_values(|s: PucchResourceSet| s@)),
            out@.len() == i,
            forall|j: int| 0 <= j < out@.len() ==> (#[trigger] out@[j]).wf(pool@.len() as int),
        decreases n - i,
    {
        proof {
            assert(raws@.take(i + 1).drop_last() =~= raws@.take(i as int));
            assert(raws@.take(i + 1).last() == raws@[i as int]);
        }
        let raw_set = &raws[i];
        if raw_set.pucch_resource_set_id > 3 {
            proof {
                lemma_resolve_sets_extend_err(pool@, raws@, i + 1);
            }
            return Err(Error::InvalidParameter(raw_set.pucch_resource_set_id));
        }
        if raw_set.pucch_resource_id.len() as u64 > u32::MAX as u64 {
            proof {
                lemma_resolve_sets_extend_err(pool@, raws@, i + 1);
            }
            return Err(Error::InvalidParameter(raw_set.pucch_resource_set_id));
        }
        let ids = match resolve_set_ids(pool, &raw_set.pucch_resource_id) {
            Ok(v) => v,
            Err(e) => {
                proof {
                    lemma_resolve_sets_extend_err(pool@, raws@, i + 1);
                }
                return Err(e);
            },
        };
        let bound = match raw_set.max_payload_minus_1 {
            Some(v) => v,
            None => {
                if i == 0 {
                    2
                } else if i < 4 {
                    1706
                } else {
                    proof {
                        lemma_resolve_sets_extend_err(pool@, raws@, i + 1);
                    }
                    return Err(Error::MissingRequiredField);
                }
            },
        };
        let set = PucchResourceSet {
            pucch_resource_set_id: raw_set.pucch_resource_set_id,
            pucch_resource_id: ids,
            max_payload_minus_1: bound,
        };
        proof {
            assert((out@.push(set)).map_values(|s: PucchResourceSet| s@) =~= out@.map_values(
                |s: PucchResourceSet| s@,
            ).push(set@));
        }
        out.push(set);
        i = i + 1;
    }
    proof {
        assert(raws@.take(n as int) =~= raws@);
    }
    Ok(out)
}

/// What resolving the multi-CSI candidate list yields: at most two ids
/// (`InvalidParameter` names the first id past the allowed two), each
/// resolved against the pool, then sorted ascending by maximum holdable
/// payload, candidates of equal capacity keeping their configured order.
pub open spec fn spec_resolve_multi_csi(pool: Seq<PucchResource>, m: Option<Seq<u32>>) -> Result<
    Option<Seq<PucchResourceId>>,
    Error,
> {
    match m {
        None => Ok(None),
        Some(ids) => {
            if ids.len() > 2 {
                Err(Error::InvalidParameter(ids[2]))
            } else {
                match spec_resolve_set_ids(pool, ids) {
                    Err(e) => Err(e),
                    Ok(rs) => {
                        if rs.len() == 2 && pool[rs[0].idx as int].max_hold_bits > pool[rs[1].idx
                            as int].max_hold_bits {
                            Ok(Some(seq![rs[1], rs[0]]))
                        } else {
                            Ok(Some(rs))
                        }
                    },
                }
            }
        },
    }
}

/// What resolving one raw SR resource yields: its PUCCH resource id resolved
/// against the pool, everything else carried over.
pub open spec fn spec_resolve_sr_entry(pool: Seq<PucchResource>, raw: SrResourceConfigR) -> Result<
    SrResourceConfig,
    Error,
> {
    match spec_resource_id_of(pool, raw.pucch_resource_id) {
        Err(e) => Err(e),
        Ok(rid) => Ok(
            SrResourceConfig {
                sr_resource_id: raw.sr_resource_id,
                sr_id: raw.sr_id,
                period_offset: raw.period_offset,
                pucch_resource_id: rid,
            },
        ),
    }
}

/// Resolves the raw SR resources in configured order, failing on the first
/// unknown PUCCH resource id.
pub open spec fn spec_resolve_sr_list(pool: Seq<PucchResource>, raws: Seq<SrResourceConfigR>) -> Result<
    Seq<SrResourceConfig>,
    Error,
>
    decreases raws.len(),
{
    if raws.len() == 0 {
        Ok(Seq::empty())
    } else {
        match spec_resolve_sr_list(pool, raws.drop_last()) {
            Err(e) => Err(e),
            Ok(s) => match spec_resolve_sr_entry(pool, raws.last()) {
                Err(e) => Err(e),
                Ok(r) => Ok(s.push(r)),
            },
        }
    }
}

/// An error in a prefix of the raw SR list decides the whole list.
pub proof fn lemma_resolve_sr_list_extend_err(
    pool: Seq<PucchResource>,
    raws: Seq<SrResourceConfigR>,
    k: int,
)
    requires
        0 <= k <= raws.len(),
        spec_resolve_sr_list(pool, raws.take(k)) is Err,
    ensures
        spec_resolve_sr_list(pool, raws) == spec_resolve_sr_list(pool, raws.take(k)),
    decreases raws.len(),
{
    if raws.len() > k {
        assert(raws.drop_last().take(k) =~= raws.take(k));
        lemma_resolve_sr_list_extend_err(pool, raws.drop_last(), k);
    } else {
        assert(raws.take(k) =~= raws);
    }
}

impl PucchConfig {
    /// Resolves the multi-CSI candidate list: at most two resource ids, each
    /// resolved to its pool position, sorted ascending by capacity.
    pub fn from_multi_csi_resource(
        pucch_resource: &Vec<PucchResource>,
        multi_csi_resource: &Option<Vec<u32>>,
    ) -> (r: Result<Option<Vec<PucchResourceId>>, Error>)
        ensures
            match r {
                Ok(m) => spec_resolve_multi_csi(pucch_resource@, opt_view(*multi_csi_resource))
                    == Ok::<Option<Seq<PucchResourceId>>, Error>(opt_view(m)) && (
                m matches Some(v) ==> {
                    &&& v@.len() <= 2
                    &&& (forall|j: int|
                        0 <= j < v@.len() ==> (#[trigger] v@[j]).idx < pucch_resource@.len())
                    &&& (forall|a: int, b: int|
                        0 <= a < b < v@.len() ==> pucch_resource@[v@[a].idx as int].max_hold_bits
                            <= pucch_resource@[v@[b].idx as int].max_hold_bits)
                }),
                Err(e) => spec_resolve_multi_csi(pucch_resource@, opt_view(*multi_csi_resource))
                    == Err::<Option<Seq<PucchResourceId>>, Error>(e),
            },
    {
        let ids = match multi_csi_resource {
            Some(ids) => ids,
            None => {
                return Ok(None);
            },
        };
        if ids.len() > 2 {
            return Err(Error::InvalidParameter(ids[2]));
        }
        let rs = match resolve_set_ids(pucch_resource, ids) {
            Ok(v) => v,
            Err(e) => {
                return Err(e);
            },
        };
        if rs.len() == 2 {
            let first = rs[0];
            let second = rs[1];
            if pucch_resource[first.idx].max_hold_bits > pucch_resource[second.idx].max_hold_bits {
                let mut swapped: Vec<PucchResourceId> = Vec::new();
                swapped.push(second);
                swapped.push(first);
                proof {
                    assert(swapped@ =~= seq![rs@[1], rs@[0]]);
                }
                return Ok(Some(swapped));
            }
        }
        Ok(Some(rs))
    }
}

/// Resolves the optional SR resource list against the pool.
fn resolve_sr(pool: &Vec<PucchResource>, raws: &Option<Vec<SrResourceConfigR>>) -> (r: Result<
    Option<Vec<SrResourceConfig>>,
    Error,
>)
    ensures
        match r {
            Ok(m) => (match opt_view(*raws) {
                None => m is None,
                Some(rl) => m matches Some(v) && spec_resolve_sr_list(pool@, rl) == Ok::<
                    Seq<SrResourceConfig>,
                    Error,
                >(v@) && (forall|j: int|
                    0 <= j < v@.len() ==> (#[trigger] v@[j]).pucch_resource_id.idx < pool@.len()),
            }),
            Err(e) => (match opt_view(*raws) {
                None => false,
                Some(rl) => spec_resolve_sr_list(pool@, rl) == Err::<Seq<SrResourceConfig>, Error>(
                    e,
                ),
            }),
        },
{
    let rl = match raws {
        Some(v) => v,
        None => {
            return Ok(None);
        },
    };
    let n = rl.len();
    let mut out: Vec<SrResourceConfig> = Vec::new();
    let mut i: usize = 0;
    while i < n
        invariant
            opt_view(*raws) == Some(rl@),
            n == rl@.len(),
            0 <= i <= n,
            spec_resolve_sr_list(pool@, rl@.take(i as int)) == Ok::<Seq<SrResourceConfig>, Error>(
                out@,
            ),
            out@.len() == i,
            forall|j: int|
                0 <= j < out@.len() ==> (#[trigger] out@[j]).pucch_resource_id.idx < pool@.len(),
        decreases n - i,
    {
        proof {
            assert(rl@.take(i + 1).drop_last() =~= rl@.take(i as int));
            assert(rl@.take(i + 1).last() == rl@[i as int]);
        }
        let raw_sr = &rl[i];
        match PucchResourceId::from_pucch_resource_id(pool, raw_sr.pucch_resource_id) {
            Ok(rid) => {
                out.push(
                    SrResourceConfig {
                        sr_resource_id: raw_sr.sr_resource_id,
                        sr_id: raw_sr.sr_id,
                        period_offset: raw_sr.period_offset,
                        pucch_resource_id: rid,
                    },
                );
            },
            Err(e) => {
                proof {
                    lemma_resolve_sr_list_extend_err(pool@, rl@, i + 1);
                }
                return Err(e);
            },
        }
        i = i + 1;
    }
    proof {
        assert(rl@.take(n as int) =~= rl@);
    }
    Ok(Some(out))
}

/// Copies a vector of plain integers.
fn clone_vec_u32(v: &Vec<u32>) -> (r: Vec<u32>)
    ensures
        r@ == v@,
{
    let n = v.len();
    let mut out: Vec<u32> = Vec::new();
    let mut i: usize = 0;
    while i < n
        invariant
            n == v@.len(),
            0 <= i <= n,
            out@ == v@.take(i as int),
        decreases n - i,
    {
        out.push(v[i]);
        proof {
            assert(v@.take(i + 1) =~= v@.take(i as int).push(v@[i as int]));
        }
        i = i + 1;
    }
    proof {
        assert(v@.take(n as int) =~= v@);
    }
    out
}

/// What resolving a whole raw configuration yields, fail-fast and
/// all-or-nothing: the four per-format configurations, then the resource
/// table (the list is required), then the resource sets (also required),
/// then the multi-CSI candidates, then the SR resources; the K1 set is
/// carried over verbatim.
pub open spec fn spec_resolve(raw: PucchConfigR) -> Result<PucchConfigView, Error> {
    match spec_resolve_format_config(raw.pucch_format1) {
        Err(e) => Err(e),
        Ok(f1) => match spec_resolve_format_config(raw.pucch_format2) {
            Err(e) => Err(e),
            Ok(f2) => match spec_resolve_format_config(raw.pucch_format3) {
                Err(e) => Err(e),
                Ok(f3) => match spec_resolve_format_config(raw.pucch_format4) {
                    Err(e) => Err(e),
                    Ok(f4) => {
                        let formats = PucchFormatsConfig {
                            pucch_format1: f1,
                            pucch_format2: f2,
                            pucch_format3: f3,
                            pucch_format4: f4,
                        };
                        match opt_view(raw.pucch_resource) {
                            None => Err(Error::MissingRequiredField),
                            Some(rr) => match spec_resolve_resources(rr, formats) {
                                Err(e) => Err(e),
                                Ok(pool) => match opt_view(raw.pucch_resource_set) {
                                    None => Err(Error::MissingRequiredField),
                                    Some(rs) => match spec_resolve_sets(pool, rs) {
                                        Err(e) => Err(e),
                                        Ok(sets) => match spec_resolve_multi_csi(
                                            pool,
                                            opt_view(raw.multi_csi_resource),
                                        ) {
                                            Err(e) => Err(e),
                                            Ok(multi) => match opt_view(raw.sr_resource) {
                                                None => Ok(
                                                    PucchConfigView {
                                                        pucch_resource_set: sets,
                                                        pucch_resource: pool,
                                                        pucch_formats: formats,
                                                        sr_resource: None,
                                                        multi_csi_resource: multi,
                                                        dl_data_to_ul_ack: opt_view(
                                                            raw.dl_data_to_ul_ack,
                                                        ),
                                                    },
                                                ),
                                                Some(srl) => match spec_resolve_sr_list(
                                                    pool,
                                                    srl,
                                                ) {
                                                    Err(e) => Err(e),
                                                    Ok(sr) => Ok(
                                                        PucchConfigView {
                                                            pucch_resource_set: sets,
                                                            pucch_resource: pool,
                                                            pucch_formats: formats,
                                                            sr_resource: Some(sr),
                                                            multi_csi_resource: multi,
                                                            dl_data_to_ul_ack: opt_view(
                                                                raw.dl_data_to_ul_ack,
                                                            ),
                                                        },
                                                    ),
                                                },
                                            },
                                        },
                                    },
                                },
                            },
                        }
                    },
                },
            },
        },
    }
}

impl PucchConfig {
    /// Resolves a raw configuration into the validated runtime
    /// configuration.  Fail-fast and all-or-nothing: any invalid or missing
    /// field aborts the attempt and no partial configuration is produced.
    /// On success the result is well formed and is exactly the value that
    /// [`spec_resolve`] assigns to the input, so resolution is
    /// deterministic.
    pub fn resolve(raw: &PucchConfigR) -> (r: Result<PucchConfig, Error>)
        ensures
            match r {
                Ok(cfg) => spec_resolve(*raw) == Ok::<PucchConfigView, Error>(cfg@) && cfg.wf(),
                Err(e) => spec_resolve(*raw) == Err::<PucchConfigView, Error>(e),
            },
    {
        let pucch_format1 = match PucchFormatConfig::resolve(&raw.pucch_format1) {
            Ok(c) => c,
            Err(e) => {
                return Err(e);
            },
        };
        let pucch_format2 = match PucchFormatConfig::resolve(&raw.pucch_format2) {
            Ok(c) => c,
            Err(e) => {
                return Err(e);
            },
        };
        let pucch_format3 = match PucchFormatConfig::resolve(&raw.pucch_format3) {
            Ok(c) => c,
            Err(e) => {
                return Err(e);
            },
        };
        let pucch_format4 = match PucchFormatConfig::resolve(&raw.pucch_format4) {
            Ok(c) => c,
            Err(e) => {
                return Err(e);
            },
        };
        let pucch_formats = PucchFormatsConfig {
            pucch_format1,
            pucch_format2,
            pucch_format3,
            pucch_format4,
        };
        let raw_resources = match &raw.pucch_resource {
            Some(v) => v,
            None => {
                return Err(Error::MissingRequiredField);
            },
        };
        let pucch_resource = match resolve_resources(raw_resources, &pucch_formats) {
            Ok(v) => v,
            Err(e) => {
                return Err(e);
            },
        };
        let raw_sets = match &raw.pucch_resource_set {
            Some(v) => v,
            None => {
                return Err(Error::MissingRequiredField);
            },
        };
        let pucch_resource_set = match resolve_sets(&pucch_resource, raw_sets) {
            Ok(v) => v,
            Err(e) => {
                return Err(e);
            },
        };
        let multi_csi_resource = match PucchConfig::from_multi_csi_resource(
            &pucch_resource,
            &raw.multi_csi_resource,
        ) {
            Ok(m) => m,
            Err(e) => {
                return Err(e);
            },
        };
        let sr_resource = match resolve_sr(&pucch_resource, &raw.sr_resource) {
            Ok(m) => m,
            Err(e) => {
                return Err(e);
            },
        };
        let dl_data_to_ul_ack = match &raw.dl_data_to_ul_ack {
            Some(v) => Some(clone_vec_u32(v)),
            None => None,
        };
        let cfg = PucchConfig {
            pucch_resource_set,
            pucch_resource,
            pucch_formats,
            sr_resource,
            multi_csi_resource,
            dl_data_to_ul_ack,
        };
        proof {
            assert(spec_resolve(*raw) == Ok::<PucchConfigView, Error>(cfg@)) by {
                assert(spec_resolve(*raw) matches Ok(v) && v =~= cfg@);
            }
        }
        Ok(cfg)
    }
}

/// Resolving the same raw configuration twice is deterministic: any two
/// results that both equal the specified resolution of one raw value are
/// structurally identical.
pub proof fn lemma_resolve_deterministic(
    raw: PucchConfigR,
    r1: Result<PucchConfigView, Error>,
    r2: Result<PucchConfigView, Error>,
)
    requires
        r1 == spec_resolve(raw),
        r2 == spec_resolve(raw),
    ensures
        r1 == r2,
{
}

} // verus!
