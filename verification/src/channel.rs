//! Per-slot logical channels and the multiplexing pipeline that reduces the
//! pending channels of a slot to the final PUCCH transmissions.

use crate::err::Error;
use crate::pucch::{
    spec_format_config, spec_format_type, spec_overlap, spec_sym_bitmap, PucchConfig, PucchFormatType,
    PucchResource, PucchResourceId,
};
use crate::rrc_pucch::PucchFormat;
use vstd::prelude::*;

verus! {

/// One CSI report: its priority (smaller value means higher priority), its
/// total payload size and its sub-payload sizes, in bits.
#[derive(Debug, Clone, Copy, PartialEq, Eq, Structural)]
pub struct CsiReport {
    pub priority: u32,
    pub o_csi: u32,
    pub o_csi_1: u32,
    pub o_csi_2: Option<u32>,
}

/// One scheduling request: positive or negative, with its SR identifier.
#[derive(Debug, Clone, Copy, PartialEq, Eq, Structural)]
pub struct SrRequest {
    pub positive: bool,
    pub sr_id: u32,
}

/// What a logical channel carries: HARQ-ACK (DCI-triggered or
/// semi-persistent), a scheduling request, a single CSI report, several
/// multiplexed CSI reports, or a combination.
#[derive(Debug, Clone, PartialEq)]
pub enum PucchChannelType {
    HarqDci,
    HarqSps,
    Sr(SrRequest),
    Csi(CsiReport),
    CsiMulti(Vec<CsiReport>),
    HarqSrMulti,
    HarqCsiMulti,
    CsiSrMulti,
    HarqCsiSrMulti,
}

/// The mathematical value of a channel type: the multiplexed-CSI report
/// vector replaced by a sequence.
#[verifier::ext_equal]
pub ghost enum PucchChannelTypeView {
    HarqDci,
    HarqSps,
    Sr(SrRequest),
    Csi(CsiReport),
    CsiMulti(Seq<CsiReport>),
    HarqSrMulti,
    HarqCsiMulti,
    CsiSrMulti,
    HarqCsiSrMulti,
}

impl View for PucchChannelType {
    type V = PucchChannelTypeView;

    open spec fn view(&self) -> PucchChannelTypeView {
        match self {
            PucchChannelType::HarqDci => PucchChannelTypeView::HarqDci,
            PucchChannelType::HarqSps => PucchChannelTypeView::HarqSps,
            PucchChannelType::Sr(r) => PucchChannelTypeView::Sr(*r),
            PucchChannelType::Csi(r) => PucchChannelTypeView::Csi(*r),
            PucchChannelType::CsiMulti(v) => PucchChannelTypeView::CsiMulti(v@),
            PucchChannelType::HarqSrMulti => PucchChannelTypeView::HarqSrMulti,
            PucchChannelType::HarqCsiMulti => PucchChannelTypeView::HarqCsiMulti,
            PucchChannelType::CsiSrMulti => PucchChannelTypeView::CsiSrMulti,
            PucchChannelType::HarqCsiSrMulti => PucchChannelTypeView::HarqCsiSrMulti,
        }
    }
}

/// One per-slot logical channel, bound to its resource by table position.
#[derive(Debug, Clone, PartialEq)]
pub struct PucchLogicChannel {
    pub channel_type: PucchChannelType,
    pub pucch_resource_id: PucchResourceId,
}

/// The mathematical value of a logical channel.
#[verifier::ext_equal]
pub ghost struct PucchLogicChannelView {
    pub channel_type: PucchChannelTypeView,
    pub pucch_resource_id: PucchResourceId,
}

impl View for PucchLogicChannel {
    type V = PucchLogicChannelView;

    open spec fn view(&self) -> PucchLogicChannelView {
        PucchLogicChannelView {
            channel_type: self.channel_type@,
            pucch_resource_id: self.pucch_resource_id,
        }
    }
}

/// The sequence of channel values carried by a channel vector.
pub open spec fn views_of(s: Seq<PucchLogicChannel>) -> Seq<PucchLogicChannelView> {
    s.map_values(|c: PucchLogicChannel| c@)
}

impl PucchChannelTypeView {
    /// A single CSI report.
    pub open spec fn is_csi(self) -> bool {
        self is Csi
    }

    /// A plain scheduling request.
    pub open spec fn is_sr(self) -> bool {
        self is Sr
    }

    /// A plain HARQ-ACK channel, DCI-triggered or semi-persistent.
    pub open spec fn is_harq(self) -> bool {
        self is HarqDci || self is HarqSps
    }

    /// Carries HARQ-ACK, alone or multiplexed.
    pub open spec fn has_harq(self) -> bool {
        self is HarqDci || self is HarqSps || self is HarqSrMulti || self is HarqCsiMulti
            || self is HarqCsiSrMulti
    }

    /// Carries a scheduling request, alone or multiplexed.
    pub open spec fn has_sr(self) -> bool {
        self is Sr || self is HarqSrMulti || self is CsiSrMulti || self is HarqCsiSrMulti
    }

    /// Carries CSI, alone or multiplexed.
    pub open spec fn has_csi(self) -> bool {
        self is Csi || self is CsiMulti || self is HarqCsiMulti || self is CsiSrMulti
            || self is HarqCsiSrMulti
    }

    /// Carries more than one kind of information.
    pub open spec fn is_multi(self) -> bool {
        self is CsiMulti || self is HarqSrMulti || self is HarqCsiMulti || self is CsiSrMulti
            || self is HarqCsiSrMulti
    }
}

impl PucchChannelType {
    /// Whether this is a single CSI report channel.
    pub fn is_csi(&self) -> (r: bool)
        ensures
            r == self@.is_csi(),
    {
        match self {
            PucchChannelType::Csi(..) => true,
            _ => false,
        }
    }

    /// Whether this is a plain scheduling-request channel.
    pub fn is_sr(&self) -> (r: bool)
        ensures
            r == self@.is_sr(),
    {
        match self {
            PucchChannelType::Sr(..) => true,
            _ => false,
        }
    }

    /// Whether this is a plain HARQ-ACK channel.
    pub fn is_harq(&self) -> (r: bool)
        ensures
            r == self@.is_harq(),
    {
        match self {
            PucchChannelType::HarqDci | PucchChannelType::HarqSps => true,
            _ => false,
        }
    }

    /// Whether this channel carries HARQ-ACK, alone or multiplexed.
    pub fn has_harq(&self) -> (r: bool)
        ensures
            r == self@.has_harq(),
    {
        match self {
            PucchChannelType::HarqDci
            | PucchChannelType::HarqSps
            | PucchChannelType::HarqSrMulti
            | PucchChannelType::HarqCsiMulti
            | PucchChannelType::HarqCsiSrMulti => true,
            _ => false,
        }
    }

    /// Whether this channel carries a scheduling request, alone or
    /// multiplexed.
    pub fn has_sr(&self) -> (r: bool)
        ensures
            r == self@.has_sr(),
    {
        match self {
            PucchChannelType::Sr(..)
            | PucchChannelType::HarqSrMulti
            | PucchChannelType::CsiSrMulti
            | PucchChannelType::HarqCsiSrMulti => true,
            _ => false,
        }
    }

    /// Whether this channel carries CSI, alone or multiplexed.
    pub fn has_csi(&self) -> (r: bool)
        ensures
            r == self@.has_csi(),
    {
        match self {
            PucchChannelType::Csi(..)
            | PucchChannelType::CsiMulti(..)
            | PucchChannelType::HarqCsiMulti
            | PucchChannelType::CsiSrMulti
            | PucchChannelType::HarqCsiSrMulti => true,
            _ => false,
        }
    }

    /// Whether this channel carries more than one kind of information.
    pub fn is_multi(&self) -> (r: bool)
        ensures
            r == self@.is_multi(),
    {
        match self {
            PucchChannelType::CsiMulti(..)
            | PucchChannelType::HarqSrMulti
            | PucchChannelType::HarqCsiMulti
            | PucchChannelType::CsiSrMulti
            | PucchChannelType::HarqCsiSrMulti => true,
            _ => false,
        }
    }

    /// A deep copy whose value equals this one.
    fn clone_type(&self) -> (r: Self)
        ensures
            r@ == self@,
    {
        match self {
            PucchChannelType::HarqDci => PucchChannelType::HarqDci,
            PucchChannelType::HarqSps => PucchChannelType::HarqSps,
            PucchChannelType::Sr(r) => PucchChannelType::Sr(*r),
            PucchChannelType::Csi(r) => PucchChannelType::Csi(*r),
            PucchChannelType::CsiMulti(v) => {
                let n = v.len();
                let mut out: Vec<CsiReport> = Vec::new();
                let mut i: usize = 0;
                while i < n
                    invariant
                        n == v@.len(),
                        0 <= i <= n,
                        out@ == v@.take(i as int),
                    decreases n - i,
                {
                    out.push(v[i]);
                    proof {
                        assert(v@.take(i + 1) =~= v@.take(i as int).push(v@[i as int]));
                    }
                    i = i + 1;
                }
                proof {
                    assert(v@.take(n as int) =~= v@);
                }
                PucchChannelType::CsiMulti(out)
            },
            PucchChannelType::HarqSrMulti => PucchChannelType::HarqSrMulti,
            PucchChannelType::HarqCsiMulti => PucchChannelType::HarqCsiMulti,
            PucchChannelType::CsiSrMulti => PucchChannelType::CsiSrMulti,
            PucchChannelType::HarqCsiSrMulti => PucchChannelType::HarqCsiSrMulti,
        }
    }
}

/// Whether a channel value points into the resource table.
pub open spec fn ch_valid(cfg: PucchConfig, c: PucchLogicChannelView) -> bool {
    c.pucch_resource_id.idx < cfg.pucch_resource@.len()
}

/// Whether every channel value points into the resource table.
pub open spec fn chs_valid(cfg: PucchConfig, s: Seq<PucchLogicChannelView>) -> bool {
    forall|i: int| 0 <= i < s.len() ==> ch_valid(cfg, #[trigger] s[i])
}

/// The format variant of the resource a channel is bound to.
pub open spec fn ch_format(cfg: PucchConfig, c: PucchLogicChannelView) -> PucchFormat {
    cfg.pucch_resource@[c.pucch_resource_id.idx as int].format
}

/// The occupancy bitmap of the resource a channel is bound to.
pub open spec fn ch_bitmap(cfg: PucchConfig, c: PucchLogicChannelView) -> u32 {
    spec_sym_bitmap(ch_format(cfg, c))
}

impl PucchLogicChannel {
    /// The resource this channel is bound to.
    pub fn pucch_resource<'a>(&self, pucch_config: &'a PucchConfig) -> (r: &'a PucchResource)
        requires
            ch_valid(*pucch_config, self@),
        ensures
            *r == pucch_config.pucch_resource@[self.pucch_resource_id.idx as int],
    {
        self.pucch_resource_id.pucch_resource(pucch_config)
    }

    /// A deep copy whose value equals this one.
    fn clone_channel(&self) -> (r: Self)
        ensures
            r@ == self@,
    {
        PucchLogicChannel {
            channel_type: self.channel_type.clone_type(),
            pucch_resource_id: self.pucch_resource_id,
        }
    }
}

/// The union of the occupancy bitmaps of the first `k` channels that satisfy
/// the filter: all channels when `only_csi` is false, the single-CSI
/// channels otherwise.
pub open spec fn or_bitmaps(
    cfg: PucchConfig,
    s: Seq<PucchLogicChannelView>,
    k: int,
    only_csi: bool,
) -> u32
    decreases k,
{
    if k <= 0 {
        0u32
    } else {
        let rest = or_bitmaps(cfg, s, k - 1, only_csi);
        if !only_csi || s[k - 1].channel_type.is_csi() {
            rest | ch_bitmap(cfg, s[k - 1])
        } else {
            rest
        }
    }
}

/// A bitmap intersects the union of the first `k` filtered channel bitmaps
/// iff it intersects one of them.
pub proof fn lemma_or_bitmaps_intersect(
    cfg: PucchConfig,
    s: Seq<PucchLogicChannelView>,
    k: int,
    only_csi: bool,
    x: u32,
)
    requires
        0 <= k <= s.len(),
    ensures
        (x & or_bitmaps(cfg, s, k, only_csi) != 0) <==> exists|j: int|
            0 <= j < k && (!only_csi || (#[trigger] s[j]).channel_type.is_csi()) && x & ch_bitmap(
                cfg,
                s[j],
            ) != 0,
    decreases k,
{
    if k <= 0 {
        assert(x & 0u32 == 0) by (bit_vector);
    } else {
        lemma_or_bitmaps_intersect(cfg, s, k - 1, only_csi, x);
        let rest = or_bitmaps(cfg, s, k - 1, only_csi);
        let b = ch_bitmap(cfg, s[k - 1]);
        assert((x & (rest | b) != 0) <==> (x & rest != 0 || x & b != 0)) by (bit_vector);
        let included = !only_csi || s[k - 1].channel_type.is_csi();
        if x & rest != 0 {
            let j = choose|j: int|
                0 <= j < k - 1 && (!only_csi || (#[trigger] s[j]).channel_type.is_csi()) && x
                    & ch_bitmap(cfg, s[j]) != 0;
            assert(0 <= j < k && (!only_csi || s[j].channel_type.is_csi()) && x & ch_bitmap(cfg, s[j])
                != 0);
        }
        if included && x & b != 0 {
            assert(0 <= k - 1 < k && (!only_csi || s[k - 1].channel_type.is_csi()) && x & ch_bitmap(
                cfg,
                s[k - 1],
            ) != 0);
        }
        if exists|j: int|
            0 <= j < k && (!only_csi || (#[trigger] s[j]).channel_type.is_csi()) && x & ch_bitmap(
                cfg,
                s[j],
            ) != 0 {
            let j = choose|j: int|
                0 <= j < k && (!only_csi || (#[trigger] s[j]).channel_type.is_csi()) && x
                    & ch_bitmap(cfg, s[j]) != 0;
            if j < k - 1 {
                assert(0 <= j < k - 1 && (!only_csi || s[j].channel_type.is_csi()) && x & ch_bitmap(
                    cfg,
                    s[j],
                ) != 0);
                assert(x & rest != 0);
            } else {
                assert(x & b != 0);
            }
        }
    }
}

/// Whether two of the first `k` filtered channels are bound to overlapping
/// resources.
pub open spec fn spec_mutual_overlap(
    cfg: PucchConfig,
    s: Seq<PucchLogicChannelView>,
    k: int,
    only_csi: bool,
) -> bool {
    exists|i: int, j: int|
        0 <= i < j < k && (!only_csi || (#[trigger] s[i]).channel_type.is_csi()) && (!only_csi || (
        #[trigger] s[j]).channel_type.is_csi()) && ch_bitmap(cfg, s[i]) & ch_bitmap(cfg, s[j]) != 0
}

impl PucchLogicChannel {
    /// Whether any two of the given channels are bound to overlapping
    /// resources, anywhere within the whole collection.
    pub fn is_overlap(pucch_config: &PucchConfig, pucch_channels: &Vec<PucchLogicChannel>) -> (r:
        bool)
        requires
            pucch_config.wf(),
            chs_valid(*pucch_config, views_of(pucch_channels@)),
        ensures
            r == spec_mutual_overlap(
                *pucch_config,
                views_of(pucch_channels@),
                pucch_channels@.len() as int,
                false,
            ),
    {
        mutual_overlap_scan(pucch_config, pucch_channels, false)
    }
}

/// Scans the channels in order with a running union bitmap, reporting
/// whether any channel's bitmap intersects the union of the earlier ones;
/// with `only_csi`, channels that are not single CSI reports are skipped.
fn mutual_overlap_scan(
    pucch_config: &PucchConfig,
    pucch_channels: &Vec<PucchLogicChannel>,
    only_csi: bool,
) -> (r: bool)
    requires
        pucch_config.wf(),
        chs_valid(*pucch_config, views_of(pucch_channels@)),
    ensures
        r == spec_mutual_overlap(
            *pucch_config,
            views_of(pucch_channels@),
            pucch_channels@.len() as int,
            only_csi,
        ),
{
    let ghost vs = views_of(pucch_channels@);
    let n = pucch_channels.len();
    let mut accum_bitmap: u32 = 0;
    let mut found = false;
    let mut i: usize = 0;
    while i < n
        invariant
            pucch_config.wf(),
            chs_valid(*pucch_config, vs),
            vs == views_of(pucch_channels@),
            n == pucch_channels@.len(),
            0 <= i <= n,
            accum_bitmap == or_bitmaps(*pucch_config, vs, i as int, only_csi),
            found == spec_mutual_overlap(*pucch_config, vs, i as int, only_csi),
        decreases n - i,
    {
        let ch = &pucch_channels[i];
        let considered = if only_csi {
            ch.channel_type.is_csi()
        } else {
            true
        };
        if considered {
            proof {
                assert(vs[i as int] == pucch_channels@[i as int]@);
                assert(ch_valid(*pucch_config, vs[i as int]));
                assert(pucch_config.pucch_resource@[vs[i as int].pucch_resource_id.idx as int].wf(
                    pucch_config.pucch_formats,
                ));
            }
            let bitmap = ch.pucch_resource(pucch_config).sym_bitmap();
            proof {
                assert((accum_bitmap & bitmap != 0) == (bitmap & accum_bitmap != 0))
                    by (bit_vector);
                lemma_or_bitmaps_intersect(*pucch_config, vs, i as int, only_csi, bitmap);
                if accum_bitmap & bitmap != 0 {
                    let j = choose|j: int|
                        0 <= j < i && (!only_csi || (#[trigger] vs[j]).channel_type.is_csi())
                            && bitmap & ch_bitmap(*pucch_config, vs[j]) != 0;
                    assert(ch_bitmap(*pucch_config, vs[j]) & ch_bitmap(*pucch_config, vs[i as int])
                        != 0) by {
                        let a = ch_bitmap(*pucch_config, vs[j]);
                        let b = bitmap;
                        assert(b & a != 0 ==> a & b != 0) by (bit_vector);
                    }
                    assert(spec_mutual_overlap(*pucch_config, vs, i + 1, only_csi));
                } else {
                    assert forall|a: int, b: int|
                        0 <= a < b < i + 1 && (!only_csi || (#[trigger] vs[a]).channel_type.is_csi())
                            && (!only_csi || (#[trigger] vs[b]).channel_type.is_csi()) && ch_bitmap(
                            *pucch_config,
                            vs[a],
                        ) & ch_bitmap(*pucch_config, vs[b]) != 0 implies spec_mutual_overlap(
                        *pucch_config,
                        vs,
                        i as int,
                        only_csi,
                    ) by {
                        if b == i as int {
                            let xa = ch_bitmap(*pucch_config, vs[a]);
                            let xb = bitmap;
                            assert(xa & xb != 0 ==> xb & xa != 0) by (bit_vector);
                        }
                    }
                }
            }
            if (accum_bitmap & bitmap) != 0 {
                found = true;
            }
            accum_bitmap = accum_bitmap | bitmap;
        } else {
            proof {
                assert(vs[i as int] == pucch_channels@[i as int]@);
                assert(or_bitmaps(*pucch_config, vs, i + 1, only_csi) == accum_bitmap);
                assert(spec_mutual_overlap(*pucch_config, vs, i + 1, only_csi)
                    == spec_mutual_overlap(*pucch_config, vs, i as int, only_csi)) by {
                    if spec_mutual_overlap(*pucch_config, vs, i + 1, only_csi) {
                        let (a, b) = choose|a: int, b: int|
                            0 <= a < b < i + 1 && (!only_csi || (
                            #[trigger] vs[a]).channel_type.is_csi()) && (!only_csi || (
                            #[trigger] vs[b]).channel_type.is_csi()) && ch_bitmap(*pucch_config, vs[a])
                                & ch_bitmap(*pucch_config, vs[b]) != 0;
                        assert(b < i as int);
                    }
                }
            }
        }
        i = i + 1;
    }
    found
}

/// The first `k` channels with every semi-persistent HARQ-ACK channel
/// removed, order preserved.
pub open spec fn spec_remove_sps(s: Seq<PucchLogicChannelView>, k: int) -> Seq<
    PucchLogicChannelView,
>
    decreases k,
{
    if k <= 0 {
        Seq::empty()
    } else {
        let rest = spec_remove_sps(s, k - 1);
        if s[k - 1].channel_type is HarqSps {
            rest
        } else {
            rest.push(s[k - 1])
        }
    }
}

/// HARQ consolidation: when a DCI-triggered HARQ-ACK channel is present,
/// every semi-persistent HARQ-ACK channel is removed, leaving at most one
/// HARQ-ACK channel; otherwise the channels are unchanged.
pub open spec fn spec_harq_consolidate(s: Seq<PucchLogicChannelView>) -> Seq<
    PucchLogicChannelView,
> {
    if exists|i: int| 0 <= i < s.len() && (#[trigger] s[i]).channel_type is HarqDci {
        spec_remove_sps(s, s.len() as int)
    } else {
        s
    }
}

/// Removing semi-persistent HARQ-ACK channels keeps every channel valid.
pub proof fn lemma_remove_sps_valid(cfg: PucchConfig, s: Seq<PucchLogicChannelView>, k: int)
    requires
        chs_valid(cfg, s),
        0 <= k <= s.len(),
    ensures
        chs_valid(cfg, spec_remove_sps(s, k)),
    decreases k,
{
    if k > 0 {
        lemma_remove_sps_valid(cfg, s, k - 1);
    }
}

/// HARQ consolidation (step one of the pipeline): when a DCI-triggered
/// HARQ-ACK channel is present, removes every semi-persistent HARQ-ACK
/// channel.
pub fn harq_consolidation_proc(pucch_logic_channel: &mut Vec<PucchLogicChannel>)
    ensures
        views_of(final(pucch_logic_channel)@) == spec_harq_consolidate(
            views_of(old(pucch_logic_channel)@),
        ),
{
    let ghost vs = views_of(old(pucch_logic_channel)@);
    let n = pucch_logic_channel.len();
    let mut has_dci = false;
    let mut i: usize = 0;
    while i < n
        invariant
            pucch_logic_channel@ == old(pucch_logic_channel)@,
            vs == views_of(pucch_logic_channel@),
            n == pucch_logic_channel@.len(),
            0 <= i <= n,
            has_dci == exists|j: int| 0 <= j < i && (#[trigger] vs[j]).channel_type is HarqDci,
        decreases n - i,
    {
        proof {
            assert(vs[i as int] == pucch_logic_channel@[i as int]@);
        }
        if matches!(pucch_logic_channel[i].channel_type, PucchChannelType::HarqDci) {
            has_dci = true;
        }
        i = i + 1;
    }
    if !has_dci {
        return ;
    }
    let mut out: Vec<PucchLogicChannel> = Vec::new();
    proof {
        assert(views_of(out@) =~= Seq::<PucchLogicChannelView>::empty());
    }
    let mut i: usize = 0;
    while i < n
        invariant
            pucch_logic_channel@ == old(pucch_logic_channel)@,
            vs == views_of(pucch_logic_channel@),
            n == pucch_logic_channel@.len(),
            0 <= i <= n,
            views_of(out@) == spec_remove_sps(vs, i as int),
        decreases n - i,
    {
        proof {
            assert(vs[i as int] == pucch_logic_channel@[i as int]@);
        }
        if !matches!(pucch_logic_channel[i].channel_type, PucchChannelType::HarqSps) {
            let c = pucch_logic_channel[i].clone_channel();
            proof {
                assert(views_of(out@.push(c)) =~= views_of(out@).push(c@));
            }
            out.push(c);
        }
        i = i + 1;
    }
    *pucch_logic_channel = out;
}

/// How many of the first `k` channels are single CSI reports.
pub open spec fn csi_count(s: Seq<PucchLogicChannelView>, k: int) -> int
    decreases k,
{
    if k <= 0 {
        0
    } else {
        csi_count(s, k - 1) + if s[k - 1].channel_type.is_csi() {
            1int
        } else {
            0int
        }
    }
}

/// The CSI reports of the single-CSI channels among the first `k` channels,
/// in channel order.
pub open spec fn csi_reports(s: Seq<PucchLogicChannelView>, k: int) -> Seq<CsiReport>
    decreases k,
{
    if k <= 0 {
        Seq::empty()
    } else {
        let rest = csi_reports(s, k - 1);
        match s[k - 1].channel_type {
            PucchChannelTypeView::Csi(r) => rest.push(r),
            _ => rest,
        }
    }
}

/// The summed payload size of the first `k` reports, in bits.
pub open spec fn sum_o_csi(rs: Seq<CsiReport>, k: int) -> int
    decreases k,
{
    if k <= 0 {
        0
    } else {
        sum_o_csi(rs, k - 1) + rs[k - 1].o_csi
    }
}

/// The priority of a single-CSI channel (zero for any other channel).
pub open spec fn csi_priority(c: PucchLogicChannelView) -> u32 {
    match c.channel_type {
        PucchChannelTypeView::Csi(r) => r.priority,
        _ => 0u32,
    }
}

/// The first index, among the first `k` channels, of a single-CSI channel
/// with the numerically smallest priority; -1 when there is none.  Channels
/// of equal priority keep their order: the earliest wins.
pub open spec fn best_csi_idx(s: Seq<PucchLogicChannelView>, k: int) -> int
    decreases k,
{
    if k <= 0 {
        -1
    } else {
        let rest = best_csi_idx(s, k - 1);
        if !s[k - 1].channel_type.is_csi() {
            rest
        } else if rest == -1 {
            k - 1
        } else if csi_priority(s[rest]) <= csi_priority(s[k - 1]) {
            rest
        } else {
            k - 1
        }
    }
}

/// Whether a channel qualifies as the secondary CSI channel next to the
/// primary at `pi`: a single-CSI channel other than the primary whose
/// resource does not overlap the primary's, and a short-PUCCH resource when
/// the primary's resource is long PUCCH.
pub open spec fn secondary_ok(
    cfg: PucchConfig,
    s: Seq<PucchLogicChannelView>,
    pi: int,
    i: int,
) -> bool {
    &&& i != pi
    &&& s[i].channel_type.is_csi()
    &&& !spec_overlap(ch_format(cfg, s[i]), ch_format(cfg, s[pi]))
    &&& (spec_format_type(ch_format(cfg, s[pi])) is LongPucch ==> spec_format_type(
        ch_format(cfg, s[i]),
    ) is ShortPucch)
}

/// The first index, among the first `k` channels, of a qualifying secondary
/// CSI channel with the smallest priority; -1 when there is none.
pub open spec fn best_secondary_idx(
    cfg: PucchConfig,
    s: Seq<PucchLogicChannelView>,
    k: int,
    pi: int,
) -> int
    decreases k,
{
    if k <= 0 {
        -1
    } else {
        let rest = best_secondary_idx(cfg, s, k - 1, pi);
        if !secondary_ok(cfg, s, pi, k - 1) {
            rest
        } else if rest == -1 {
            k - 1
        } else if csi_priority(s[rest]) <= csi_priority(s[k - 1]) {
            rest
        } else {
            k - 1
        }
    }
}

/// The first multi-CSI candidate (they are sorted ascending by capacity)
/// whose capacity holds `total` bits; the last candidate when none does.
pub open spec fn spec_pick_multi(cfg: PucchConfig, m: Seq<PucchResourceId>, total: int) -> PucchResourceId
    decreases m.len(),
{
    if m.len() <= 1 {
        m[0]
    } else if cfg.pucch_resource@[m[0].idx as int].max_hold_bits >= total {
        m[0]
    } else {
        spec_pick_multi(cfg, m.drop_first(), total)
    }
}

/// The first `k` channels with every single-CSI channel removed, order
/// preserved.
pub open spec fn spec_multi_kept(s: Seq<PucchLogicChannelView>, k: int) -> Seq<
    PucchLogicChannelView,
>
    decreases k,
{
    if k <= 0 {
        Seq::empty()
    } else {
        let rest = spec_multi_kept(s, k - 1);
        if s[k - 1].channel_type.is_csi() {
            rest
        } else {
            rest.push(s[k - 1])
        }
    }
}

/// Removing the single-CSI channels keeps every channel valid.
pub proof fn lemma_multi_kept_valid(cfg: PucchConfig, s: Seq<PucchLogicChannelView>, k: int)
    requires
        chs_valid(cfg, s),
        0 <= k <= s.len(),
    ensures
        chs_valid(cfg, spec_multi_kept(s, k)),
    decreases k,
{
    if k > 0 {
        lemma_multi_kept_valid(cfg, s, k - 1);
    }
}

/// The multiplexed channel that replaces the single-CSI channels: all their
/// reports in channel order, bound to the candidate picked by combined
/// payload.
pub open spec fn spec_multiplexed_channel(cfg: PucchConfig, s: Seq<PucchLogicChannelView>) -> PucchLogicChannelView {
    let reports = csi_reports(s, s.len() as int);
    PucchLogicChannelView {
        channel_type: PucchChannelTypeView::CsiMulti(reports),
        pucch_resource_id: spec_pick_multi(
            cfg,
            cfg.multi_csi_resource->Some_0@,
            sum_o_csi(reports, reports.len() as int),
        ),
    }
}

/// The multiplex branch of CSI reduction: every single-CSI channel removed
/// and one multiplexed channel appended.
pub open spec fn spec_multi_csi_reduce(cfg: PucchConfig, s: Seq<PucchLogicChannelView>) -> Seq<
    PucchLogicChannelView,
> {
    spec_multi_kept(s, s.len() as int).push(spec_multiplexed_channel(cfg, s))
}

/// The first `k` channels with every single-CSI channel removed except those
/// at the primary position `pi` and the secondary position `sec`, order
/// preserved.
pub open spec fn spec_select_kept(
    s: Seq<PucchLogicChannelView>,
    k: int,
    pi: int,
    sec: int,
) -> Seq<PucchLogicChannelView>
    decreases k,
{
    if k <= 0 {
        Seq::empty()
    } else {
        let rest = spec_select_kept(s, k - 1, pi, sec);
        if !s[k - 1].channel_type.is_csi() || k - 1 == pi || k - 1 == sec {
            rest.push(s[k - 1])
        } else {
            rest
        }
    }
}

/// Keeping only the primary and secondary CSI channels keeps every channel
/// valid.
pub proof fn lemma_select_kept_valid(
    cfg: PucchConfig,
    s: Seq<PucchLogicChannelView>,
    k: int,
    pi: int,
    sec: int,
)
    requires
        chs_valid(cfg, s),
        0 <= k <= s.len(),
    ensures
        chs_valid(cfg, spec_select_kept(s, k, pi, sec)),
    decreases k,
{
    if k > 0 {
        lemma_select_kept_valid(cfg, s, k - 1, pi, sec);
    }
}

/// When none of the first `k` channels is a single CSI report, selection
/// keeps all of them.
pub proof fn lemma_select_kept_keeps_all(s: Seq<PucchLogicChannelView>, k: int, pi: int, sec: int)
    requires
        0 <= k <= s.len(),
        forall|j: int| 0 <= j < k ==> !(#[trigger] s[j]).channel_type.is_csi(),
    ensures
        spec_select_kept(s, k, pi, sec) =~= s.take(k),
    decreases k,
{
    if k > 0 {
        lemma_select_kept_keeps_all(s, k - 1, pi, sec);
        assert(s.take(k) =~= s.take(k - 1).push(s[k - 1]));
    }
}

/// The select branch of CSI reduction: the primary channel is the earliest
/// single-CSI channel of smallest priority; the secondary, if any, is the
/// earliest qualifying channel of smallest priority among the rest; every
/// other single-CSI channel is dropped.
pub open spec fn spec_csi_select(cfg: PucchConfig, s: Seq<PucchLogicChannelView>) -> Seq<
    PucchLogicChannelView,
> {
    let pi = best_csi_idx(s, s.len() as int);
    let sec = best_secondary_idx(cfg, s, s.len() as int, pi);
    spec_select_kept(s, s.len() as int, pi, sec)
}

/// CSI reduction (step two of the pipeline).  With fewer than two single-CSI
/// channels nothing changes.  Otherwise, when a non-empty multi-CSI
/// candidate list is configured and the CSI channels mutually overlap, they
/// are multiplexed onto one candidate resource; otherwise at most two of
/// them are selected.
pub open spec fn spec_csi_reduce(cfg: PucchConfig, s: Seq<PucchLogicChannelView>) -> Seq<
    PucchLogicChannelView,
> {
    if csi_count(s, s.len() as int) < 2 {
        s
    } else if cfg.multi_csi_resource matches Some(m) && m@.len() > 0 && spec_mutual_overlap(
        cfg,
        s,
        s.len() as int,
        true,
    ) {
        spec_multi_csi_reduce(cfg, s)
    } else {
        spec_csi_select(cfg, s)
    }
}

/// Whether a channel is a negative scheduling request.
pub open spec fn sr_negative(c: PucchLogicChannelView) -> bool {
    c.channel_type matches PucchChannelTypeView::Sr(r) && !r.positive
}

/// Whether a channel's resource overlaps the resource of some channel that
/// carries HARQ-ACK or CSI.
pub open spec fn overlaps_harq_csi(
    cfg: PucchConfig,
    s: Seq<PucchLogicChannelView>,
    c: PucchLogicChannelView,
) -> bool {
    exists|j: int|
        0 <= j < s.len() && ((#[trigger] s[j]).channel_type.has_harq()
            || s[j].channel_type.has_csi()) && ch_bitmap(cfg, c) & ch_bitmap(cfg, s[j]) != 0
}

/// The first `k` channels with every negative scheduling request that
/// overlaps no HARQ/CSI channel removed, order preserved.
pub open spec fn spec_sr_kept(cfg: PucchConfig, s: Seq<PucchLogicChannelView>, k: int) -> Seq<
    PucchLogicChannelView,
>
    decreases k,
{
    if k <= 0 {
        Seq::empty()
    } else {
        let rest = spec_sr_kept(cfg, s, k - 1);
        let c = s[k - 1];
        if sr_negative(c) && !overlaps_harq_csi(cfg, s, c) {
            rest
        } else {
            rest.push(c)
        }
    }
}

/// SR pruning: every negative scheduling request whose resource overlaps no
/// remaining HARQ/CSI channel's resource is removed; positive scheduling
/// requests are never removed.
pub open spec fn spec_sr_prune(cfg: PucchConfig, s: Seq<PucchLogicChannelView>) -> Seq<
    PucchLogicChannelView,
> {
    spec_sr_kept(cfg, s, s.len() as int)
}

/// SR pruning keeps every channel valid.
pub proof fn lemma_sr_kept_valid(cfg: PucchConfig, s: Seq<PucchLogicChannelView>, k: int)
    requires
        chs_valid(cfg, s),
        0 <= k <= s.len(),
    ensures
        chs_valid(cfg, spec_sr_kept(cfg, s, k)),
    decreases k,
{
    if k > 0 {
        lemma_sr_kept_valid(cfg, s, k - 1);
    }
}

/// SR pruning (step four of the pipeline): drops every negative scheduling
/// request whose resource overlaps no HARQ/CSI channel's resource.
pub fn sr_pucch_proc(pucch_config: &PucchConfig, pucch_logic_channel: &mut Vec<PucchLogicChannel>)
    requires
        pucch_config.wf(),
        chs_valid(*pucch_config, views_of(old(pucch_logic_channel)@)),
    ensures
        views_of(final(pucch_logic_channel)@) == spec_sr_prune(
            *pucch_config,
            views_of(old(pucch_logic_channel)@),
        ),
        chs_valid(*pucch_config, views_of(final(pucch_logic_channel)@)),
{
    let ghost vs = views_of(old(pucch_logic_channel)@);
    let n = pucch_logic_channel.len();
    let mut out: Vec<PucchLogicChannel> = Vec::new();
    proof {
        assert(views_of(out@) =~= Seq::<PucchLogicChannelView>::empty());
    }
    let mut i: usize = 0;
    while i < n
        invariant
            pucch_config.wf(),
            chs_valid(*pucch_config, vs),
            pucch_logic_channel@ == old(pucch_logic_channel)@,
            vs == views_of(pucch_logic_channel@),
            n == pucch_logic_channel@.len(),
            0 <= i <= n,
            views_of(out@) == spec_sr_kept(*pucch_config, vs, i as int),
            chs_valid(*pucch_config, views_of(out@)),
        decreases n - i,
    {
        proof {
            assert(vs[i as int] == pucch_logic_channel@[i as int]@);
        }
        let ch = &pucch_logic_channel[i];
        let negative_sr = match &ch.channel_type {
            PucchChannelType::Sr(sr) => !sr.positive,
            _ => false,
        };
        let keep = if negative_sr {
            proof {
                assert(pucch_config.pucch_resource@[vs[i as int].pucch_resource_id.idx as int].wf(
                    pucch_config.pucch_formats,
                ));
            }
            let sr_bitmap = ch.pucch_resource(pucch_config).sym_bitmap();
            let mut found = false;
            let mut j: usize = 0;
            while j < n
                invariant
                    pucch_config.wf(),
                    chs_valid(*pucch_config, vs),
                    pucch_logic_channel@ == old(pucch_logic_channel)@,
                    vs == views_of(pucch_logic_channel@),
                    n == pucch_logic_channel@.len(),
                    0 <= j <= n,
                    i < n,
                    sr_bitmap == ch_bitmap(*pucch_config, vs[i as int]),
                    found == exists|m: int|
                        0 <= m < j && ((#[trigger] vs[m]).channel_type.has_harq()
                            || vs[m].channel_type.has_csi()) && ch_bitmap(
                            *pucch_config,
                            vs[i as int],
                        ) & ch_bitmap(*pucch_config, vs[m]) != 0,
                decreases n - j,
            {
                proof {
                    assert(vs[j as int] == pucch_logic_channel@[j as int]@);
                    assert(pucch_config.pucch_resource@[vs[j as int].pucch_resource_id.idx
                        as int].wf(pucch_config.pucch_formats));
                }
                let other = &pucch_logic_channel[j];
                if other.channel_type.has_harq() || other.channel_type.has_csi() {
                    let other_bitmap = other.pucch_resource(pucch_config).sym_bitmap();
                    if (sr_bitmap & other_bitmap) != 0 {
                        found = true;
                    }
                }
                j = j + 1;
            }
            found
        } else {
            true
        };
        if keep {
            let c = pucch_logic_channel[i].clone_channel();
            proof {
                assert(views_of(out@.push(c)) =~= views_of(out@).push(c@));
            }
            out.push(c);
        }
        i = i + 1;
    }
    *pucch_logic_channel = out;
}

/// A best-index of -1 means no single-CSI channel among the first `k`.
pub proof fn lemma_best_csi_none(s: Seq<PucchLogicChannelView>, k: int)
    requires
        0 <= k <= s.len(),
        best_csi_idx(s, k) == -1,
    ensures
        forall|j: int| 0 <= j < k ==> !(#[trigger] s[j]).channel_type.is_csi(),
    decreases k,
{
    if k > 0 {
        lemma_best_csi_none(s, k - 1);
    }
}

/// Multiplexed-CSI reduction (the multiplex branch of step two): every
/// single-CSI channel is removed and one channel carrying all their reports
/// is appended, bound to the first multi-CSI candidate that can hold the
/// combined payload, or to the largest candidate when none can.
pub fn multi_csi_pucch_proc(
    pucch_config: &PucchConfig,
    pucch_logic_channel: &mut Vec<PucchLogicChannel>,
)
    requires
        pucch_config.wf(),
        chs_valid(*pucch_config, views_of(old(pucch_logic_channel)@)),
        pucch_config.multi_csi_resource matches Some(m) && m@.len() >= 1,
    ensures
        views_of(final(pucch_logic_channel)@) == spec_multi_csi_reduce(
            *pucch_config,
            views_of(old(pucch_logic_channel)@),
        ),
        chs_valid(*pucch_config, views_of(final(pucch_logic_channel)@)),
{
    let ghost vs = views_of(old(pucch_logic_channel)@);
    let n = pucch_logic_channel.len();

    let mut all_csi_reports: Vec<CsiReport> = Vec::new();
    let mut i: usize = 0;
    while i < n
        invariant
            pucch_logic_channel@ == old(pucch_logic_channel)@,
            vs == views_of(pucch_logic_channel@),
            n == pucch_logic_channel@.len(),
            0 <= i <= n,
            all_csi_reports@ == csi_reports(vs, i as int),
        decreases n - i,
    {
        proof {
            assert(vs[i as int] == pucch_logic_channel@[i as int]@);
        }
        match &pucch_logic_channel[i].channel_type {
            PucchChannelType::Csi(r) => {
                all_csi_reports.push(*r);
            },
            _ => {},
        }
        i = i + 1;
    }

    let ghost reports = csi_reports(vs, n as int);
    let m = all_csi_reports.len();
    let mut total: u32 = 0;
    let mut over = false;
    let mut k: usize = 0;
    while k < m
        invariant
            m == all_csi_reports@.len(),
            all_csi_reports@ == reports,
            0 <= k <= m,
            !over ==> total == sum_o_csi(reports, k as int),
            over ==> sum_o_csi(reports, k as int) > u32::MAX,
        decreases m - k,
    {
        let o = all_csi_reports[k].o_csi;
        if over || o > u32::MAX - total {
            over = true;
        } else {
            total = total + o;
        }
        k = k + 1;
    }
    let ghost t = sum_o_csi(reports, reports.len() as int);

    let resource_id = match &pucch_config.multi_csi_resource {
        Some(v) => v,
        None => {
            proof {
                assert(false);
            }
            return ;
        },
    };
    let chosen: PucchResourceId = if resource_id.len() == 1 {
        resource_id[0]
    } else {
        proof {
            assert(resource_id@.len() == 2);
            assert(resource_id@[0].idx < pucch_config.pucch_resource@.len());
        }
        let cap0 = pucch_config.pucch_resource[resource_id[0].idx].max_hold_bits;
        if !over && total <= cap0 {
            resource_id[0]
        } else {
            proof {
                assert(spec_pick_multi(*pucch_config, resource_id@.drop_first(), t)
                    == resource_id@.drop_first()[0]);
                assert(resource_id@.drop_first()[0] == resource_id@[1]);
            }
            resource_id[1]
        }
    };

    let mut out: Vec<PucchLogicChannel> = Vec::new();
    proof {
        assert(views_of(out@) =~= Seq::<PucchLogicChannelView>::empty());
    }
    let mut i: usize = 0;
    while i < n
        invariant
            pucch_config.wf(),
            chs_valid(*pucch_config, vs),
            pucch_logic_channel@ == old(pucch_logic_channel)@,
            vs == views_of(pucch_logic_channel@),
            n == pucch_logic_channel@.len(),
            0 <= i <= n,
            views_of(out@) == spec_multi_kept(vs, i as int),
            chs_valid(*pucch_config, views_of(out@)),
        decreases n - i,
    {
        proof {
            assert(vs[i as int] == pucch_logic_channel@[i as int]@);
        }
        if !pucch_logic_channel[i].channel_type.is_csi() {
            let c = pucch_logic_channel[i].clone_channel();
            proof {
                assert(views_of(out@.push(c)) =~= views_of(out@).push(c@));
            }
            out.push(c);
        }
        i = i + 1;
    }
    let new_channel = PucchLogicChannel {
        channel_type: PucchChannelType::CsiMulti(all_csi_reports),
        pucch_resource_id: chosen,
    };
    proof {
        assert(new_channel@ =~= spec_multiplexed_channel(*pucch_config, vs));
        assert(views_of(out@.push(new_channel)) =~= views_of(out@).push(new_channel@));
        assert(chosen.idx < pucch_config.pucch_resource@.len());
    }
    out.push(new_channel);
    *pucch_logic_channel = out;
}

/// CSI selection (the select branch of step two): keeps the primary CSI
/// channel, the earliest of smallest priority; keeps the secondary, the
/// earliest qualifying channel of smallest priority among the rest; drops
/// every other single-CSI channel.
pub fn select_csi_pucch_proc(
    pucch_config: &PucchConfig,
    pucch_logic_channel: &mut Vec<PucchLogicChannel>,
)
    requires
        pucch_config.wf(),
        chs_valid(*pucch_config, views_of(old(pucch_logic_channel)@)),
    ensures
        views_of(final(pucch_logic_channel)@) == spec_csi_select(
            *pucch_config,
            views_of(old(pucch_logic_channel)@),
        ),
        chs_valid(*pucch_config, views_of(final(pucch_logic_channel)@)),
{
    let ghost vs = views_of(old(pucch_logic_channel)@);
    let n = pucch_logic_channel.len();

    let mut have = false;
    let mut best_idx: usize = 0;
    let mut best_pri: u32 = 0;
    let mut i: usize = 0;
    while i < n
        invariant
            pucch_logic_channel@ == old(pucch_logic_channel)@,
            vs == views_of(pucch_logic_channel@),
            n == pucch_logic_channel@.len(),
            0 <= i <= n,
            have ==> best_csi_idx(vs, i as int) == best_idx as int && best_idx < i
                && vs[best_idx as int].channel_type.is_csi() && best_pri == csi_priority(
                vs[best_idx as int],
            ),
            !have ==> best_csi_idx(vs, i as int) == -1,
        decreases n - i,
    {
        proof {
            assert(vs[i as int] == pucch_logic_channel@[i as int]@);
        }
        match &pucch_logic_channel[i].channel_type {
            PucchChannelType::Csi(r) => {
                if !have || r.priority < best_pri {
                    have = true;
                    best_idx = i;
                    best_pri = r.priority;
                }
            },
            _ => {},
        }
        i = i + 1;
    }
    let ghost pi = best_csi_idx(vs, n as int);
    if !have {
        proof {
            lemma_best_csi_none(vs, n as int);
            lemma_select_kept_keeps_all(
                vs,
                n as int,
                pi,
                best_secondary_idx(*pucch_config, vs, n as int, pi),
            );
            assert(vs.take(n as int) =~= vs);
        }
        return ;
    }

    proof {
        assert(ch_valid(*pucch_config, vs[best_idx as int]));
        assert(pucch_config.pucch_resource@[vs[best_idx as int].pucch_resource_id.idx as int].wf(
            pucch_config.pucch_formats,
        ));
    }
    let primary_resource = *pucch_logic_channel[best_idx].pucch_resource(pucch_config);
    let primary_long = matches!(primary_resource.format_type, PucchFormatType::LongPucch);

    let mut have2 = false;
    let mut best2_idx: usize = 0;
    let mut best2_pri: u32 = 0;
    let mut j: usize = 0;
    while j < n
        invariant
            pucch_config.wf(),
            chs_valid(*pucch_config, vs),
            pucch_logic_channel@ == old(pucch_logic_channel)@,
            vs == views_of(pucch_logic_channel@),
            n == pucch_logic_channel@.len(),
            0 <= j <= n,
            best_idx < n,
            pi == best_idx as int,
            primary_resource == pucch_config.pucch_resource@[vs[pi].pucch_resource_id.idx as int],
            primary_long == (spec_format_type(ch_format(*pucch_config, vs[pi])) is LongPucch),
            have2 ==> best_secondary_idx(*pucch_config, vs, j as int, pi) == best2_idx as int
                && best2_idx < j && vs[best2_idx as int].channel_type.is_csi() && best2_pri
                == csi_priority(vs[best2_idx as int]),
            !have2 ==> best_secondary_idx(*pucch_config, vs, j as int, pi) == -1,
        decreases n - j,
    {
        proof {
            assert(vs[j as int] == pucch_logic_channel@[j as int]@);
            assert(ch_valid(*pucch_config, vs[j as int]));
            assert(pucch_config.pucch_resource@[vs[j as int].pucch_resource_id.idx as int].wf(
                pucch_config.pucch_formats,
            ));
        }
        let qualifies = if j != best_idx {
            match &pucch_logic_channel[j].channel_type {
                PucchChannelType::Csi(..) => {
                    let resource = pucch_logic_channel[j].pucch_resource(pucch_config);
                    let no_overlap = !resource.is_overlap(&primary_resource);
                    let type_ok = !primary_long || matches!(
                        resource.format_type,
                        PucchFormatType::ShortPucch,
                    );
                    no_overlap && type_ok
                },
                _ => false,
            }
        } else {
            false
        };
        proof {
            assert(qualifies == secondary_ok(*pucch_config, vs, pi, j as int));
        }
        if qualifies {
            let pri = match &pucch_logic_channel[j].channel_type {
                PucchChannelType::Csi(r) => r.priority,
                _ => 0,
            };
            if !have2 || pri < best2_pri {
                have2 = true;
                best2_idx = j;
                best2_pri = pri;
            }
        }
        j = j + 1;
    }
    let ghost sec = best_secondary_idx(*pucch_config, vs, n as int, pi);

    let mut out: Vec<PucchLogicChannel> = Vec::new();
    proof {
        assert(views_of(out@) =~= Seq::<PucchLogicChannelView>::empty());
    }
    let mut i: usize = 0;
    while i < n
        invariant
            pucch_config.wf(),
            chs_valid(*pucch_config, vs),
            pucch_logic_channel@ == old(pucch_logic_channel)@,
            vs == views_of(pucch_logic_channel@),
            n == pucch_logic_channel@.len(),
            0 <= i <= n,
            best_idx < n,
            pi == best_idx as int,
            sec == (if have2 {
                best2_idx as int
            } else {
                -1int
            }),
            views_of(out@) == spec_select_kept(vs, i as int, pi, sec),
            chs_valid(*pucch_config, views_of(out@)),
        decreases n - i,
    {
        proof {
            assert(vs[i as int] == pucch_logic_channel@[i as int]@);
        }
        let keep = !pucch_logic_channel[i].channel_type.is_csi() || i == best_idx || (have2 && i
            == best2_idx);
        if keep {
            let c = pucch_logic_channel[i].clone_channel();
            proof {
                assert(views_of(out@.push(c)) =~= views_of(out@).push(c@));
            }
            out.push(c);
        }
        i = i + 1;
    }
    *pucch_logic_channel = out;
}

/// CSI reduction (step two of the pipeline): with fewer than two single-CSI
/// channels nothing changes; with a non-empty multi-CSI candidate list and
/// mutually overlapping CSI channels they are multiplexed onto one
/// candidate; otherwise at most two are selected.
pub fn csi_pucch_proc(pucch_config: &PucchConfig, pucch_logic_channel: &mut Vec<PucchLogicChannel>)
    requires
        pucch_config.wf(),
        chs_valid(*pucch_config, views_of(old(pucch_logic_channel)@)),
    ensures
        views_of(final(pucch_logic_channel)@) == spec_csi_reduce(
            *pucch_config,
            views_of(old(pucch_logic_channel)@),
        ),
        chs_valid(*pucch_config, views_of(final(pucch_logic_channel)@)),
{
    let ghost vs = views_of(old(pucch_logic_channel)@);
    let n = pucch_logic_channel.len();
    let mut count: usize = 0;
    let mut i: usize = 0;
    while i < n
        invariant
            pucch_logic_channel@ == old(pucch_logic_channel)@,
            vs == views_of(pucch_logic_channel@),
            n == pucch_logic_channel@.len(),
            0 <= i <= n,
            count <= i,
            count == csi_count(vs, i as int),
        decreases n - i,
    {
        proof {
            assert(vs[i as int] == pucch_logic_channel@[i as int]@);
        }
        if pucch_logic_channel[i].channel_type.is_csi() {
            count = count + 1;
        }
        i = i + 1;
    }
    if count < 2 {
        return ;
    }
    let do_multi = match &pucch_config.multi_csi_resource {
        Some(m) => m.len() > 0,
        None => false,
    };
    if do_multi {
        let overlapping = mutual_overlap_scan(pucch_config, pucch_logic_channel, true);
        if overlapping {
            multi_csi_pucch_proc(pucch_config, pucch_logic_channel);
        } else {
            select_csi_pucch_proc(pucch_config, pucch_logic_channel);
        }
    } else {
        select_csi_pucch_proc(pucch_config, pucch_logic_channel);
    }
}

/// The position of the first channel that is a plain HARQ-ACK channel among
/// the first `k`; -1 when there is none.
pub open spec fn first_harq_idx(s: Seq<PucchLogicChannelView>, k: int) -> int
    decreases k,
{
    if k <= 0 {
        -1
    } else {
        let rest = first_harq_idx(s, k - 1);
        if rest != -1 {
            rest
        } else if s[k - 1].channel_type.is_harq() {
            k - 1
        } else {
            -1
        }
    }
}

/// A channel that carries CSI and no HARQ-ACK.
pub open spec fn pure_csi(c: PucchLogicChannelView) -> bool {
    c.channel_type.has_csi() && !c.channel_type.has_harq()
}

/// The first `k` channels with the CSI-only channels that the
/// simultaneous-transmission rule forbids removed: all of them when
/// `drop_all` holds (a long-format HARQ-ACK resource), otherwise those whose
/// resource overlaps the HARQ-ACK resource.
pub open spec fn spec_harq_enforce_kept(
    cfg: PucchConfig,
    s: Seq<PucchLogicChannelView>,
    k: int,
    hfmt: PucchFormat,
    drop_all: bool,
) -> Seq<PucchLogicChannelView>
    decreases k,
{
    if k <= 0 {
        Seq::empty()
    } else {
        let rest = spec_harq_enforce_kept(cfg, s, k - 1, hfmt, drop_all);
        let c = s[k - 1];
        if pure_csi(c) && (drop_all || spec_overlap(ch_format(cfg, c), hfmt)) {
            rest
        } else {
            rest.push(c)
        }
    }
}

/// Enforcement keeps every channel valid.
pub proof fn lemma_harq_enforce_kept_valid(
    cfg: PucchConfig,
    s: Seq<PucchLogicChannelView>,
    k: int,
    hfmt: PucchFormat,
    drop_all: bool,
)
    requires
        chs_valid(cfg, s),
        0 <= k <= s.len(),
    ensures
        chs_valid(cfg, spec_harq_enforce_kept(cfg, s, k, hfmt, drop_all)),
    decreases k,
{
    if k > 0 {
        lemma_harq_enforce_kept_valid(cfg, s, k - 1, hfmt, drop_all);
    }
}

/// HARQ/CSI simultaneous-transmission enforcement (step three of the
/// pipeline).  The rule is keyed to the first plain HARQ-ACK channel (step
/// one leaves at most one).  When the per-format configuration of its
/// resource disallows simultaneous HARQ-ACK and CSI, every CSI-only channel
/// whose resource overlaps the HARQ-ACK resource is dropped, and every
/// CSI-only channel at all when that resource is long PUCCH.  A format-0
/// HARQ-ACK resource has no per-format configuration and is treated as
/// allowing simultaneous transmission.
pub open spec fn spec_harq_csi_enforce(cfg: PucchConfig, s: Seq<PucchLogicChannelView>) -> Seq<
    PucchLogicChannelView,
> {
    let h = first_harq_idx(s, s.len() as int);
    if h == -1 {
        s
    } else {
        let hfmt = ch_format(cfg, s[h]);
        let allowed = if hfmt is Format0 {
            true
        } else {
            spec_format_config(hfmt, cfg.pucch_formats).simul_harq_csi
        };
        if allowed {
            s
        } else {
            spec_harq_enforce_kept(
                cfg,
                s,
                s.len() as int,
                hfmt,
                spec_format_type(hfmt) is LongPucch,
            )
        }
    }
}

/// HARQ/CSI simultaneous-transmission enforcement (step three of the
/// pipeline): when the configuration of the HARQ-ACK channel's resource
/// disallows simultaneous HARQ-ACK and CSI, drops every CSI channel whose
/// resource overlaps it, and every CSI channel at all when the HARQ-ACK
/// resource is long PUCCH.
pub fn harq_csi_simul_proc(
    pucch_config: &PucchConfig,
    pucch_logic_channel: &mut Vec<PucchLogicChannel>,
)
    requires
        pucch_config.wf(),
        chs_valid(*pucch_config, views_of(old(pucch_logic_channel)@)),
    ensures
        views_of(final(pucch_logic_channel)@) == spec_harq_csi_enforce(
            *pucch_config,
            views_of(old(pucch_logic_channel)@),
        ),
        chs_valid(*pucch_config, views_of(final(pucch_logic_channel)@)),
{
    let ghost vs = views_of(old(pucch_logic_channel)@);
    let n = pucch_logic_channel.len();

    let mut found = false;
    let mut harq_idx: usize = 0;
    let mut i: usize = 0;
    while i < n
        invariant
            pucch_logic_channel@ == old(pucch_logic_channel)@,
            vs == views_of(pucch_logic_channel@),
            n == pucch_logic_channel@.len(),
            0 <= i <= n,
            found ==> first_harq_idx(vs, i as int) == harq_idx as int && harq_idx < i,
            !found ==> first_harq_idx(vs, i as int) == -1,
        decreases n - i,
    {
        proof {
            assert(vs[i as int] == pucch_logic_channel@[i as int]@);
        }
        if !found && pucch_logic_channel[i].channel_type.is_harq() {
            found = true;
            harq_idx = i;
        }
        i = i + 1;
    }
    if !found {
        return ;
    }
    let ghost h = first_harq_idx(vs, n as int);

    proof {
        assert(ch_valid(*pucch_config, vs[h]));
        assert(pucch_config.pucch_resource@[vs[h].pucch_resource_id.idx as int].wf(
            pucch_config.pucch_formats,
        ));
    }
    let harq_resource = *pucch_logic_channel[harq_idx].pucch_resource(pucch_config);
    let allowed = match &harq_resource.format {
        PucchFormat::Format0 { .. } => true,
        _ => harq_resource.pucch_format_config(&pucch_config.pucch_formats).simul_harq_csi,
    };
    if allowed {
        return ;
    }
    let drop_all = matches!(harq_resource.format_type, PucchFormatType::LongPucch);
    let ghost hfmt = ch_format(*pucch_config, vs[h]);

    let mut out: Vec<PucchLogicChannel> = Vec::new();
    proof {
        assert(views_of(out@) =~= Seq::<PucchLogicChannelView>::empty());
    }
    let mut i: usize = 0;
    while i < n
        invariant
            pucch_config.wf(),
            chs_valid(*pucch_config, vs),
            pucch_logic_channel@ == old(pucch_logic_channel)@,
            vs == views_of(pucch_logic_channel@),
            n == pucch_logic_channel@.len(),
            0 <= i <= n,
            harq_idx < n,
            h == harq_idx as int,
            hfmt == ch_format(*pucch_config, vs[h]),
            harq_resource == pucch_config.pucch_resource@[vs[h].pucch_resource_id.idx as int],
            drop_all == (spec_format_type(hfmt) is LongPucch),
            views_of(out@) == spec_harq_enforce_kept(*pucch_config, vs, i as int, hfmt, drop_all),
            chs_valid(*pucch_config, views_of(out@)),
        decreases n - i,
    {
        proof {
            assert(vs[i as int] == pucch_logic_channel@[i as int]@);
            assert(ch_valid(*pucch_config, vs[i as int]));
            assert(pucch_config.pucch_resource@[vs[i as int].pucch_resource_id.idx as int].wf(
                pucch_config.pucch_formats,
            ));
        }
        let ch = &pucch_logic_channel[i];
        let is_pure_csi = ch.channel_type.has_csi() && !ch.channel_type.has_harq();
        let dropped = is_pure_csi && (drop_all || ch.pucch_resource(pucch_config).is_overlap(
            &harq_resource,
        ));
        if !dropped {
            let c = pucch_logic_channel[i].clone_channel();
            proof {
                assert(views_of(out@.push(c)) =~= views_of(out@).push(c@));
            }
            out.push(c);
        }
        i = i + 1;
    }
    *pucch_logic_channel = out;
}

/// The whole per-slot pipeline: HARQ consolidation, then CSI reduction, then
/// HARQ/CSI simultaneous-transmission enforcement, then SR pruning, each
/// step consuming the previous step's output.
pub open spec fn spec_pucch_proc(cfg: PucchConfig, s: Seq<PucchLogicChannelView>) -> Seq<
    PucchLogicChannelView,
> {
    spec_sr_prune(
        cfg,
        spec_harq_csi_enforce(cfg, spec_csi_reduce(cfg, spec_harq_consolidate(s))),
    )
}

/// Runs the per-slot multiplexing pipeline, reducing the pending logical
/// channels to the final PUCCH transmissions.  A channel referencing a
/// position outside the resource table is a configuration/input
/// inconsistency: the channels are left untouched and the slot's PUCCH
/// opportunity should be dropped by the caller.  A final reconciliation of
/// the remaining channels against the host's transmission limit is left to
/// the host.
pub fn pucch_proc(pucch_config: &PucchConfig, pucch_logic_channel: &mut Vec<PucchLogicChannel>) -> (r:
    Result<(), Error>)
    requires
        pucch_config.wf(),
    ensures
        match r {
            Ok(_) => chs_valid(*pucch_config, views_of(old(pucch_logic_channel)@)) && views_of(
                final(pucch_logic_channel)@,
            ) == spec_pucch_proc(*pucch_config, views_of(old(pucch_logic_channel)@)),
            Err(e) => e == Error::ConfigInconsistency && !chs_valid(
                *pucch_config,
                views_of(old(pucch_logic_channel)@),
            ) && final(pucch_logic_channel)@ == old(pucch_logic_channel)@,
        },
{
    let ghost vs0 = views_of(old(pucch_logic_channel)@);
    let n = pucch_logic_channel.len();
    let pool_len = pucch_config.pucch_resource.len();
    let mut i: usize = 0;
    while i < n
        invariant
            pucch_logic_channel@ == old(pucch_logic_channel)@,
            vs0 == views_of(pucch_logic_channel@),
            n == pucch_logic_channel@.len(),
            pool_len == pucch_config.pucch_resource@.len(),
            0 <= i <= n,
            forall|j: int| 0 <= j < i ==> ch_valid(*pucch_config, #[trigger] vs0[j]),
        decreases n - i,
    {
        proof {
            assert(vs0[i as int] == pucch_logic_channel@[i as int]@);
        }
        if pucch_logic_channel[i].pucch_resource_id.idx >= pool_len {
            return Err(Error::ConfigInconsistency);
        }
        i = i + 1;
    }

    harq_consolidation_proc(pucch_logic_channel);
    proof {
        if exists|i: int| 0 <= i < vs0.len() && (#[trigger] vs0[i]).channel_type is HarqDci {
            lemma_remove_sps_valid(*pucch_config, vs0, vs0.len() as int);
        }
    }
    csi_pucch_proc(pucch_config, pucch_logic_channel);
    harq_csi_simul_proc(pucch_config, pucch_logic_channel);
    sr_pucch_proc(pucch_config, pucch_logic_channel);
    Ok(())
}

} // verus!
