//! The EQ filter chains in front of the virtual sinks: which chain to
//! rebuild, when a parameter update in place is enough, and what is recorded
//! about each sink. The caller talks to `pw-cli`, holds the band values and
//! reports how each rebuild went.
use vstd::prelude::*;

use crate::audio::persistence::{
    drop_key, find_value, get, insert_key, kv_view, lemma_drop_key_generic, lemma_insert_key_unique,
    keys_unique, pairs_map, pairs_view, remove_key,
};
use crate::audio::router::{needs_rebuild, needs_rebuild_spec};
use crate::eq::model::FilterType;
use crate::eq::spatial::{active_spatial_ir, active_spatial_spec, SpatialProfile};

verus! {

/// A loaded filter chain: the module `pw-cli` created it as and, when it was
/// found, the capture node whose parameters can be set in place.
#[derive(Debug, Clone, Copy, PartialEq, Eq, Structural)]
pub struct ChainInfo {
    pub module_id: u32,
    pub capture_node: Option<u32>,
}

impl View for ChainInfo {
    type V = ChainInfo;

    open spec fn view(&self) -> ChainInfo {
        *self
    }
}

/// The spatial switch and profile of one sink (the wet mix is the caller's).
#[derive(Debug, Clone, Copy, PartialEq, Eq, Structural)]
pub struct SpatialSwitch {
    pub enabled: bool,
    pub profile: SpatialProfile,
}

impl View for SpatialSwitch {
    type V = SpatialSwitch;

    open spec fn view(&self) -> SpatialSwitch {
        *self
    }
}

/// What is known of the chains: the headset (the default output), the loaded
/// chains, the band shapes each loaded chain was built or updated with
/// (enabled flag and filter type per band), each sink's spatial switch and
/// each sink's output target.
pub struct EqChains {
    pub headset: String,
    pub chains: Vec<(String, ChainInfo)>,
    pub bands: Vec<(String, Vec<(bool, FilterType)>)>,
    pub spatial: Vec<(String, SpatialSwitch)>,
    pub targets: Vec<(String, String)>,
}

pub struct EqChainsView {
    pub headset: Seq<char>,
    pub chains: Map<Seq<char>, ChainInfo>,
    pub bands: Map<Seq<char>, Seq<(bool, FilterType)>>,
    pub spatial: Map<Seq<char>, SpatialSwitch>,
    pub targets: Map<Seq<char>, Seq<char>>,
}

impl View for EqChains {
    type V = EqChainsView;

    open spec fn view(&self) -> EqChainsView {
        EqChainsView {
            headset: self.headset@,
            chains: pairs_map(kv_view(self.chains@)),
            bands: pairs_map(kv_view(self.bands@)),
            spatial: pairs_map(kv_view(self.spatial@)),
            targets: pairs_map(pairs_view(self.targets@)),
        }
    }
}

/// A chain to tear down and build again. The caller destroys `old_module`
/// and the chain's nodes, builds the chain for `sink` into `target` (with
/// the event's bands when `use_new_bands`, else with the sink's bands or the
/// defaults), convolving with `spatial`'s impulse response when that is set
/// and can be extracted, and reports the outcome to `finish_rebuild`.
pub struct RebuildPlan {
    pub sink: String,
    pub target: String,
    pub old_module: Option<u32>,
    pub spatial: Option<SpatialProfile>,
    pub use_new_bands: bool,
    /// Band shapes to record when the chain loads.
    pub record: Option<Vec<(bool, FilterType)>>,
    /// Spatial switch to record when the chain loads.
    pub record_switch: Option<SpatialSwitch>,
    /// Whether a failed load forgets the sink's bands.
    pub forget_on_failure: bool,
}

pub struct PlanView {
    pub sink: Seq<char>,
    pub target: Seq<char>,
    pub old_module: Option<u32>,
    pub spatial: Option<SpatialProfile>,
    pub use_new_bands: bool,
    pub record: Option<Seq<(bool, FilterType)>>,
    pub record_switch: Option<SpatialSwitch>,
    pub forget_on_failure: bool,
}

pub open spec fn plan_view(p: RebuildPlan) -> PlanView {
    PlanView {
        sink: p.sink@,
        target: p.target@,
        old_module: p.old_module,
        spatial: p.spatial,
        use_new_bands: p.use_new_bands,
        record: match p.record {
            Some(l) => Some(l@),
            None => None,
        },
        record_switch: p.record_switch,
        forget_on_failure: p.forget_on_failure,
    }
}

/// What the caller does for an event.
pub enum EqAction {
    Nothing,
    Rebuild(RebuildPlan),
    /// Push the new band parameters to the chain's capture node; `spatial`
    /// names the profile whose impulse response is in the chain, if spatial
    /// applies.
    SetParams { node: u32, spatial: Option<SpatialProfile> },
    /// Push the new wet mix to the chain's capture node.
    SetWet { node: u32 },
}

pub enum ActionView {
    Nothing,
    Rebuild(PlanView),
    SetParams { node: u32, spatial: Option<SpatialProfile> },
    SetWet { node: u32 },
}

pub open spec fn action_view(a: EqAction) -> ActionView {
    match a {
        EqAction::Nothing => ActionView::Nothing,
        EqAction::Rebuild(p) => ActionView::Rebuild(plan_view(p)),
        EqAction::SetParams { node, spatial } => ActionView::SetParams { node, spatial },
        EqAction::SetWet { node } => ActionView::SetWet { node },
    }
}

/// The microphone has no filter chain: it is linked with `pw-link`.
pub open spec fn mic_name() -> Seq<char> {
    "SteelSeries_Mic"@
}

/// The default bands: ten enabled peaking filters.
pub open spec fn default_labels() -> Seq<(bool, FilterType)> {
    Seq::new(10, |i: int| (true, FilterType::Peaking))
}

pub open spec fn target_of(v: EqChainsView, sink: Seq<char>) -> Seq<char> {
    if v.targets.dom().contains(sink) {
        v.targets[sink]
    } else {
        v.headset
    }
}

pub open spec fn switch_of(v: EqChainsView, sink: Seq<char>) -> SpatialSwitch {
    if v.spatial.dom().contains(sink) {
        v.spatial[sink]
    } else {
        SpatialSwitch { enabled: false, profile: SpatialProfile::Gsx }
    }
}

pub open spec fn labels_of(v: EqChainsView, sink: Seq<char>) -> Seq<(bool, FilterType)> {
    if v.bands.dom().contains(sink) {
        v.bands[sink]
    } else {
        default_labels()
    }
}

pub open spec fn old_module_of(v: EqChainsView, sink: Seq<char>) -> Option<u32> {
    if v.chains.dom().contains(sink) {
        Some(v.chains[sink].module_id)
    } else {
        None
    }
}

pub open spec fn spatial_for(sink: Seq<char>, sw: SpatialSwitch) -> Option<SpatialProfile> {
    active_spatial_spec(sink, sw.enabled, sw.profile)
}

/// A rebuild of `sink`'s chain: the chain is dropped from the record at
/// once, since the caller destroys it first.
pub open spec fn rebuild_of(
    v: EqChainsView,
    sink: Seq<char>,
    sw: SpatialSwitch,
    use_new_bands: bool,
    record: Option<Seq<(bool, FilterType)>>,
    forget_on_failure: bool,
) -> (EqChainsView, ActionView) {
    (
        EqChainsView { chains: v.chains.remove(sink), ..v },
        ActionView::Rebuild(
            PlanView {
                sink,
                target: target_of(v, sink),
                old_module: old_module_of(v, sink),
                spatial: spatial_for(sink, sw),
                use_new_bands,
                record,
                record_switch: None,
                forget_on_failure,
            },
        ),
    )
}

/// New bands for `sink` (`labels` are their shapes; `unchanged` says
/// whether every band value equals the bands loaded now). The mic and
/// unchanged bands are ignored. A sink without a chain, or whose band
/// shapes changed, is rebuilt (a failure forgets its bands); otherwise the
/// parameters are set in place, or, when the chain's capture node is not
/// known, the chain is rebuilt.
pub open spec fn apply_spec(v: EqChainsView, sink: Seq<char>, labels: Seq<(bool, FilterType)>, unchanged: bool) -> (EqChainsView, ActionView) {
    if sink == mic_name() {
        (v, ActionView::Nothing)
    } else if v.bands.dom().contains(sink) && unchanged {
        (v, ActionView::Nothing)
    } else {
        let sw = switch_of(v, sink);
        let rebuild = !v.chains.dom().contains(sink) || (v.bands.dom().contains(sink) && needs_rebuild_spec(
            v.bands[sink],
            labels,
        ));
        if rebuild {
            rebuild_of(v, sink, sw, true, Some(labels), true)
        } else {
            match v.chains[sink].capture_node {
                Some(n) => (
                    EqChainsView { bands: v.bands.insert(sink, labels), ..v },
                    ActionView::SetParams { node: n, spatial: spatial_for(sink, sw) },
                ),
                None => rebuild_of(v, sink, sw, true, Some(labels), false),
            }
        }
    }
}

/// A new output target for `sink`: it is recorded and the chain rebuilt
/// into it with the sink's bands (the defaults when none are recorded),
/// which are recorded again when the chain loads.
pub open spec fn reroute_spec(v: EqChainsView, sink: Seq<char>, target: Seq<char>) -> (EqChainsView, ActionView) {
    let v1 = EqChainsView { targets: v.targets.insert(sink, target), ..v };
    rebuild_of(v1, sink, switch_of(v, sink), false, Some(labels_of(v, sink)), false)
}

/// Whether the chain's layout stays: it depends on the switch and, when on,
/// the profile; the wet mix is a parameter of the chain.
pub open spec fn same_layout(prev: SpatialSwitch, next: SpatialSwitch) -> bool {
    (!prev.enabled && !next.enabled) || (prev.enabled && next.enabled && prev.profile == next.profile)
}

/// A new spatial setting for `sink` (`wet_changed` says whether the wet mix
/// moved). The mic is ignored. The switch is always recorded; a change of
/// layout rebuilds the chain, and otherwise a moved wet mix of an enabled
/// sink is set in place when the capture node is known.
pub open spec fn set_spatial_spec(v: EqChainsView, sink: Seq<char>, sw: SpatialSwitch, wet_changed: bool) -> (EqChainsView, ActionView) {
    if sink == mic_name() {
        (v, ActionView::Nothing)
    } else {
        let prev = switch_of(v, sink);
        let v1 = EqChainsView { spatial: v.spatial.insert(sink, sw), ..v };
        if same_layout(prev, sw) {
            if sw.enabled && wet_changed && v.chains.dom().contains(sink) && v.chains[sink].capture_node is Some {
                (v1, ActionView::SetWet { node: v.chains[sink].capture_node->0 })
            } else {
                (v1, ActionView::Nothing)
            }
        } else {
            rebuild_of(v1, sink, sw, false, None, false)
        }
    }
}

/// The first load of `sink`'s chain at start-up: its target defaults to the
/// headset, nothing is torn down, and the bands and switch are recorded when
/// the chain loads.
pub open spec fn start_spec(v: EqChainsView, sink: Seq<char>, labels: Seq<(bool, FilterType)>, sw: SpatialSwitch) -> (EqChainsView, PlanView) {
    let v1 = if v.targets.dom().contains(sink) {
        v
    } else {
        EqChainsView { targets: v.targets.insert(sink, v.headset), ..v }
    };
    (
        v1,
        PlanView {
            sink,
            target: target_of(v1, sink),
            old_module: None,
            spatial: spatial_for(sink, sw),
            use_new_bands: true,
            record: Some(labels),
            record_switch: Some(sw),
            forget_on_failure: false,
        },
    )
}

/// How a rebuild went: a loaded chain is recorded with what the plan says
/// to record; a failure forgets the bands when the plan says so.
pub open spec fn finish_spec(v: EqChainsView, p: PlanView, outcome: Option<ChainInfo>) -> EqChainsView {
    match outcome {
        Some(info) => EqChainsView {
            chains: v.chains.insert(p.sink, info),
            bands: match p.record {
                Some(l) => v.bands.insert(p.sink, l),
                None => v.bands,
            },
            spatial: match p.record_switch {
                Some(sw) => v.spatial.insert(p.sink, sw),
                None => v.spatial,
            },
            ..v
        },
        None => if p.forget_on_failure {
            EqChainsView { bands: v.bands.remove(p.sink), ..v }
        } else {
            v
        },
    }
}

/// The microphone's chain is never touched: neither new bands nor a new
/// spatial setting for it change anything or ask for any work.
pub proof fn law_mic_is_left_alone(
    v: EqChainsView,
    labels: Seq<(bool, FilterType)>,
    unchanged: bool,
    sw: SpatialSwitch,
    wet_changed: bool,
)
    ensures
        apply_spec(v, mic_name(), labels, unchanged) == (v, ActionView::Nothing),
        set_spatial_spec(v, mic_name(), sw, wet_changed) == (v, ActionView::Nothing),
{
}

/// Once new bands took effect (set in place, or a rebuild that loaded),
/// sending the same bands again does nothing.
pub proof fn law_same_bands_again_do_nothing(
    v: EqChainsView,
    sink: Seq<char>,
    labels: Seq<(bool, FilterType)>,
    unchanged: bool,
    info: ChainInfo,
)
    ensures
        ({
            let (v1, a) = apply_spec(v, sink, labels, unchanged);
            match a {
                ActionView::SetParams { .. } => apply_spec(v1, sink, labels, true) == (v1, ActionView::Nothing),
                ActionView::Rebuild(p) => {
                    let v2 = finish_spec(v1, p, Some(info));
                    apply_spec(v2, sink, labels, true) == (v2, ActionView::Nothing)
                },
                _ => true,
            }
        }),
{
}

/// A change of the wet mix alone never rebuilds a chain (no audio gap).
pub proof fn law_wet_mix_alone_never_rebuilds(v: EqChainsView, sink: Seq<char>, sw: SpatialSwitch, wet_changed: bool)
    requires
        switch_of(v, sink) == sw,
    ensures
        !(set_spatial_spec(v, sink, sw, wet_changed).1 is Rebuild),
{
}

/// A reroute records the new target and rebuilds the chain into it.
pub proof fn law_reroute_rebuilds_into_target(v: EqChainsView, sink: Seq<char>, target: Seq<char>)
    ensures
        reroute_spec(v, sink, target).0.targets[sink] == target,
        reroute_spec(v, sink, target).1 matches ActionView::Rebuild(p) && p.target == target && p.sink == sink,
{
}

/// Look a key up in a keyed list of plain values.
fn lookup<V: Copy + View>(v: &Vec<(String, V)>, k: &String) -> (r: Option<V>)
    ensures
        match r {
            Some(x) => get(kv_view(v@), k@) == Some(x@),
            None => get(kv_view(v@), k@) is None,
        },
{
    let ghost l = kv_view(v@);
    let mut i: usize = v.len();
    assert(l.take(i as int) =~= l);
    while i > 0
        invariant
            i <= v.len(),
            l == kv_view(v@),
            get(l, k@) == get(l.take(i as int), k@),
        decreases i,
    {
        let ghost t = l.take(i as int);
        assert(t.drop_last() =~= l.take(i - 1));
        assert(t.last() == (v@[i - 1].0@, v@[i - 1].1@));
        if v[i - 1].0 == *k {
            return Some(v[i - 1].1);
        }
        i = i - 1;
    }
    assert(pairs_map(l.take(0)) == Map::<Seq<char>, V::V>::empty());
    None
}

fn copy_labels(v: &Vec<(bool, FilterType)>) -> (r: Vec<(bool, FilterType)>)
    ensures
        r@ == v@,
{
    let mut out: Vec<(bool, FilterType)> = Vec::new();
    let mut i: usize = 0;
    while i < v.len()
        invariant
            i <= v.len(),
            out@ == v@.take(i as int),
        decreases v.len() - i,
    {
        out.push(v[i]);
        assert(out@ =~= v@.take(i + 1));
        i = i + 1;
    }
    assert(v@.take(v.len() as int) =~= v@);
    out
}

/// The band shapes recorded for `sink`.
fn lookup_labels(v: &Vec<(String, Vec<(bool, FilterType)>)>, k: &String) -> (r: Option<Vec<(bool, FilterType)>>)
    ensures
        match r {
            Some(x) => get(kv_view(v@), k@) == Some(x@),
            None => get(kv_view(v@), k@) is None,
        },
{
    let ghost l = kv_view(v@);
    let mut i: usize = v.len();
    assert(l.take(i as int) =~= l);
    while i > 0
        invariant
            i <= v.len(),
            l == kv_view(v@),
            get(l, k@) == get(l.take(i as int), k@),
        decreases i,
    {
        let ghost t = l.take(i as int);
        assert(t.drop_last() =~= l.take(i - 1));
        assert(t.last() == (v@[i - 1].0@, v@[i - 1].1@));
        if v[i - 1].0 == *k {
            return Some(copy_labels(&v[i - 1].1));
        }
        i = i - 1;
    }
    assert(pairs_map(l.take(0)) == Map::<Seq<char>, Seq<(bool, FilterType)>>::empty());
    None
}

fn default_labels_exec() -> (r: Vec<(bool, FilterType)>)
    ensures
        r@ == default_labels(),
{
    let mut out: Vec<(bool, FilterType)> = Vec::new();
    let mut i: usize = 0;
    while i < 10
        invariant
            i <= 10,
            out@ == default_labels().take(i as int),
        decreases 10 - i,
    {
        out.push((true, FilterType::Peaking));
        assert(out@ =~= default_labels().take(i + 1));
        i = i + 1;
    }
    assert(default_labels().take(10) =~= default_labels());
    out
}

impl EqChains {
    /// Well-formed: no sink occurs twice in any of the lists, so that each
    /// list is a map from sink to value.
    pub open spec fn wf(&self) -> bool {
        &&& keys_unique(kv_view(self.chains@))
        &&& keys_unique(kv_view(self.bands@))
        &&& keys_unique(kv_view(self.spatial@))
        &&& keys_unique(pairs_view(self.targets@))
    }

    /// No chain loaded yet; `targets` are the saved output targets (of a
    /// sink listed twice, the later target counts).
    pub fn new(headset: String, targets: Vec<(String, String)>) -> (r: EqChains)
        ensures
            r.wf(),
            r@.headset == headset@,
            r@.chains == Map::<Seq<char>, ChainInfo>::empty(),
            r@.bands == Map::<Seq<char>, Seq<(bool, FilterType)>>::empty(),
            r@.spatial == Map::<Seq<char>, SpatialSwitch>::empty(),
            r@.targets == pairs_map(pairs_view(targets@)),
    {
        let mut t: Vec<(String, String)> = Vec::new();
        let mut i: usize = 0;
        while i < targets.len()
            invariant
                i <= targets.len(),
                keys_unique(pairs_view(t@)),
                pairs_map(pairs_view(t@)) == pairs_map(pairs_view(targets@).take(i as int)),
            decreases targets.len() - i,
        {
            let ghost before = pairs_view(t@);
            let k = targets[i].0.clone();
            let v = targets[i].1.clone();
            let ghost kv = k@;
            let ghost vv = v@;
            insert_key(&mut t, k, v);
            proof {
                lemma_insert_key_unique(before, kv, vv);
                let l = pairs_view(targets@).take(i + 1);
                assert(l.drop_last() =~= pairs_view(targets@).take(i as int));
                assert(l.last() == (kv, vv));
            }
            i = i + 1;
        }
        assert(pairs_view(targets@).take(targets.len() as int) =~= pairs_view(targets@));
        let r = EqChains { headset, chains: Vec::new(), bands: Vec::new(), spatial: Vec::new(), targets: t };
        assert(kv_view(r.chains@) =~= Seq::<(Seq<char>, ChainInfo)>::empty());
        assert(kv_view(r.bands@) =~= Seq::<(Seq<char>, Seq<(bool, FilterType)>)>::empty());
        assert(kv_view(r.spatial@) =~= Seq::<(Seq<char>, SpatialSwitch)>::empty());
        r
    }

    fn target_for(&self, sink: &String) -> (r: String)
        ensures
            r@ == target_of(self@, sink@),
    {
        match find_value(&self.targets, sink) {
            Some(t) => t,
            None => self.headset.clone(),
        }
    }

    fn switch_for(&self, sink: &String) -> (r: SpatialSwitch)
        ensures
            r == switch_of(self@, sink@),
    {
        match lookup(&self.spatial, sink) {
            Some(s) => s,
            None => SpatialSwitch { enabled: false, profile: SpatialProfile::Gsx },
        }
    }

    /// Drop `sink`'s chain from the record and plan its rebuild.
    fn plan_rebuild(
        &mut self,
        sink: &String,
        sw: SpatialSwitch,
        use_new_bands: bool,
        record: Option<Vec<(bool, FilterType)>>,
        forget_on_failure: bool,
    ) -> (a: EqAction)
        requires
            old(self).wf(),
        ensures
            final(self).wf(),
            (final(self)@, action_view(a)) == rebuild_of(
                old(self)@,
                sink@,
                sw,
                use_new_bands,
                match record {
                    Some(l) => Some(l@),
                    None => None,
                },
                forget_on_failure,
            ),
    {
        let target = self.target_for(sink);
        let old_module = match lookup(&self.chains, sink) {
            Some(c) => Some(c.module_id),
            None => None,
        };
        let spatial = active_spatial_ir(sink.as_str(), sw.enabled, sw.profile);
        let ghost before = kv_view(self.chains@);
        remove_key(&mut self.chains, sink);
        proof {
            lemma_drop_key_generic(before, sink@);
        }
        EqAction::Rebuild(
            RebuildPlan {
                sink: sink.clone(),
                target,
                old_module,
                spatial,
                use_new_bands,
                record,
                record_switch: None,
                forget_on_failure,
            },
        )
    }

    /// New bands for `sink` (see `apply_spec`).
    pub fn apply(&mut self, sink: &String, labels: Vec<(bool, FilterType)>, unchanged: bool) -> (a: EqAction)
        requires
            old(self).wf(),
        ensures
            final(self).wf(),
            (final(self)@, action_view(a)) == apply_spec(old(self)@, sink@, labels@, unchanged),
    {
        let ghost v = self@;
        proof {
            reveal_strlit("SteelSeries_Mic");
        }
        let is_mic = crate::text::chars_eq_str(&crate::text::chars_of(sink.as_str()), "SteelSeries_Mic");
        if is_mic {
            return EqAction::Nothing;
        }
        let cur = lookup_labels(&self.bands, sink);
        if cur.is_some() && unchanged {
            return EqAction::Nothing;
        }
        let sw = self.switch_for(sink);
        let chain = lookup(&self.chains, sink);
        let rebuild = match chain {
            None => true,
            Some(_) => match &cur {
                Some(c) => needs_rebuild(c, &labels),
                None => false,
            },
        };
        if rebuild {
            return self.plan_rebuild(sink, sw, true, Some(labels), true);
        }
        let info = chain.unwrap();
        match info.capture_node {
            Some(n) => {
                let ghost before = kv_view(self.bands@);
                let ghost lv = labels@;
                insert_key(&mut self.bands, sink.clone(), labels);
                proof {
                    lemma_insert_key_unique(before, sink@, lv);
                }
                EqAction::SetParams { node: n, spatial: active_spatial_ir(sink.as_str(), sw.enabled, sw.profile) }
            },
            None => self.plan_rebuild(sink, sw, true, Some(labels), false),
        }
    }
    /// A new output target for `sink` (see `reroute_spec`).
    pub fn reroute(&mut self, sink: &String, target: String) -> (a: EqAction)
        requires
            old(self).wf(),
        ensures
            final(self).wf(),
            (final(self)@, action_view(a)) == reroute_spec(old(self)@, sink@, target@),
    {
        let sw = self.switch_for(sink);
        let labels = match lookup_labels(&self.bands, sink) {
            Some(l) => l,
            None => default_labels_exec(),
        };
        let ghost before = pairs_view(self.targets@);
        let ghost tv = target@;
        insert_key(&mut self.targets, sink.clone(), target);
        proof {
            lemma_insert_key_unique(before, sink@, tv);
        }
        self.plan_rebuild(sink, sw, false, Some(labels), false)
    }

    /// A new spatial setting for `sink` (see `set_spatial_spec`).
    pub fn set_spatial(&mut self, sink: &String, sw: SpatialSwitch, wet_changed: bool) -> (a: EqAction)
        requires
            old(self).wf(),
        ensures
            final(self).wf(),
            (final(self)@, action_view(a)) == set_spatial_spec(old(self)@, sink@, sw, wet_changed),
    {
        proof {
            reveal_strlit("SteelSeries_Mic");
        }
        let is_mic = crate::text::chars_eq_str(&crate::text::chars_of(sink.as_str()), "SteelSeries_Mic");
        if is_mic {
            return EqAction::Nothing;
        }
        let prev = self.switch_for(sink);
        let chain = lookup(&self.chains, sink);
        let ghost before = kv_view(self.spatial@);
        insert_key(&mut self.spatial, sink.clone(), sw);
        proof {
            lemma_insert_key_unique(before, sink@, sw);
        }
        let same = (!prev.enabled && !sw.enabled) || (prev.enabled && sw.enabled && prev.profile == sw.profile);
        if same {
            if sw.enabled && wet_changed {
                match chain {
                    Some(c) => match c.capture_node {
                        Some(n) => EqAction::SetWet { node: n },
                        None => EqAction::Nothing,
                    },
                    None => EqAction::Nothing,
                }
            } else {
                EqAction::Nothing
            }
        } else {
            self.plan_rebuild(sink, sw, false, None, false)
        }
    }

    /// Plan the first load of `sink`'s chain (see `start_spec`).
    pub fn start(&mut self, sink: &String, labels: Vec<(bool, FilterType)>, sw: SpatialSwitch) -> (p: RebuildPlan)
        requires
            old(self).wf(),
        ensures
            final(self).wf(),
            (final(self)@, plan_view(p)) == start_spec(old(self)@, sink@, labels@, sw),
    {
        match find_value(&self.targets, sink) {
            Some(_) => {},
            None => {
                let ghost before = pairs_view(self.targets@);
                let h = self.headset.clone();
                let ghost hv = h@;
                insert_key(&mut self.targets, sink.clone(), h);
                proof {
                    lemma_insert_key_unique(before, sink@, hv);
                }
            },
        }
        let target = self.target_for(sink);
        RebuildPlan {
            sink: sink.clone(),
            target,
            old_module: None,
            spatial: active_spatial_ir(sink.as_str(), sw.enabled, sw.profile),
            use_new_bands: true,
            record: Some(labels),
            record_switch: Some(sw),
            forget_on_failure: false,
        }
    }

    /// Record how a planned rebuild went (see `finish_spec`).
    pub fn finish_rebuild(&mut self, plan: &RebuildPlan, outcome: Option<ChainInfo>)
        requires
            old(self).wf(),
        ensures
            final(self).wf(),
            final(self)@ == finish_spec(old(self)@, plan_view(*plan), outcome),
    {
        match outcome {
            Some(info) => {
                let ghost c0 = kv_view(self.chains@);
                insert_key(&mut self.chains, plan.sink.clone(), info);
                proof {
                    lemma_insert_key_unique(c0, plan.sink@, info);
                }
                match &plan.record {
                    Some(l) => {
                        let ghost b0 = kv_view(self.bands@);
                        let lc = copy_labels(l);
                        let ghost lv = lc@;
                        insert_key(&mut self.bands, plan.sink.clone(), lc);
                        proof {
                            lemma_insert_key_unique(b0, plan.sink@, lv);
                        }
                    },
                    None => {},
                }
                match plan.record_switch {
                    Some(sw) => {
                        let ghost s0 = kv_view(self.spatial@);
                        insert_key(&mut self.spatial, plan.sink.clone(), sw);
                        proof {
                            lemma_insert_key_unique(s0, plan.sink@, sw);
                        }
                    },
                    None => {},
                }
            },
            None => {
                if plan.forget_on_failure {
                    let ghost b0 = kv_view(self.bands@);
                    remove_key(&mut self.bands, &plan.sink);
                    proof {
                        lemma_drop_key_generic(b0, plan.sink@);
                    }
                }
            },
        }
    }
}

} // verus!
