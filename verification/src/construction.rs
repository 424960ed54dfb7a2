//! Bookkeeping of what is being built and trained, and which unfinished
//! structures need a worker or should be cancelled.
use vstd::prelude::*;
use crate::unit_types::{
    ARMORY, BARRACKS, COMMAND_CENTER, ENGINEERING_BAY, FACTORY, REFINERY, REFINERY_RICH, STARPORT, SUPPLY_DEPOT,
    is_addon,
};
use crate::vec_map::VecMap;
use crate::seq_util::{keep, lemma_keep};

verus! {

/// Game loops in five seconds: a worker sent to build is forgotten after this.
pub const BUILD_ORDER_LOOPS: u32 = 112;

/// Game loops in one second (rounded down): a training order is forgotten after this.
pub const TRAIN_ORDER_LOOPS: u32 = 22;

/// A worker sent to build a structure.
#[derive(Clone, Copy, Debug, PartialEq, Eq, Structural)]
pub struct UnderConstruction {
    pub worker_tag: u64,
    pub structure: u32,
    pub time_started: u32,
}

/// A unit ordered from a production structure.
#[derive(Clone, Copy, Debug, PartialEq, Eq, Structural)]
pub struct InTraining {
    pub unit: u32,
    pub time_started: u32,
}

/// What is being built and trained.
pub struct ConstructionInfo {
    pub under_construction: Vec<UnderConstruction>,
    /// Unfinished structures and the worker sent to finish each.
    pub structures_being_finished: VecMap<u64>,
    pub in_training: Vec<InTraining>,
}

pub open spec fn build_expired(u: UnderConstruction, now: u32) -> bool {
    now as int - u.time_started as int > BUILD_ORDER_LOOPS as int
}

pub open spec fn build_expired_at(now: u32) -> spec_fn(UnderConstruction) -> bool {
    |u: UnderConstruction| build_expired(u, now)
}

pub open spec fn train_expired_at(now: u32) -> spec_fn(InTraining) -> bool {
    |t: InTraining| train_expired(t, now)
}

pub open spec fn train_expired(t: InTraining, now: u32) -> bool {
    now as int - t.time_started as int > TRAIN_ORDER_LOOPS as int
}

/// An entry stays unless some expired entry has the same worker.
pub open spec fn keeps_building(s: Seq<UnderConstruction>, now: u32, u: UnderConstruction) -> bool {
    !exists|j: int| 0 <= j < s.len() && build_expired(s[j], now) && #[trigger] s[j].worker_tag == u.worker_tag
}

/// An entry stays unless some expired entry has the same unit type.
pub open spec fn keeps_training(s: Seq<InTraining>, now: u32, t: InTraining) -> bool {
    !exists|j: int| 0 <= j < s.len() && train_expired(s[j], now) && #[trigger] s[j].unit == t.unit
}

pub open spec fn kept_building(s: Seq<UnderConstruction>, now: u32, upto: int) -> Seq<UnderConstruction>
    decreases upto,
{
    if upto <= 0 {
        seq![]
    } else {
        kept_building(s, now, upto - 1) + if keeps_building(s, now, s[upto - 1]) {
            seq![s[upto - 1]]
        } else {
            seq![]
        }
    }
}

pub open spec fn kept_training(s: Seq<InTraining>, now: u32, upto: int) -> Seq<InTraining>
    decreases upto,
{
    if upto <= 0 {
        seq![]
    } else {
        kept_training(s, now, upto - 1) + if keeps_training(s, now, s[upto - 1]) {
            seq![s[upto - 1]]
        } else {
            seq![]
        }
    }
}

impl ConstructionInfo {
    pub fn new() -> (c: ConstructionInfo)
        ensures
            c.under_construction@.len() == 0,
            c.in_training@.len() == 0,
            c.structures_being_finished.wf(),
            c.structures_being_finished@ == Map::<u64, u64>::empty(),
    {
        ConstructionInfo {
            under_construction: Vec::new(),
            structures_being_finished: VecMap::new(),
            in_training: Vec::new(),
        }
    }

    /// Whether a structure of the kind has a worker on its way.
    pub fn is_under_construction(&self, structure: u32) -> (r: bool)
        ensures
            r == exists|i: int| 0 <= i < self.under_construction@.len() && #[trigger] self.under_construction@[i].structure
                == structure,
    {
        let mut i: usize = 0;
        while i < self.under_construction.len()
            invariant
                i <= self.under_construction.len(),
                forall|j: int| 0 <= j < i ==> #[trigger] self.under_construction@[j].structure != structure,
            decreases self.under_construction.len() - i,
        {
            if self.under_construction[i].structure == structure {
                return true;
            }
            i += 1;
        }
        false
    }

    /// Whether a unit of the type has just been ordered.
    pub fn is_in_training(&self, unit: u32) -> (r: bool)
        ensures
            r == exists|i: int| 0 <= i < self.in_training@.len() && #[trigger] self.in_training@[i].unit == unit,
    {
        let mut i: usize = 0;
        while i < self.in_training.len()
            invariant
                i <= self.in_training.len(),
                forall|j: int| 0 <= j < i ==> #[trigger] self.in_training@[j].unit != unit,
            decreases self.in_training.len() - i,
        {
            if self.in_training[i].unit == unit {
                return true;
            }
            i += 1;
        }
        false
    }

    /// Records a training order.
    pub fn add_to_in_training(&mut self, unit: u32, now: u32)
        ensures
            final(self).in_training@ == old(self).in_training@.push(InTraining { unit, time_started: now }),
            final(self).under_construction@ == old(self).under_construction@,
            final(self).structures_being_finished == old(self).structures_being_finished,
    {
        self.in_training.push(InTraining { unit, time_started: now });
    }

    /// Records a worker sent to build.
    pub fn add_under_construction(&mut self, worker_tag: u64, structure: u32, now: u32)
        ensures
            final(self).under_construction@ == old(self).under_construction@.push(
                UnderConstruction { worker_tag, structure, time_started: now },
            ),
            final(self).in_training@ == old(self).in_training@,
            final(self).structures_being_finished == old(self).structures_being_finished,
    {
        self.under_construction.push(UnderConstruction { worker_tag, structure, time_started: now });
    }

    /// Records the worker sent to finish a structure.
    pub fn add_structure_being_finished(&mut self, structure_tag: u64, worker_tag: u64)
        requires
            old(self).structures_being_finished.wf(),
        ensures
            final(self).structures_being_finished.wf(),
            final(self).structures_being_finished@ == old(self).structures_being_finished@.insert(
                structure_tag,
                worker_tag,
            ),
            final(self).in_training@ == old(self).in_training@,
            final(self).under_construction@ == old(self).under_construction@,
    {
        self.structures_being_finished.insert(structure_tag, worker_tag);
    }

    /// Forgets build orders older than five seconds (with every other order
    /// of the same worker) and training orders older than a second (with every
    /// other order of the same unit type).
    pub fn construction_info_step(&mut self, now: u32)
        ensures
            final(self).under_construction@ == kept_building(
                old(self).under_construction@,
                now,
                old(self).under_construction@.len() as int,
            ),
            final(self).in_training@ == kept_training(old(self).in_training@, now, old(self).in_training@.len() as int),
            final(self).structures_being_finished == old(self).structures_being_finished,
    {
        let uc = &self.under_construction;
        let ghost pb = build_expired_at(now);
        let mut expired_workers: Vec<u64> = Vec::new();
        let mut i: usize = 0;
        while i < uc.len()
            invariant
                i <= uc.len(),
                pb == build_expired_at(now),
                expired_workers@ == keep(uc@.take(i as int), pb).map_values(|u: UnderConstruction| u.worker_tag),
            decreases uc.len() - i,
        {
            proof {
                assert(uc@.take(i + 1).drop_last() =~= uc@.take(i as int));
            }
            let u = uc[i];
            if now > u.time_started && now - u.time_started > BUILD_ORDER_LOOPS {
                expired_workers.push(u.worker_tag);
            }
            proof {
                assert(expired_workers@ =~= keep(uc@.take(i + 1), pb).map_values(|u: UnderConstruction| u.worker_tag));
            }
            i += 1;
        }
        proof {
            assert(uc@.take(uc.len() as int) =~= uc@);
            lemma_keep(uc@, pb);
            let e = keep(uc@, pb);
            assert forall|w: u64| #[trigger] expired_workers@.contains(w) <==> exists|j: int|
                0 <= j < uc@.len() && build_expired(uc@[j], now) && #[trigger] uc@[j].worker_tag == w by {
                if expired_workers@.contains(w) {
                    let k = choose|k: int| 0 <= k < expired_workers@.len() && expired_workers@[k] == w;
                    assert(e.contains(e[k]));
                    let j = choose|j: int| 0 <= j < uc@.len() && uc@[j] == e[k];
                    assert(uc@[j].worker_tag == w);
                }
                if exists|j: int| 0 <= j < uc@.len() && build_expired(uc@[j], now) && #[trigger] uc@[j].worker_tag == w {
                    let j = choose|j: int| 0 <= j < uc@.len() && build_expired(uc@[j], now) && #[trigger] uc@[j].worker_tag == w;
                    assert(uc@.contains(uc@[j]));
                    assert(e.contains(uc@[j]));
                    let k = choose|k: int| 0 <= k < e.len() && e[k] == uc@[j];
                    assert(expired_workers@[k] == w);
                }
            }
        }
        let mut kept: Vec<UnderConstruction> = Vec::new();
        i = 0;
        while i < uc.len()
            invariant
                i <= uc.len(),
                forall|w: u64| #[trigger] expired_workers@.contains(w) <==> exists|j: int|
                    0 <= j < uc@.len() && build_expired(uc@[j], now) && #[trigger] uc@[j].worker_tag == w,
                kept@ == kept_building(uc@, now, i as int),
            decreases uc.len() - i,
        {
            let u = uc[i];
            let gone = crate::army::vec_contains_u64(&expired_workers, u.worker_tag);
            if !gone {
                kept.push(u);
            }
            i += 1;
        }
        let it = &self.in_training;
        let ghost pt = train_expired_at(now);
        let mut expired_units: Vec<u64> = Vec::new();
        i = 0;
        while i < it.len()
            invariant
                i <= it.len(),
                pt == train_expired_at(now),
                expired_units@ == keep(it@.take(i as int), pt).map_values(|t: InTraining| t.unit as u64),
            decreases it.len() - i,
        {
            proof {
                assert(it@.take(i + 1).drop_last() =~= it@.take(i as int));
            }
            let t = it[i];
            if now > t.time_started && now - t.time_started > TRAIN_ORDER_LOOPS {
                expired_units.push(t.unit as u64);
            }
            proof {
                assert(expired_units@ =~= keep(it@.take(i + 1), pt).map_values(|t: InTraining| t.unit as u64));
            }
            i += 1;
        }
        proof {
            assert(it@.take(it.len() as int) =~= it@);
            lemma_keep(it@, pt);
            let e = keep(it@, pt);
            assert forall|w: u64| #[trigger] expired_units@.contains(w) <==> exists|j: int|
                0 <= j < it@.len() && train_expired(it@[j], now) && #[trigger] (it@[j].unit as u64) == w by {
                if expired_units@.contains(w) {
                    let k = choose|k: int| 0 <= k < expired_units@.len() && expired_units@[k] == w;
                    assert(e.contains(e[k]));
                    let j = choose|j: int| 0 <= j < it@.len() && it@[j] == e[k];
                    assert((it@[j].unit as u64) == w);
                }
                if exists|j: int| 0 <= j < it@.len() && train_expired(it@[j], now) && #[trigger] (it@[j].unit as u64) == w {
                    let j = choose|j: int| 0 <= j < it@.len() && train_expired(it@[j], now) && #[trigger] (it@[j].unit as u64) == w;
                    assert(it@.contains(it@[j]));
                    assert(e.contains(it@[j]));
                    let k = choose|k: int| 0 <= k < e.len() && e[k] == it@[j];
                    assert(expired_units@[k] == w);
                }
            }
        }
        let mut kept_t: Vec<InTraining> = Vec::new();
        i = 0;
        while i < it.len()
            invariant
                i <= it.len(),
                forall|w: u64| #[trigger] expired_units@.contains(w) <==> exists|j: int|
                    0 <= j < it@.len() && train_expired(it@[j], now) && #[trigger] (it@[j].unit as u64) == w,
                kept_t@ == kept_training(it@, now, i as int),
            decreases it.len() - i,
        {
            let t = it[i];
            let gone = crate::army::vec_contains_u64(&expired_units, t.unit as u64);
            proof {
                if gone {
                    let j = choose|j: int| 0 <= j < it@.len() && train_expired(it@[j], now) && #[trigger] (it@[j].unit as u64) == (t.unit as u64);
                    assert(it@[j].unit == t.unit);
                }
                if !keeps_training(it@, now, t) {
                    let j = choose|j: int| 0 <= j < it@.len() && train_expired(it@[j], now) && #[trigger] it@[j].unit == t.unit;
                    assert(expired_units@.contains(it@[j].unit as u64));
                }
            }
            if !gone {
                kept_t.push(t);
            }
            i += 1;
        }
        self.under_construction = kept;
        self.in_training = kept_t;
    }
}

/// An unfinished structure of ours.
#[derive(Clone, Copy, Debug)]
pub struct UnfinishedStructure {
    pub tag: u64,
    pub type_id: u32,
    /// Build progress has reached the end.
    pub complete: bool,
    /// Some worker's order aims at a spot within 1 of the structure.
    pub order_spot_near: bool,
}

/// A worker of ours and the unit its current order aims at, if any.
#[derive(Clone, Copy, Debug)]
pub struct WorkerOrder {
    pub tag: u64,
    pub target: Option<u64>,
}

pub open spec fn worker_targets(workers: Seq<WorkerOrder>, w: u64, s: u64) -> bool {
    exists|i: int| 0 <= i < workers.len() && #[trigger] workers[i].tag == w && workers[i].target == Some(s)
        && forall|j: int| 0 <= j < i ==> #[trigger] workers[j].tag != w
}

pub open spec fn some_worker_targets(workers: Seq<WorkerOrder>, s: u64) -> bool {
    exists|i: int| 0 <= i < workers.len() && #[trigger] workers[i].target == Some(s)
}

/// An unfinished structure that nobody is building: neither the worker sent
/// to finish it nor any other worker aims at it. Add-ons and refineries
/// build themselves.
pub open spec fn needs_worker(s: UnfinishedStructure, finishing: Map<u64, u64>, workers: Seq<WorkerOrder>) -> bool {
    &&& !is_addon(s.type_id)
    &&& s.type_id != REFINERY
    &&& s.type_id != REFINERY_RICH
    &&& !(finishing.dom().contains(s.tag) && worker_targets(workers, finishing[s.tag], s.tag))
    &&& !s.complete
    &&& !some_worker_targets(workers, s.tag)
    &&& !s.order_spot_near
}

pub open spec fn structures_to_finish(s: Seq<UnfinishedStructure>, finishing: Map<u64, u64>, workers: Seq<WorkerOrder>) -> Seq<u64>
    decreases s.len(),
{
    if s.len() == 0 {
        seq![]
    } else {
        structures_to_finish(s.drop_last(), finishing, workers) + if needs_worker(s.last(), finishing, workers) {
            seq![s.last().tag]
        } else {
            seq![]
        }
    }
}

fn first_order_of(workers: &Vec<WorkerOrder>, w: u64) -> (r: Option<usize>)
    ensures
        r matches Some(i) ==> i < workers@.len() && workers@[i as int].tag == w && forall|j: int|
            0 <= j < i ==> #[trigger] workers@[j].tag != w,
        r is None ==> forall|j: int| 0 <= j < workers@.len() ==> #[trigger] workers@[j].tag != w,
{
    let mut i: usize = 0;
    while i < workers.len()
        invariant
            i <= workers.len(),
            forall|j: int| 0 <= j < i ==> #[trigger] workers@[j].tag != w,
        decreases workers.len() - i,
    {
        if workers[i].tag == w {
            return Some(i);
        }
        i += 1;
    }
    None
}

fn any_targets(workers: &Vec<WorkerOrder>, s: u64) -> (r: bool)
    ensures
        r == some_worker_targets(workers@, s),
{
    let mut i: usize = 0;
    while i < workers.len()
        invariant
            i <= workers.len(),
            forall|j: int| 0 <= j < i ==> #[trigger] workers@[j].target != Some(s),
        decreases workers.len() - i,
    {
        if workers[i].target == Some(s) {
            return true;
        }
        i += 1;
    }
    false
}

/// The unfinished structures that need a worker to finish them, in order.
pub fn get_structures_to_finish(info: &ConstructionInfo, unfinished: &Vec<UnfinishedStructure>, workers: &Vec<WorkerOrder>) -> (r: Vec<u64>)
    requires
        info.structures_being_finished.wf(),
    ensures
        r@ == structures_to_finish(unfinished@, info.structures_being_finished@, workers@),
{
    let mut out: Vec<u64> = Vec::new();
    let mut i: usize = 0;
    while i < unfinished.len()
        invariant
            i <= unfinished.len(),
            info.structures_being_finished.wf(),
            out@ == structures_to_finish(unfinished@.take(i as int), info.structures_being_finished@, workers@),
        decreases unfinished.len() - i,
    {
        proof {
            assert(unfinished@.take(i + 1).drop_last() =~= unfinished@.take(i as int));
        }
        let s = unfinished[i];
        let builds_itself = is_addon(s.type_id) || s.type_id == REFINERY || s.type_id == REFINERY_RICH;
        let followed = match info.structures_being_finished.get(s.tag) {
            Some(w) => match first_order_of(workers, w) {
                Some(k) => workers[k].target == Some(s.tag),
                None => false,
            },
            None => false,
        };
        proof {
            let f = info.structures_being_finished@;
            if f.dom().contains(s.tag) && worker_targets(workers@, f[s.tag], s.tag) {
                let k = choose|k: int| 0 <= k < workers@.len() && #[trigger] workers@[k].tag == f[s.tag]
                    && workers@[k].target == Some(s.tag) && forall|j: int| 0 <= j < k ==> #[trigger] workers@[j].tag != f[s.tag];
                assert(followed);
            }
        }
        let building = any_targets(workers, s.tag);
        if !builds_itself && !followed && !s.complete && !building && !s.order_spot_near {
            out.push(s.tag);
        }
        i += 1;
    }
    assert(unfinished@.take(unfinished.len() as int) =~= unfinished@);
    out
}

/// Whether a structure under construction should be cancelled: between 10
/// and 100 percent built, at 10 percent health or less, with an enemy that
/// hits ground units within 12.
pub fn cancel_construction_in_danger(in_progress: bool, low_health: bool, ground_attacker_near: bool) -> (r: bool)
    ensures
        r == (in_progress && low_health && ground_attacker_near),
{
    in_progress && low_health && ground_attacker_near
}

/// A structure of ours, as the cancel rule reads it.
#[derive(Clone, Copy, Debug)]
pub struct StructureDanger {
    pub tag: u64,
    /// Between 10 and 100 percent built.
    pub in_progress: bool,
    /// At 10 percent health or less.
    pub low_health: bool,
    /// An enemy that hits ground units stands within 12.
    pub ground_attacker_near: bool,
}

pub open spec fn endangered(s: StructureDanger) -> bool {
    s.in_progress && s.low_health && s.ground_attacker_near
}

/// The structures that the cancel rule picks, in order.
pub open spec fn to_cancel(ss: Seq<StructureDanger>) -> Seq<u64>
    decreases ss.len(),
{
    if ss.len() == 0 {
        seq![]
    } else {
        to_cancel(ss.drop_last()) + if endangered(ss.last()) {
            seq![ss.last().tag]
        } else {
            seq![]
        }
    }
}

/// The structures under construction to cancel in this step.
pub fn cancel_constructions_in_danger(ss: &Vec<StructureDanger>) -> (r: Vec<u64>)
    ensures
        r@ == to_cancel(ss@),
{
    let mut out: Vec<u64> = Vec::new();
    let mut i: usize = 0;
    while i < ss.len()
        invariant
            i <= ss.len(),
            out@ == to_cancel(ss@.take(i as int)),
        decreases ss.len() - i,
    {
        proof {
            assert(ss@.take(i + 1).drop_last() =~= ss@.take(i as int));
        }
        let s = ss[i];
        if cancel_construction_in_danger(s.in_progress, s.low_health, s.ground_attacker_near) {
            out.push(s.tag);
        }
        assert(out@ =~= to_cancel(ss@.take(i + 1)));
        i += 1;
    }
    assert(ss@.take(ss.len() as int) =~= ss@);
    out
}

/// The older cancel rule: everything unfinished during a worker rush; big
/// structures (over 700 health) below 50 health once past 10 percent; small
/// ones below 10 percent health once past 20 percent.
pub fn cancel_building(worker_rush: bool, health: u32, health_max: u32, below_tenth_health: bool, past_tenth: bool, past_fifth: bool) -> (r: bool)
    ensures
        r == (worker_rush || (health_max > 700 && health < 50 && past_tenth) || (health_max < 700
            && below_tenth_health && past_fifth)),
{
    worker_rush || (health_max > 700 && health < 50 && past_tenth) || (health_max < 700 && below_tenth_health
        && past_fifth)
}

/// After a step, no build order older than five seconds is left.
pub proof fn no_stale_build_orders(s: Seq<UnderConstruction>, now: u32, k: int)
    requires
        0 <= k < kept_building(s, now, s.len() as int).len(),
    ensures
        !build_expired(kept_building(s, now, s.len() as int)[k], now),
{
    lemma_kept_building(s, now, s.len() as int);
    let u = kept_building(s, now, s.len() as int)[k];
    assert(s.contains(u));
    let j = choose|j: int| 0 <= j < s.len() && s[j] == u;
    assert(s[j].worker_tag == u.worker_tag);
}

proof fn lemma_kept_building(s: Seq<UnderConstruction>, now: u32, upto: int)
    requires
        0 <= upto <= s.len(),
    ensures
        forall|k: int| 0 <= k < kept_building(s, now, upto).len() ==> keeps_building(s, now, #[trigger] kept_building(s, now, upto)[k]),
        forall|k: int| 0 <= k < kept_building(s, now, upto).len() ==> s.contains(#[trigger] kept_building(s, now, upto)[k]),
    decreases upto,
{
    if upto > 0 {
        lemma_kept_building(s, now, upto - 1);
        let p = kept_building(s, now, upto - 1);
        let r = kept_building(s, now, upto);
        assert forall|k: int| 0 <= k < r.len() implies keeps_building(s, now, #[trigger] r[k]) by {
            if k < p.len() {
                assert(r[k] == p[k]);
            }
        }
        assert forall|k: int| 0 <= k < r.len() implies s.contains(#[trigger] r[k]) by {
            if k < p.len() {
                assert(r[k] == p[k]);
            } else {
                assert(r[k] == s[upto - 1]);
            }
        }
    }
}

/// The workers sent to finish structures: each structure with a builder
/// found gets it, recorded in the construction info.
pub open spec fn finishing_orders(pairs: Seq<(u64, Option<u64>)>) -> Seq<(u64, u64)>
    decreases pairs.len(),
{
    if pairs.len() == 0 {
        seq![]
    } else {
        finishing_orders(pairs.drop_last()) + match pairs.last().1 {
            Some(w) => seq![(w, pairs.last().0)],
            None => seq![],
        }
    }
}

pub open spec fn record_finishing(m: Map<u64, u64>, pairs: Seq<(u64, Option<u64>)>) -> Map<u64, u64>
    decreases pairs.len(),
{
    if pairs.len() == 0 {
        m
    } else {
        let a = record_finishing(m, pairs.drop_last());
        match pairs.last().1 {
            Some(w) => a.insert(pairs.last().0, w),
            None => a,
        }
    }
}

impl ConstructionInfo {
    /// Sends a worker to each structure left without one. `builders` pairs
    /// each structure to finish with the worker found for it, if any.
    /// Returns the (worker, structure) orders.
    pub fn finish_constructions_without_worker(&mut self, builders: &Vec<(u64, Option<u64>)>) -> (r: Vec<(u64, u64)>)
        requires
            old(self).structures_being_finished.wf(),
        ensures
            final(self).structures_being_finished.wf(),
            final(self).structures_being_finished@ == record_finishing(old(self).structures_being_finished@, builders@),
            r@ == finishing_orders(builders@),
            final(self).under_construction@ == old(self).under_construction@,
            final(self).in_training@ == old(self).in_training@,
    {
        let ghost m0 = self.structures_being_finished@;
        let mut out: Vec<(u64, u64)> = Vec::new();
        let mut i: usize = 0;
        while i < builders.len()
            invariant
                i <= builders.len(),
                self.structures_being_finished.wf(),
                self.structures_being_finished@ == record_finishing(m0, builders@.take(i as int)),
                out@ == finishing_orders(builders@.take(i as int)),
                self.under_construction@ == old(self).under_construction@,
                self.in_training@ == old(self).in_training@,
            decreases builders.len() - i,
        {
            proof {
                assert(builders@.take(i + 1).drop_last() =~= builders@.take(i as int));
            }
            let (st, w) = builders[i];
            let ghost before = out@;
            match w {
                Some(worker) => {
                    self.add_structure_being_finished(st, worker);
                    out.push((worker, st));
                },
                None => {},
            }
            assert(out@ =~= finishing_orders(builders@.take(i + 1)));
            i += 1;
        }
        assert(builders@.take(builders.len() as int) =~= builders@);
        out
    }
}

/// An unfinished structure, as the older finishing rule sees it.
#[derive(Clone, Copy, Debug)]
pub struct LegacyUnfinished {
    pub tag: u64,
    pub type_id: u32,
}

pub open spec fn without_builder(bs: Seq<LegacyUnfinished>, constructing: Seq<u32>) -> Seq<u64>
    decreases bs.len(),
{
    if bs.len() == 0 {
        seq![]
    } else {
        let b = bs.last();
        without_builder(bs.drop_last(), constructing) + if !is_addon(b.type_id) && !constructing.contains(b.type_id) {
            seq![b.tag]
        } else {
            seq![]
        }
    }
}

/// The older finishing rule: the unfinished structures, add-ons aside, whose
/// type no worker is constructing. `constructing` lists the types our
/// workers are constructing.
pub fn finish_building_without_workers(bs: &Vec<LegacyUnfinished>, constructing: &Vec<u32>) -> (r: Vec<u64>)
    ensures
        r@ == without_builder(bs@, constructing@),
{
    let mut out: Vec<u64> = Vec::new();
    let mut i: usize = 0;
    while i < bs.len()
        invariant
            i <= bs.len(),
            out@ == without_builder(bs@.take(i as int), constructing@),
        decreases bs.len() - i,
    {
        proof {
            assert(bs@.take(i + 1).drop_last() =~= bs@.take(i as int));
        }
        let b = bs[i];
        if !is_addon(b.type_id) && !crate::build_order::has_type(constructing, b.type_id) {
            out.push(b.tag);
        }
        assert(out@ =~= without_builder(bs@.take(i + 1), constructing@));
        i += 1;
    }
    assert(bs@.take(bs.len() as int) =~= bs@);
    out
}

/// A worker and what keeps it busy.
#[derive(Clone, Copy, Debug)]
pub struct WorkerActivity {
    pub tag: u64,
    pub constructing: bool,
    pub returning: bool,
    pub carrying: bool,
}

pub open spec fn free_workers(ws: Seq<WorkerActivity>) -> Seq<u64>
    decreases ws.len(),
{
    if ws.len() == 0 {
        seq![]
    } else {
        let w = ws.last();
        free_workers(ws.drop_last()) + if !(w.constructing || w.returning || w.carrying) {
            seq![w.tag]
        } else {
            seq![]
        }
    }
}

/// The workers a builder may be taken from: those not constructing, not
/// returning and not carrying anything.
pub fn builder_candidates(ws: &Vec<WorkerActivity>) -> (r: Vec<u64>)
    ensures
        r@ == free_workers(ws@),
{
    let mut out: Vec<u64> = Vec::new();
    let mut i: usize = 0;
    while i < ws.len()
        invariant
            i <= ws.len(),
            out@ == free_workers(ws@.take(i as int)),
        decreases ws.len() - i,
    {
        proof {
            assert(ws@.take(i + 1).drop_last() =~= ws@.take(i as int));
        }
        let w = ws[i];
        if !(w.constructing || w.returning || w.carrying) {
            out.push(w.tag);
        }
        assert(out@ =~= free_workers(ws@.take(i + 1)));
        i += 1;
    }
    assert(ws@.take(ws.len() as int) =~= ws@);
    out
}

/// How the older construction places a structure.
#[derive(Clone, Copy, Debug, PartialEq, Eq, Structural)]
pub enum PlacementKind {
    /// The depot spots of the ramp, then behind the mining bases.
    Depot,
    /// A free geyser at a mining base.
    Geyser,
    /// The next expansion.
    Expansion,
    /// The ramp's barracks spot, then in front of the bases.
    Production,
}

/// Which placement the older construction uses for a structure type.
pub fn get_structure_position(structure: u32) -> (r: Option<PlacementKind>)
    ensures
        r == if structure == SUPPLY_DEPOT {
            Some(PlacementKind::Depot)
        } else if structure == REFINERY {
            Some(PlacementKind::Geyser)
        } else if structure == COMMAND_CENTER {
            Some(PlacementKind::Expansion)
        } else if structure == BARRACKS || structure == FACTORY || structure == STARPORT
            || structure == ENGINEERING_BAY || structure == ARMORY {
            Some(PlacementKind::Production)
        } else {
            None
        },
{
    if structure == SUPPLY_DEPOT {
        Some(PlacementKind::Depot)
    } else if structure == REFINERY {
        Some(PlacementKind::Geyser)
    } else if structure == COMMAND_CENTER {
        Some(PlacementKind::Expansion)
    } else if structure == BARRACKS || structure == FACTORY || structure == STARPORT || structure
        == ENGINEERING_BAY || structure == ARMORY {
        Some(PlacementKind::Production)
    } else {
        None
    }
}

} // verus!
