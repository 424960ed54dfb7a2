//! The older worker control: which workers each mineral field and refinery
//! holds, which structures need repair, and which workers are freed from
//! resources that hold too many.
use vstd::prelude::*;
use crate::army::vec_contains_u64;
use crate::seq_util::keep;

verus! {

/// A resource and the workers assigned to it, most recent last.
#[derive(Clone, Debug)]
pub struct ResourceWorkers {
    pub tag: u64,
    pub workers: Vec<u64>,
}

pub open spec fn entry_view(e: ResourceWorkers) -> (u64, Seq<u64>) {
    (e.tag, e.workers@)
}

pub open spec fn entries_view(es: Seq<ResourceWorkers>) -> Seq<(u64, Seq<u64>)> {
    es.map_values(|e: ResourceWorkers| entry_view(e))
}

pub open spec fn keys_of(d: Seq<(u64, Seq<u64>)>) -> Seq<u64> {
    d.map_values(|p: (u64, Seq<u64>)| p.0)
}

/// Adds a tag to a list that holds each tag once.
pub open spec fn add_unique(s: Seq<u64>, t: u64) -> Seq<u64> {
    if s.contains(t) {
        s
    } else {
        s.push(t)
    }
}

/// The worker control's state.
pub struct ScvControl {
    /// Each resource's workers; a resource appears once.
    pub mining_distribution: Vec<ResourceWorkers>,
    /// Each structure to repair and its repairers; a structure appears once.
    pub repair_list: Vec<ResourceWorkers>,
    pub current_refineries: Vec<u64>,
    pub current_mineral_fields: Vec<u64>,
    pub current_gas_workers: Vec<u64>,
    pub current_mineral_workers: Vec<u64>,
    pub current_idle_workers: Vec<u64>,
}

pub open spec fn unique_keys(d: Seq<(u64, Seq<u64>)>) -> bool {
    forall|i: int, j: int| 0 <= i < j < d.len() ==> #[trigger] d[i].0 != #[trigger] d[j].0
}

pub open spec fn in_valid(valid: Seq<u64>) -> spec_fn((u64, Seq<u64>)) -> bool {
    |p: (u64, Seq<u64>)| valid.contains(p.0)
}

/// Adds, for each tag not yet there, an empty entry at the end.
pub open spec fn add_missing(d: Seq<(u64, Seq<u64>)>, tags: Seq<u64>) -> Seq<(u64, Seq<u64>)>
    decreases tags.len(),
{
    if tags.len() == 0 {
        d
    } else {
        let a = add_missing(d, tags.drop_last());
        if keys_of(a).contains(tags.last()) {
            a
        } else {
            a.push((tags.last(), seq![]))
        }
    }
}

/// The distribution after a refresh: resources no longer valid leave, and
/// each valid resource not yet there joins with no workers.
pub open spec fn refreshed_distribution(d: Seq<(u64, Seq<u64>)>, valid: Seq<u64>) -> Seq<(u64, Seq<u64>)> {
    add_missing(keep(d, in_valid(valid)), valid)
}

/// What the saturation check finds: for each resource short of workers or
/// holding too many, by how many. Mineral fields take two, refineries three.
pub struct SaturationInfo {
    pub deficit_at_mineral_fields: Vec<(u64, u32)>,
    pub deficit_at_refineries: Vec<(u64, u32)>,
    pub overflow_at_mineral_fields: Vec<(u64, u32)>,
    pub overflow_at_refineries: Vec<(u64, u32)>,
}

pub open spec fn for_tag(tag: u64) -> spec_fn((u64, Seq<u64>)) -> bool {
    |p: (u64, Seq<u64>)| p.0 == tag
}

/// The number of workers a resource holds, as a `u32` (none when it has
/// no entry).
pub open spec fn assigned_to(d: Seq<(u64, Seq<u64>)>, tag: u64) -> u32 {
    match crate::seq_util::first_index(d, for_tag(tag)) {
        Some(k) => d[k].1.len() as u32,
        None => 0,
    }
}

pub open spec fn deficits(d: Seq<(u64, Seq<u64>)>, tags: Seq<u64>, target: u32) -> Seq<(u64, u32)>
    decreases tags.len(),
{
    if tags.len() == 0 {
        seq![]
    } else {
        let t = tags.last();
        deficits(d, tags.drop_last(), target) + if assigned_to(d, t) < target {
            seq![(t, (target - assigned_to(d, t)) as u32)]
        } else {
            seq![]
        }
    }
}

pub open spec fn overflows(d: Seq<(u64, Seq<u64>)>, tags: Seq<u64>, target: u32) -> Seq<(u64, u32)>
    decreases tags.len(),
{
    if tags.len() == 0 {
        seq![]
    } else {
        let t = tags.last();
        overflows(d, tags.drop_last(), target) + if assigned_to(d, t) > target {
            seq![(t, (assigned_to(d, t) - target) as u32)]
        } else {
            seq![]
        }
    }
}

/// Whether the saturation calls for freeing workers, as the condition reads:
/// fields short, or refineries short while fields hold too many, or
/// refineries hold too many.
pub open spec fn imbalanced(s: SaturationInfo) -> bool {
    s.deficit_at_mineral_fields@.len() > 0 || (s.deficit_at_refineries@.len() > 0
        && s.overflow_at_mineral_fields@.len() > 0) || s.overflow_at_refineries@.len() > 0
}

/// Takes up to `n` workers off the end of a resource's list; the taken
/// ones in the order taken, last first.
pub open spec fn pop_n(ws: Seq<u64>, n: nat) -> (Seq<u64>, Seq<u64>)
    decreases n,
{
    if n == 0 {
        (ws, seq![])
    } else {
        let p = pop_n(ws, (n - 1) as nat);
        if p.0.len() == 0 {
            p
        } else {
            (p.0.drop_last(), p.1.push(p.0.last()))
        }
    }
}

/// A damaged or repaired structure, as the repair list sees it.
#[derive(Clone, Copy, Debug)]
pub struct RepairCandidate {
    pub tag: u64,
    pub is_ready: bool,
    /// Its health is full.
    pub full_health: bool,
    /// Its health is under four fifths.
    pub damaged: bool,
}

fn find_entry(d: &Vec<ResourceWorkers>, tag: u64) -> (r: Option<usize>)
    ensures
        r == match crate::seq_util::first_index(entries_view(d@), for_tag(tag)) {
            Some(k) => Some(k as usize),
            None => None::<usize>,
        },
        r matches Some(k) ==> k < d@.len() && d@[k as int].tag == tag,
{
    let ghost v = entries_view(d@);
    let mut i: usize = 0;
    while i < d.len()
        invariant
            i <= d.len(),
            v == entries_view(d@),
            forall|j: int| 0 <= j < i ==> (#[trigger] d@[j]).tag != tag,
        decreases d.len() - i,
    {
        if d[i].tag == tag {
            proof {
                assert forall|j: int| 0 <= j < i implies !for_tag(tag)(#[trigger] v[j]) by {
                    assert(v[j] == entry_view(d@[j]));
                }
                assert(v[i as int] == entry_view(d@[i as int]));
                crate::seq_util::lemma_first_index_found(v, for_tag(tag), i as int);
            }
            return Some(i);
        }
        i += 1;
    }
    proof {
        assert forall|j: int| 0 <= j < v.len() implies !for_tag(tag)(#[trigger] v[j]) by {
            assert(v[j] == entry_view(d@[j]));
        }
        crate::seq_util::lemma_first_index_none(v, for_tag(tag));
    }
    None
}

fn push_unique(v: &mut Vec<u64>, t: u64)
    ensures
        final(v)@ == add_unique(old(v)@, t),
{
    if !vec_contains_u64(v, t) {
        v.push(t);
    }
}

impl ScvControl {
    /// An empty control.
    pub fn new() -> (s: ScvControl)
        ensures
            s.mining_distribution@.len() == 0,
            s.repair_list@.len() == 0,
            s.current_refineries@.len() == 0,
            s.current_mineral_fields@.len() == 0,
            s.current_gas_workers@.len() == 0,
            s.current_mineral_workers@.len() == 0,
            s.current_idle_workers@.len() == 0,
    {
        ScvControl {
            mining_distribution: Vec::new(),
            repair_list: Vec::new(),
            current_refineries: Vec::new(),
            current_mineral_fields: Vec::new(),
            current_gas_workers: Vec::new(),
            current_mineral_workers: Vec::new(),
            current_idle_workers: Vec::new(),
        }
    }

    /// Forgets the step's lists of resources and workers; the distribution
    /// and the repair list stay.
    pub fn reset_frame(&mut self)
        ensures
            final(self).current_refineries@.len() == 0,
            final(self).current_mineral_fields@.len() == 0,
            final(self).current_gas_workers@.len() == 0,
            final(self).current_mineral_workers@.len() == 0,
            final(self).current_idle_workers@.len() == 0,
            entries_view(final(self).mining_distribution@) == entries_view(old(self).mining_distribution@),
            entries_view(final(self).repair_list@) == entries_view(old(self).repair_list@),
    {
        self.current_refineries = Vec::new();
        self.current_mineral_fields = Vec::new();
        self.current_gas_workers = Vec::new();
        self.current_mineral_workers = Vec::new();
        self.current_idle_workers = Vec::new();
    }

    /// Keeps the distribution to the valid resources (mineral fields and
    /// refineries with gas next to our finished bases) and adds those missing.
    pub fn init_mineral_fields_and_refineries(&mut self, valid: &Vec<u64>)
        ensures
            entries_view(final(self).mining_distribution@) == refreshed_distribution(
                entries_view(old(self).mining_distribution@),
                valid@,
            ),
            entries_view(final(self).repair_list@) == entries_view(old(self).repair_list@),
            final(self).current_mineral_fields@ == old(self).current_mineral_fields@,
            final(self).current_refineries@ == old(self).current_refineries@,
            final(self).current_mineral_workers@ == old(self).current_mineral_workers@,
            final(self).current_gas_workers@ == old(self).current_gas_workers@,
            final(self).current_idle_workers@ == old(self).current_idle_workers@,
    {
        let ghost d0 = entries_view(self.mining_distribution@);
        let mut kept: Vec<ResourceWorkers> = Vec::new();
        let mut i: usize = 0;
        while i < self.mining_distribution.len()
            invariant
                i <= self.mining_distribution.len(),
                d0 == entries_view(self.mining_distribution@),
                entries_view(kept@) == keep(d0.take(i as int), in_valid(valid@)),
            decreases self.mining_distribution.len() - i,
        {
            proof {
                assert(d0.take(i + 1).drop_last() =~= d0.take(i as int));
                assert(d0[i as int] == entry_view(self.mining_distribution@[i as int]));
            }
            let ghost before = kept@;
            if vec_contains_u64(valid, self.mining_distribution[i].tag) {
                let e = ResourceWorkers {
                    tag: self.mining_distribution[i].tag,
                    workers: self.mining_distribution[i].workers.clone(),
                };
                kept.push(e);
                assert(entries_view(kept@) =~= entries_view(before).push(entry_view(e)));
            }
            i += 1;
        }
        assert(d0.take(d0.len() as int) =~= d0);
        let ghost k0 = entries_view(kept@);
        let mut j: usize = 0;
        while j < valid.len()
            invariant
                j <= valid.len(),
                entries_view(kept@) == add_missing(k0, valid@.take(j as int)),
            decreases valid.len() - j,
        {
            proof {
                assert(valid@.take(j + 1).drop_last() =~= valid@.take(j as int));
            }
            let t = valid[j];
            let ghost before = kept@;
            let found = find_entry(&kept, t);
            proof {
                let kv = entries_view(before);
                crate::seq_util::lemma_first_index_spec(kv, for_tag(t));
                if keys_of(kv).contains(t) {
                    let m = choose|m: int| 0 <= m < keys_of(kv).len() && keys_of(kv)[m] == t;
                    assert(kv[m].0 == t);
                }
                if found is Some {
                    assert(keys_of(kv)[found->0 as int] == t);
                }
            }
            if found.is_none() {
                kept.push(ResourceWorkers { tag: t, workers: Vec::new() });
                assert(entries_view(kept@) =~= entries_view(before).push((t, seq![])));
            }
            j += 1;
        }
        assert(valid@.take(valid.len() as int) =~= valid@);
        self.mining_distribution = kept;
    }
}

/// Sorts the distribution's resources: mineral fields and refineries, each
/// kept once.
pub open spec fn classify_resources(keys: Seq<u64>, fields: Seq<u64>, structs: Seq<u64>, cf: Seq<u64>, cr: Seq<u64>) -> (Seq<u64>, Seq<u64>)
    decreases keys.len(),
{
    if keys.len() == 0 {
        (cf, cr)
    } else {
        let p = classify_resources(keys.drop_last(), fields, structs, cf, cr);
        let k = keys.last();
        if fields.contains(k) {
            (add_unique(p.0, k), p.1)
        } else if structs.contains(k) {
            (p.0, add_unique(p.1, k))
        } else {
            p
        }
    }
}

/// Adds, once each, the listed workers that still exist.
pub open spec fn add_present(acc: Seq<u64>, ws: Seq<u64>, present: Seq<u64>) -> Seq<u64>
    decreases ws.len(),
{
    if ws.len() == 0 {
        acc
    } else {
        let a = add_present(acc, ws.drop_last(), present);
        if present.contains(ws.last()) {
            add_unique(a, ws.last())
        } else {
            a
        }
    }
}

/// Sorts the assigned workers: those at mineral fields and those at
/// refineries.
pub open spec fn classify_workers(d: Seq<(u64, Seq<u64>)>, fields: Seq<u64>, structs: Seq<u64>, workers: Seq<u64>, mw: Seq<u64>, gw: Seq<u64>) -> (Seq<u64>, Seq<u64>)
    decreases d.len(),
{
    if d.len() == 0 {
        (mw, gw)
    } else {
        let p = classify_workers(d.drop_last(), fields, structs, workers, mw, gw);
        let e = d.last();
        if e.1.len() == 0 {
            p
        } else if fields.contains(e.0) {
            (add_present(p.0, e.1, workers), p.1)
        } else if structs.contains(e.0) {
            (p.0, add_present(p.1, e.1, workers))
        } else {
            p
        }
    }
}

/// Adds, once each, the workers that are at no resource.
pub open spec fn add_unassigned(idle: Seq<u64>, workers: Seq<u64>, mw: Seq<u64>, gw: Seq<u64>) -> Seq<u64>
    decreases workers.len(),
{
    if workers.len() == 0 {
        idle
    } else {
        let a = add_unassigned(idle, workers.drop_last(), mw, gw);
        let w = workers.last();
        if gw.contains(w) || mw.contains(w) {
            a
        } else {
            add_unique(a, w)
        }
    }
}

/// Frees workers from resources that hold too many, resource by resource.
pub open spec fn free_overflow(d: Seq<(u64, Seq<u64>)>, freed: Seq<u64>, over: Seq<(u64, u32)>) -> (Seq<(u64, Seq<u64>)>, Seq<u64>)
    decreases over.len(),
{
    if over.len() == 0 {
        (d, freed)
    } else {
        let p = free_overflow(d, freed, over.drop_last());
        let t = over.last().0;
        let c = over.last().1;
        match crate::seq_util::first_index(p.0, for_tag(t)) {
            Some(k) => {
                let q = pop_n(p.0[k].1, c as nat);
                (p.0.update(k, (t, q.0)), p.1 + q.1)
            },
            None => p,
        }
    }
}

pub open spec fn repaired(structs: Seq<RepairCandidate>, tag: u64) -> bool {
    match crate::seq_util::first_index(structs, |c: RepairCandidate| c.tag == tag) {
        Some(k) => structs[k].full_health,
        None => false,
    }
}

pub open spec fn not_repaired(structs: Seq<RepairCandidate>) -> spec_fn((u64, Seq<u64>)) -> bool {
    |p: (u64, Seq<u64>)| !repaired(structs, p.0)
}

/// Adds each finished, damaged structure not yet listed, with no repairers.
pub open spec fn add_damaged(d: Seq<(u64, Seq<u64>)>, structs: Seq<RepairCandidate>) -> Seq<(u64, Seq<u64>)>
    decreases structs.len(),
{
    if structs.len() == 0 {
        d
    } else {
        let a = add_damaged(d, structs.drop_last());
        let c = structs.last();
        if c.is_ready && c.damaged && !keys_of(a).contains(c.tag) {
            a.push((c.tag, seq![]))
        } else {
            a
        }
    }
}

/// The repair list after a refresh: fully repaired structures leave, newly
/// damaged ones join.
pub open spec fn refreshed_repairs(d: Seq<(u64, Seq<u64>)>, structs: Seq<RepairCandidate>) -> Seq<(u64, Seq<u64>)> {
    add_damaged(keep(d, not_repaired(structs)), structs)
}

fn add_present_exec(acc: &mut Vec<u64>, ws: &Vec<u64>, present: &Vec<u64>)
    ensures
        final(acc)@ == add_present(old(acc)@, ws@, present@),
{
    let ghost a0 = acc@;
    let mut i: usize = 0;
    while i < ws.len()
        invariant
            i <= ws.len(),
            acc@ == add_present(a0, ws@.take(i as int), present@),
        decreases ws.len() - i,
    {
        proof {
            assert(ws@.take(i + 1).drop_last() =~= ws@.take(i as int));
        }
        if vec_contains_u64(present, ws[i]) {
            push_unique(acc, ws[i]);
        }
        i += 1;
    }
    assert(ws@.take(ws.len() as int) =~= ws@);
}

fn count_of(d: &Vec<ResourceWorkers>, tag: u64) -> (r: u32)
    ensures
        r == assigned_to(entries_view(d@), tag),
{
    match find_entry(d, tag) {
        Some(k) => {
            proof {
                crate::seq_util::lemma_first_index_spec(entries_view(d@), for_tag(tag));
                assert(entries_view(d@)[k as int] == entry_view(d@[k as int]));
            }
            #[verifier::truncate]
            (d[k].workers.len() as u32)
        },
        None => {
            proof {
                crate::seq_util::lemma_first_index_spec(entries_view(d@), for_tag(tag));
            }
            0
        },
    }
}

fn deficits_exec(d: &Vec<ResourceWorkers>, tags: &Vec<u64>, target: u32) -> (r: Vec<(u64, u32)>)
    ensures
        r@ == deficits(entries_view(d@), tags@, target),
{
    let mut out: Vec<(u64, u32)> = Vec::new();
    let mut i: usize = 0;
    while i < tags.len()
        invariant
            i <= tags.len(),
            out@ == deficits(entries_view(d@), tags@.take(i as int), target),
        decreases tags.len() - i,
    {
        proof {
            assert(tags@.take(i + 1).drop_last() =~= tags@.take(i as int));
        }
        let a = count_of(d, tags[i]);
        let ghost before = out@;
        if a < target {
            out.push((tags[i], target - a));
        }
        assert(out@ =~= deficits(entries_view(d@), tags@.take(i + 1), target));
        i += 1;
    }
    assert(tags@.take(tags.len() as int) =~= tags@);
    out
}

fn overflows_exec(d: &Vec<ResourceWorkers>, tags: &Vec<u64>, target: u32) -> (r: Vec<(u64, u32)>)
    ensures
        r@ == overflows(entries_view(d@), tags@, target),
{
    let mut out: Vec<(u64, u32)> = Vec::new();
    let mut i: usize = 0;
    while i < tags.len()
        invariant
            i <= tags.len(),
            out@ == overflows(entries_view(d@), tags@.take(i as int), target),
        decreases tags.len() - i,
    {
        proof {
            assert(tags@.take(i + 1).drop_last() =~= tags@.take(i as int));
        }
        let a = count_of(d, tags[i]);
        let ghost before = out@;
        if a > target {
            out.push((tags[i], a - target));
        }
        assert(out@ =~= overflows(entries_view(d@), tags@.take(i + 1), target));
        i += 1;
    }
    assert(tags@.take(tags.len() as int) =~= tags@);
    out
}

impl ScvControl {
    /// Sorts the distribution: its resources into mineral fields (tags among
    /// `mineral_fields`) and refineries (among `structures`), and its workers
    /// that still exist likewise; then every worker at no resource is idle.
    pub fn get_worker_allocations(&mut self, mineral_fields: &Vec<u64>, structures: &Vec<u64>, workers: &Vec<u64>)
        ensures
            entries_view(final(self).mining_distribution@) == entries_view(old(self).mining_distribution@),
            entries_view(final(self).repair_list@) == entries_view(old(self).repair_list@),
            (final(self).current_mineral_fields@, final(self).current_refineries@) == classify_resources(
                keys_of(entries_view(old(self).mining_distribution@)),
                mineral_fields@,
                structures@,
                old(self).current_mineral_fields@,
                old(self).current_refineries@,
            ),
            (final(self).current_mineral_workers@, final(self).current_gas_workers@) == classify_workers(
                entries_view(old(self).mining_distribution@),
                mineral_fields@,
                structures@,
                workers@,
                old(self).current_mineral_workers@,
                old(self).current_gas_workers@,
            ),
            final(self).current_idle_workers@ == add_unassigned(
                old(self).current_idle_workers@,
                workers@,
                final(self).current_mineral_workers@,
                final(self).current_gas_workers@,
            ),
    {
        let ghost d = entries_view(self.mining_distribution@);
        let ghost cf0 = self.current_mineral_fields@;
        let ghost cr0 = self.current_refineries@;
        let ghost mw0 = self.current_mineral_workers@;
        let ghost gw0 = self.current_gas_workers@;
        let mut i: usize = 0;
        while i < self.mining_distribution.len()
            invariant
                i <= self.mining_distribution.len(),
                d == entries_view(self.mining_distribution@),
                (self.current_mineral_fields@, self.current_refineries@) == classify_resources(
                    keys_of(d).take(i as int),
                    mineral_fields@,
                    structures@,
                    cf0,
                    cr0,
                ),
                self.current_mineral_workers@ == mw0,
                self.current_gas_workers@ == gw0,
                entries_view(self.repair_list@) == entries_view(old(self).repair_list@),
                self.current_idle_workers@ == old(self).current_idle_workers@,
            decreases self.mining_distribution.len() - i,
        {
            proof {
                assert(keys_of(d).take(i + 1).drop_last() =~= keys_of(d).take(i as int));
                assert(keys_of(d).take(i + 1).last() == self.mining_distribution@[i as int].tag);
            }
            let t = self.mining_distribution[i].tag;
            if vec_contains_u64(mineral_fields, t) {
                push_unique(&mut self.current_mineral_fields, t);
            } else if vec_contains_u64(structures, t) {
                push_unique(&mut self.current_refineries, t);
            }
            i += 1;
        }
        assert(keys_of(d).take(keys_of(d).len() as int) =~= keys_of(d));
        let mut k: usize = 0;
        while k < self.mining_distribution.len()
            invariant
                k <= self.mining_distribution.len(),
                d == entries_view(self.mining_distribution@),
                (self.current_mineral_workers@, self.current_gas_workers@) == classify_workers(
                    d.take(k as int),
                    mineral_fields@,
                    structures@,
                    workers@,
                    mw0,
                    gw0,
                ),
                (self.current_mineral_fields@, self.current_refineries@) == classify_resources(
                    keys_of(d),
                    mineral_fields@,
                    structures@,
                    cf0,
                    cr0,
                ),
                entries_view(self.repair_list@) == entries_view(old(self).repair_list@),
                self.current_idle_workers@ == old(self).current_idle_workers@,
            decreases self.mining_distribution.len() - k,
        {
            proof {
                assert(d.take(k + 1).drop_last() =~= d.take(k as int));
                assert(d.take(k + 1).last() == entry_view(self.mining_distribution@[k as int]));
            }
            let t = self.mining_distribution[k].tag;
            if self.mining_distribution[k].workers.len() > 0 {
                if vec_contains_u64(mineral_fields, t) {
                    add_present_exec(&mut self.current_mineral_workers, &self.mining_distribution[k].workers, workers);
                } else if vec_contains_u64(structures, t) {
                    add_present_exec(&mut self.current_gas_workers, &self.mining_distribution[k].workers, workers);
                }
            }
            k += 1;
        }
        assert(d.take(d.len() as int) =~= d);
        let ghost idle0 = self.current_idle_workers@;
        let mut j: usize = 0;
        while j < workers.len()
            invariant
                j <= workers.len(),
                self.current_idle_workers@ == add_unassigned(
                    idle0,
                    workers@.take(j as int),
                    self.current_mineral_workers@,
                    self.current_gas_workers@,
                ),
                d == entries_view(self.mining_distribution@),
                (self.current_mineral_workers@, self.current_gas_workers@) == classify_workers(
                    d,
                    mineral_fields@,
                    structures@,
                    workers@,
                    mw0,
                    gw0,
                ),
                (self.current_mineral_fields@, self.current_refineries@) == classify_resources(
                    keys_of(d),
                    mineral_fields@,
                    structures@,
                    cf0,
                    cr0,
                ),
                entries_view(self.repair_list@) == entries_view(old(self).repair_list@),
                idle0 == old(self).current_idle_workers@,
            decreases workers.len() - j,
        {
            proof {
                assert(workers@.take(j + 1).drop_last() =~= workers@.take(j as int));
            }
            let w = workers[j];
            if !(vec_contains_u64(&self.current_gas_workers, w) || vec_contains_u64(&self.current_mineral_workers, w)) {
                push_unique(&mut self.current_idle_workers, w);
            }
            j += 1;
        }
        assert(workers@.take(workers.len() as int) =~= workers@);
    }

    /// Which resources lack workers and which hold too many: mineral fields
    /// take two, refineries three.
    pub fn get_saturation_of_resources(&self) -> (r: SaturationInfo)
        ensures
            r.deficit_at_mineral_fields@ == deficits(entries_view(self.mining_distribution@), self.current_mineral_fields@, 2),
            r.deficit_at_refineries@ == deficits(entries_view(self.mining_distribution@), self.current_refineries@, 3),
            r.overflow_at_mineral_fields@ == overflows(entries_view(self.mining_distribution@), self.current_mineral_fields@, 2),
            r.overflow_at_refineries@ == overflows(entries_view(self.mining_distribution@), self.current_refineries@, 3),
    {
        SaturationInfo {
            deficit_at_mineral_fields: deficits_exec(&self.mining_distribution, &self.current_mineral_fields, 2),
            deficit_at_refineries: deficits_exec(&self.mining_distribution, &self.current_refineries, 3),
            overflow_at_mineral_fields: overflows_exec(&self.mining_distribution, &self.current_mineral_fields, 2),
            overflow_at_refineries: overflows_exec(&self.mining_distribution, &self.current_refineries, 3),
        }
    }
}

/// Whether the saturation of a distribution calls for freeing workers.
pub open spec fn imbalanced_at(d: Seq<(u64, Seq<u64>)>, fields: Seq<u64>, refineries: Seq<u64>) -> bool {
    deficits(d, fields, 2).len() > 0 || (deficits(d, refineries, 3).len() > 0 && overflows(d, fields, 2).len() > 0)
        || overflows(d, refineries, 3).len() > 0
}

/// The overflow of mineral fields, then of refineries.
pub open spec fn overflow_list(d: Seq<(u64, Seq<u64>)>, fields: Seq<u64>, refineries: Seq<u64>) -> Seq<(u64, u32)> {
    overflows(d, fields, 2) + overflows(d, refineries, 3)
}

fn pop_workers(ws: &mut Vec<u64>, freed: &mut Vec<u64>, c: u32)
    ensures
        final(ws)@ == pop_n(old(ws)@, c as nat).0,
        final(freed)@ == old(freed)@ + pop_n(old(ws)@, c as nat).1,
{
    let ghost ws0 = ws@;
    let ghost f0 = freed@;
    let mut n: u32 = 0;
    while n < c
        invariant
            n <= c,
            ws@ == pop_n(ws0, n as nat).0,
            freed@ == f0 + pop_n(ws0, n as nat).1,
        decreases c - n,
    {
        let ghost before = freed@;
        match ws.pop() {
            Some(w) => {
                freed.push(w);
            },
            None => {},
        }
        assert(freed@ =~= f0 + pop_n(ws0, (n + 1) as nat).1);
        n += 1;
    }
}

impl ScvControl {
    /// Frees the workers of resources that hold too many: from each such
    /// resource, mineral fields first, as many as it holds too many are taken
    /// off the end of its list; those that still exist become idle.
    pub fn make_overflow_workers_idle(&mut self, over_fields: &Vec<(u64, u32)>, over_refineries: &Vec<(u64, u32)>, workers: &Vec<u64>)
        ensures
            entries_view(final(self).mining_distribution@) == free_overflow(
                entries_view(old(self).mining_distribution@),
                seq![],
                over_fields@ + over_refineries@,
            ).0,
            final(self).current_idle_workers@ == add_present(
                old(self).current_idle_workers@,
                free_overflow(entries_view(old(self).mining_distribution@), seq![], over_fields@ + over_refineries@).1,
                workers@,
            ),
            entries_view(final(self).repair_list@) == entries_view(old(self).repair_list@),
            final(self).current_mineral_fields@ == old(self).current_mineral_fields@,
            final(self).current_refineries@ == old(self).current_refineries@,
            final(self).current_mineral_workers@ == old(self).current_mineral_workers@,
            final(self).current_gas_workers@ == old(self).current_gas_workers@,
    {
        let mut over: Vec<(u64, u32)> = Vec::new();
        let mut a: usize = 0;
        while a < over_fields.len()
            invariant
                a <= over_fields.len(),
                over@ == over_fields@.take(a as int),
            decreases over_fields.len() - a,
        {
            over.push(over_fields[a]);
            assert(over@ =~= over_fields@.take(a + 1));
            a += 1;
        }
        let mut b: usize = 0;
        while b < over_refineries.len()
            invariant
                b <= over_refineries.len(),
                over_fields@.len() == a,
                over@ == over_fields@ + over_refineries@.take(b as int),
            decreases over_refineries.len() - b,
        {
            over.push(over_refineries[b]);
            assert(over@ =~= over_fields@ + over_refineries@.take(b + 1));
            b += 1;
        }
        assert(over@ =~= over_fields@ + over_refineries@);
        let ghost d0 = entries_view(self.mining_distribution@);
        let mut freed: Vec<u64> = Vec::new();
        let mut i: usize = 0;
        while i < over.len()
            invariant
                i <= over.len(),
                (entries_view(self.mining_distribution@), freed@) == free_overflow(d0, seq![], over@.take(i as int)),
                entries_view(self.repair_list@) == entries_view(old(self).repair_list@),
                self.current_mineral_fields@ == old(self).current_mineral_fields@,
                self.current_refineries@ == old(self).current_refineries@,
                self.current_mineral_workers@ == old(self).current_mineral_workers@,
                self.current_gas_workers@ == old(self).current_gas_workers@,
                self.current_idle_workers@ == old(self).current_idle_workers@,
            decreases over.len() - i,
        {
            proof {
                assert(over@.take(i + 1).drop_last() =~= over@.take(i as int));
            }
            let t = over[i].0;
            let c = over[i].1;
            let ghost dv = entries_view(self.mining_distribution@);
            match find_entry(&self.mining_distribution, t) {
                Some(k) => {
                    proof {
                        crate::seq_util::lemma_first_index_spec(dv, for_tag(t));
                        assert(dv[k as int] == entry_view(self.mining_distribution@[k as int]));
                    }
                    let mut ws = self.mining_distribution[k].workers.clone();
                    pop_workers(&mut ws, &mut freed, c);
                    let ghost before = self.mining_distribution@;
                    self.mining_distribution.set(k, ResourceWorkers { tag: t, workers: ws });
                    assert(entries_view(self.mining_distribution@) =~= dv.update(k as int, (t, ws@)));
                },
                None => {
                    proof {
                        crate::seq_util::lemma_first_index_spec(dv, for_tag(t));
                    }
                },
            }
            i += 1;
        }
        assert(over@.take(over@.len() as int) =~= over@);
        add_present_exec(&mut self.current_idle_workers, &freed, workers);
    }

    /// Frees workers when the saturation is out of balance; allocating the
    /// idle workers does nothing yet.
    pub fn split_workers(&mut self, workers: &Vec<u64>)
        ensures
            ({
                let d = entries_view(old(self).mining_distribution@);
                let over = overflow_list(d, old(self).current_mineral_fields@, old(self).current_refineries@);
                if imbalanced_at(d, old(self).current_mineral_fields@, old(self).current_refineries@) {
                    &&& entries_view(final(self).mining_distribution@) == free_overflow(d, seq![], over).0
                    &&& final(self).current_idle_workers@ == add_present(
                        old(self).current_idle_workers@,
                        free_overflow(d, seq![], over).1,
                        workers@,
                    )
                } else {
                    &&& entries_view(final(self).mining_distribution@) == d
                    &&& final(self).current_idle_workers@ == old(self).current_idle_workers@
                }
            }),
            entries_view(final(self).repair_list@) == entries_view(old(self).repair_list@),
            final(self).current_mineral_fields@ == old(self).current_mineral_fields@,
            final(self).current_refineries@ == old(self).current_refineries@,
            final(self).current_mineral_workers@ == old(self).current_mineral_workers@,
            final(self).current_gas_workers@ == old(self).current_gas_workers@,
    {
        let sat = self.get_saturation_of_resources();
        let imbalanced = sat.deficit_at_mineral_fields.len() > 0 || (sat.deficit_at_refineries.len() > 0
            && sat.overflow_at_mineral_fields.len() > 0) || sat.overflow_at_refineries.len() > 0;
        if imbalanced {
            self.make_overflow_workers_idle(&sat.overflow_at_mineral_fields, &sat.overflow_at_refineries, workers);
        }
    }

    /// Refreshes the repair list: structures back to full health leave it,
    /// finished structures under four fifths of their health join it.
    pub fn init_repair_targets(&mut self, structs: &Vec<RepairCandidate>)
        ensures
            entries_view(final(self).repair_list@) == refreshed_repairs(entries_view(old(self).repair_list@), structs@),
            entries_view(final(self).mining_distribution@) == entries_view(old(self).mining_distribution@),
            final(self).current_mineral_fields@ == old(self).current_mineral_fields@,
            final(self).current_refineries@ == old(self).current_refineries@,
            final(self).current_mineral_workers@ == old(self).current_mineral_workers@,
            final(self).current_gas_workers@ == old(self).current_gas_workers@,
            final(self).current_idle_workers@ == old(self).current_idle_workers@,
    {
        let ghost d0 = entries_view(self.repair_list@);
        let mut kept: Vec<ResourceWorkers> = Vec::new();
        let mut i: usize = 0;
        while i < self.repair_list.len()
            invariant
                i <= self.repair_list.len(),
                d0 == entries_view(self.repair_list@),
                entries_view(kept@) == keep(d0.take(i as int), not_repaired(structs@)),
            decreases self.repair_list.len() - i,
        {
            proof {
                assert(d0.take(i + 1).drop_last() =~= d0.take(i as int));
                assert(d0[i as int] == entry_view(self.repair_list@[i as int]));
            }
            let t = self.repair_list[i].tag;
            let full = is_repaired(structs, t);
            let ghost before = kept@;
            if !full {
                let e = ResourceWorkers { tag: t, workers: self.repair_list[i].workers.clone() };
                kept.push(e);
                assert(entries_view(kept@) =~= entries_view(before).push(entry_view(e)));
            }
            i += 1;
        }
        assert(d0.take(d0.len() as int) =~= d0);
        let ghost k0 = entries_view(kept@);
        let mut j: usize = 0;
        while j < structs.len()
            invariant
                j <= structs.len(),
                entries_view(kept@) == add_damaged(k0, structs@.take(j as int)),
            decreases structs.len() - j,
        {
            proof {
                assert(structs@.take(j + 1).drop_last() =~= structs@.take(j as int));
            }
            let c = structs[j];
            let ghost before = kept@;
            if c.is_ready && c.damaged {
                let found = find_entry(&kept, c.tag);
                proof {
                    let kv = entries_view(before);
                    crate::seq_util::lemma_first_index_spec(kv, for_tag(c.tag));
                    if keys_of(kv).contains(c.tag) {
                        let m = choose|m: int| 0 <= m < keys_of(kv).len() && keys_of(kv)[m] == c.tag;
                        assert(kv[m].0 == c.tag);
                    }
                    if found is Some {
                        assert(keys_of(kv)[found->0 as int] == c.tag);
                    }
                }
                if found.is_none() {
                    kept.push(ResourceWorkers { tag: c.tag, workers: Vec::new() });
                    assert(entries_view(kept@) =~= entries_view(before).push((c.tag, seq![])));
                }
            }
            j += 1;
        }
        assert(structs@.take(structs.len() as int) =~= structs@);
        self.repair_list = kept;
    }
}

fn is_repaired(structs: &Vec<RepairCandidate>, tag: u64) -> (r: bool)
    ensures
        r == repaired(structs@, tag),
{
    let mut i: usize = 0;
    while i < structs.len()
        invariant
            i <= structs.len(),
            forall|j: int| 0 <= j < i ==> (#[trigger] structs@[j]).tag != tag,
        decreases structs.len() - i,
    {
        if structs[i].tag == tag {
            proof {
                crate::seq_util::lemma_first_index_found(structs@, |c: RepairCandidate| c.tag == tag, i as int);
            }
            return structs[i].full_health;
        }
        i += 1;
    }
    proof {
        crate::seq_util::lemma_first_index_none(structs@, |c: RepairCandidate| c.tag == tag);
    }
    false
}

impl ScvControl {
    /// The older worker step: the step's lists are cleared, the distribution
    /// is kept to `valid` resources, the repair list refreshed, resources and
    /// workers sorted, and workers freed where the saturation is out of
    /// balance.
    pub fn distribute_workers(&mut self, valid: &Vec<u64>, mineral_fields: &Vec<u64>, structures: &Vec<u64>, workers: &Vec<u64>, repairs: &Vec<RepairCandidate>)
        ensures
            entries_view(final(self).repair_list@) == refreshed_repairs(entries_view(old(self).repair_list@), repairs@),
            ({
                let d = refreshed_distribution(entries_view(old(self).mining_distribution@), valid@);
                let res = classify_resources(keys_of(d), mineral_fields@, structures@, seq![], seq![]);
                let ws = classify_workers(d, mineral_fields@, structures@, workers@, seq![], seq![]);
                let idle = add_unassigned(seq![], workers@, ws.0, ws.1);
                let over = overflow_list(d, res.0, res.1);
                &&& final(self).current_mineral_fields@ == res.0
                &&& final(self).current_refineries@ == res.1
                &&& final(self).current_mineral_workers@ == ws.0
                &&& final(self).current_gas_workers@ == ws.1
                &&& if imbalanced_at(d, res.0, res.1) {
                    &&& entries_view(final(self).mining_distribution@) == free_overflow(d, seq![], over).0
                    &&& final(self).current_idle_workers@ == add_present(idle, free_overflow(d, seq![], over).1, workers@)
                } else {
                    &&& entries_view(final(self).mining_distribution@) == d
                    &&& final(self).current_idle_workers@ == idle
                }
            }),
    {
        self.reset_frame();
        assert(self.current_mineral_fields@ =~= Seq::<u64>::empty());
        assert(self.current_refineries@ =~= Seq::<u64>::empty());
        assert(self.current_mineral_workers@ =~= Seq::<u64>::empty());
        assert(self.current_gas_workers@ =~= Seq::<u64>::empty());
        assert(self.current_idle_workers@ =~= Seq::<u64>::empty());
        self.init_mineral_fields_and_refineries(valid);
        self.init_repair_targets(repairs);
        self.get_worker_allocations(mineral_fields, structures, workers);
        self.split_workers(workers);
    }
}

pub open spec fn distinct_tags(s: Seq<u64>) -> bool {
    forall|i: int, j: int| 0 <= i < j < s.len() ==> s[i] != s[j]
}

pub open spec fn over_tags(over: Seq<(u64, u32)>) -> Seq<u64> {
    over.map_values(|p: (u64, u32)| p.0)
}

proof fn lemma_pop_n_len(ws: Seq<u64>, n: nat)
    ensures
        pop_n(ws, n).0.len() == if n <= ws.len() { ws.len() - n } else { 0 },
    decreases n,
{
    if n > 0 {
        lemma_pop_n_len(ws, (n - 1) as nat);
    }
}

proof fn lemma_unique_index(d: Seq<(u64, Seq<u64>)>, k: int)
    requires
        unique_keys(d),
        0 <= k < d.len(),
    ensures
        crate::seq_util::first_index(d, for_tag(d[k].0)) == Some(k),
{
    crate::seq_util::lemma_first_index_found(d, for_tag(d[k].0), k);
}

/// What freeing does to each resource: one named in the list loses as many
/// workers off its end as the list says; the others keep theirs.
proof fn lemma_free_overflow(d: Seq<(u64, Seq<u64>)>, freed: Seq<u64>, over: Seq<(u64, u32)>)
    requires
        unique_keys(d),
        distinct_tags(over_tags(over)),
    ensures
        free_overflow(d, freed, over).0.len() == d.len(),
        forall|k: int| 0 <= k < d.len() ==> (#[trigger] free_overflow(d, freed, over).0[k]).0 == d[k].0,
        forall|k: int, j: int|
            0 <= k < d.len() && 0 <= j < over.len() && over[j].0 == d[k].0 ==> (#[trigger] free_overflow(
                d,
                freed,
                over,
            ).0[k]).1 == pop_n(d[k].1, #[trigger] over[j].1 as nat).0,
        forall|k: int|
            0 <= k < d.len() && !over_tags(over).contains(d[k].0) ==> (#[trigger] free_overflow(d, freed, over).0[k]).1
                == d[k].1,
    decreases over.len(),
{
    if over.len() > 0 {
        let init = over.drop_last();
        assert(distinct_tags(over_tags(init))) by {
            assert forall|i: int, j: int| 0 <= i < j < over_tags(init).len() implies over_tags(init)[i] != over_tags(
                init,
            )[j] by {
                assert(over_tags(init)[i] == over_tags(over)[i]);
                assert(over_tags(init)[j] == over_tags(over)[j]);
            }
        }
        lemma_free_overflow(d, freed, init);
        let p = free_overflow(d, freed, init);
        let t = over.last().0;
        let c = over.last().1;
        assert(unique_keys(p.0)) by {
            assert forall|i: int, j: int| 0 <= i < j < p.0.len() implies #[trigger] p.0[i].0 != #[trigger] p.0[j].0 by {
                assert(p.0[i].0 == d[i].0 && p.0[j].0 == d[j].0);
            }
        }
        let r = free_overflow(d, freed, over);
        // the last tag is not among the earlier ones
        assert(!over_tags(init).contains(t)) by {
            if over_tags(init).contains(t) {
                let i = choose|i: int| 0 <= i < over_tags(init).len() && over_tags(init)[i] == t;
                assert(over_tags(over)[i] == t);
                assert(over_tags(over)[over.len() - 1] == t);
            }
        }
        crate::seq_util::lemma_first_index_spec(p.0, for_tag(t));
        match crate::seq_util::first_index(p.0, for_tag(t)) {
            Some(m) => {
                assert(p.0[m].0 == t);
                assert(d[m].0 == t);
                assert(!over_tags(init).contains(d[m].0));
                assert(p.0[m].1 == d[m].1);
                assert forall|k: int, j: int|
                    0 <= k < d.len() && 0 <= j < over.len() && over[j].0 == d[k].0 implies (#[trigger] r.0[k]).1
                        == pop_n(d[k].1, #[trigger] over[j].1 as nat).0 by {
                    if j == over.len() - 1 {
                        assert(d[k].0 == t);
                        if k != m {
                            assert(d[k].0 != d[m].0);
                        }
                    } else {
                        assert(init[j] == over[j]);
                        assert(over_tags(init)[j] == d[k].0);
                        if k == m {
                            assert(over_tags(init).contains(t));
                        }
                    }
                }
                assert forall|k: int| 0 <= k < d.len() && !over_tags(over).contains(d[k].0) implies (
                #[trigger] r.0[k]).1 == d[k].1 by {
                    if k == m {
                        assert(over_tags(over)[over.len() - 1] == t);
                    }
                    assert(!over_tags(init).contains(d[k].0)) by {
                        if over_tags(init).contains(d[k].0) {
                            let i = choose|i: int| 0 <= i < over_tags(init).len() && over_tags(init)[i] == d[k].0;
                            assert(over_tags(over)[i] == d[k].0);
                        }
                    }
                }
            },
            None => {
                assert forall|k: int, j: int|
                    0 <= k < d.len() && 0 <= j < over.len() && over[j].0 == d[k].0 implies (#[trigger] r.0[k]).1
                        == pop_n(d[k].1, #[trigger] over[j].1 as nat).0 by {
                    if j == over.len() - 1 {
                        assert(!for_tag(t)(p.0[k]));
                    } else {
                        assert(init[j] == over[j]);
                    }
                }
                assert forall|k: int| 0 <= k < d.len() && !over_tags(over).contains(d[k].0) implies (
                #[trigger] r.0[k]).1 == d[k].1 by {
                    assert(!over_tags(init).contains(d[k].0)) by {
                        if over_tags(init).contains(d[k].0) {
                            let i = choose|i: int| 0 <= i < over_tags(init).len() && over_tags(init)[i] == d[k].0;
                            assert(over_tags(over)[i] == d[k].0);
                        }
                    }
                }
            },
        }
    }
}

/// The overflow list names only resources of the list that hold more than
/// the target, each with its surplus, and names every such resource.
proof fn lemma_overflows(d: Seq<(u64, Seq<u64>)>, tags: Seq<u64>, target: u32)
    ensures
        forall|j: int|
            0 <= j < overflows(d, tags, target).len() ==> tags.contains((#[trigger] overflows(d, tags, target)[j]).0)
                && assigned_to(d, overflows(d, tags, target)[j].0) > target && overflows(d, tags, target)[j].1
                == assigned_to(d, overflows(d, tags, target)[j].0) - target,
        forall|t: u64|
            #[trigger] tags.contains(t) && assigned_to(d, t) > target ==> over_tags(overflows(d, tags, target)).contains(t),
        distinct_tags(tags) ==> distinct_tags(over_tags(overflows(d, tags, target))),
    decreases tags.len(),
{
    if tags.len() > 0 {
        let init = tags.drop_last();
        lemma_overflows(d, init, target);
        let a = overflows(d, init, target);
        let r = overflows(d, tags, target);
        let t = tags.last();
        assert forall|j: int| 0 <= j < r.len() implies tags.contains((#[trigger] r[j]).0) && assigned_to(d, r[j].0)
            > target && r[j].1 == assigned_to(d, r[j].0) - target by {
            if j < a.len() {
                assert(r[j] == a[j]);
                let i = choose|i: int| 0 <= i < init.len() && init[i] == a[j].0;
                assert(tags[i] == init[i]);
            } else {
                assert(tags[tags.len() - 1] == t);
            }
        }
        assert forall|u: u64| #[trigger] tags.contains(u) && assigned_to(d, u) > target implies over_tags(r).contains(
            u,
        ) by {
            let i = choose|i: int| 0 <= i < tags.len() && tags[i] == u;
            if i < tags.len() - 1 {
                assert(init[i] == u);
                assert(init.contains(u));
                let m = choose|m: int| 0 <= m < over_tags(a).len() && over_tags(a)[m] == u;
                assert(over_tags(r)[m] == u);
            } else {
                assert(over_tags(r)[r.len() - 1] == u);
            }
        }
        if distinct_tags(tags) {
            assert(distinct_tags(init)) by {
                assert forall|i: int, j: int| 0 <= i < j < init.len() implies init[i] != init[j] by {
                    assert(init[i] == tags[i] && init[j] == tags[j]);
                }
            }
            assert forall|i: int, j: int| 0 <= i < j < over_tags(r).len() implies over_tags(r)[i] != over_tags(r)[j] by {
                if j < a.len() {
                    assert(over_tags(r)[i] == over_tags(a)[i] && over_tags(r)[j] == over_tags(a)[j]);
                } else {
                    assert(over_tags(r)[j] == t);
                    assert(over_tags(r)[i] == a[i].0);
                    let m = choose|m: int| 0 <= m < init.len() && init[m] == a[i].0;
                    assert(tags[m] == init[m]);
                }
            }
        }
    }
}

/// After workers are freed, no mineral field holds more than two workers and
/// no refinery more than three; every resource keeps its place and the
/// others keep their workers. (Resources in both lists, or lists with a
/// resource twice, are outside what the step produces.)
pub proof fn freeing_restores_saturation(d: Seq<(u64, Seq<u64>)>, fields: Seq<u64>, refineries: Seq<u64>)
    requires
        unique_keys(d),
        distinct_tags(fields),
        distinct_tags(refineries),
        forall|t: u64| fields.contains(t) ==> !refineries.contains(t),
        forall|k: int| 0 <= k < d.len() ==> (#[trigger] d[k]).1.len() <= u32::MAX,
    ensures
        free_overflow(d, seq![], overflow_list(d, fields, refineries)).0.len() == d.len(),
        forall|k: int|
            0 <= k < d.len() ==> (#[trigger] free_overflow(d, seq![], overflow_list(d, fields, refineries)).0[k]).0
                == d[k].0,
        forall|k: int|
            0 <= k < d.len() && fields.contains(d[k].0) ==> (#[trigger] free_overflow(
                d,
                seq![],
                overflow_list(d, fields, refineries),
            ).0[k]).1.len() <= 2,
        forall|k: int|
            0 <= k < d.len() && refineries.contains(d[k].0) ==> (#[trigger] free_overflow(
                d,
                seq![],
                overflow_list(d, fields, refineries),
            ).0[k]).1.len() <= 3,
{
    let of = overflows(d, fields, 2);
    let orf = overflows(d, refineries, 3);
    let over = overflow_list(d, fields, refineries);
    lemma_overflows(d, fields, 2);
    lemma_overflows(d, refineries, 3);
    assert(over_tags(over) =~= over_tags(of) + over_tags(orf));
    assert(distinct_tags(over_tags(over))) by {
        assert forall|i: int, j: int| 0 <= i < j < over_tags(over).len() implies over_tags(over)[i] != over_tags(
            over,
        )[j] by {
            if j < of.len() {
                assert(over_tags(over)[i] == over_tags(of)[i] && over_tags(over)[j] == over_tags(of)[j]);
            } else if i >= of.len() {
                assert(over_tags(over)[i] == over_tags(orf)[i - of.len()]);
                assert(over_tags(over)[j] == over_tags(orf)[j - of.len()]);
            } else {
                assert(over_tags(over)[i] == of[i].0);
                assert(over_tags(over)[j] == orf[j - of.len()].0);
                assert(fields.contains(of[i].0));
                assert(refineries.contains(orf[j - of.len()].0));
            }
        }
    }
    lemma_free_overflow(d, seq![], over);
    let r = free_overflow(d, seq![], over);
    assert forall|k: int| 0 <= k < d.len() && fields.contains(d[k].0) implies (#[trigger] r.0[k]).1.len() <= 2 by {
        let t = d[k].0;
        lemma_unique_index(d, k);
        assert(assigned_to(d, t) == d[k].1.len() as u32);
        if assigned_to(d, t) > 2 {
            assert(over_tags(of).contains(t));
            let j = choose|j: int| 0 <= j < over_tags(of).len() && over_tags(of)[j] == t;
            assert(over[j] == of[j]);
            assert(of[j].1 == assigned_to(d, t) - 2);
            lemma_pop_n_len(d[k].1, over[j].1 as nat);
        } else {
            if over_tags(over).contains(t) {
                let j = choose|j: int| 0 <= j < over_tags(over).len() && over_tags(over)[j] == t;
                if j < of.len() {
                    assert(over_tags(of)[j] == t);
                    assert(of[j].0 == t);
                } else {
                    assert(orf[j - of.len()].0 == t);
                    assert(refineries.contains(t));
                }
            }
        }
    }
    assert forall|k: int| 0 <= k < d.len() && refineries.contains(d[k].0) implies (#[trigger] r.0[k]).1.len() <= 3 by {
        let t = d[k].0;
        lemma_unique_index(d, k);
        assert(assigned_to(d, t) == d[k].1.len() as u32);
        if assigned_to(d, t) > 3 {
            assert(over_tags(orf).contains(t));
            let j = choose|j: int| 0 <= j < over_tags(orf).len() && over_tags(orf)[j] == t;
            assert(over[j + of.len()] == orf[j]);
            assert(orf[j].1 == assigned_to(d, t) - 3);
            lemma_pop_n_len(d[k].1, over[j + of.len()].1 as nat);
        } else {
            if over_tags(over).contains(t) {
                let j = choose|j: int| 0 <= j < over_tags(over).len() && over_tags(over)[j] == t;
                if j < of.len() {
                    assert(of[j].0 == t);
                    assert(fields.contains(t));
                } else {
                    assert(over_tags(orf)[j - of.len()] == t);
                    assert(orf[j - of.len()].0 == t);
                }
            }
        }
    }
}

} // verus!
