//! The debugging switches, the mining step each worker is in, and the
//! checks that the debugging output reports.
use vstd::prelude::*;
use crate::seq_util::{first_index, lemma_first_index_found, lemma_first_index_none};

verus! {

/// Where a worker is in its mining trip.
#[derive(Clone, Copy, Debug, PartialEq, Eq, Structural)]
pub enum WorkersMiningSteps {
    MineralFarAway,
    MineralOffsetWalk,
    MineralGather,
    BaseFarAway,
    BaseOffsetWalk,
    BaseReturn,
    /// Not in any step.
    NoStep,
}

/// A worker and its mining step.
#[derive(Clone, Copy, Debug, PartialEq, Eq, Structural)]
pub struct WorkersCurrentMiningStep {
    pub tag: u64,
    pub step: WorkersMiningSteps,
}

/// What the bot prints and draws while it plays.
#[derive(Clone, Debug)]
pub struct NikolajDebugger {
    /// The game loop the messages are stamped with.
    pub time: u32,
    pub printing_full_resource_assignments: bool,
    pub printing_bases_assignments: bool,
    pub printing_workers_assignments: bool,
    pub printing_resources_assignments: bool,
    pub printing_full_repair_assignments: bool,
    pub printing_repair_targets_assignments: bool,
    pub printing_construction: bool,
    pub printing_full_construction_info: bool,
    pub printing_combat_info: bool,
    pub printing_build_order: bool,
    pub printing_research: bool,
    pub printing_enemy_army_snapshot: bool,
    pub displaying_worker_roles: bool,
    pub displaying_worker_mining_steps: bool,
    pub displaying_bases: bool,
    pub displaying_repair: bool,
    pub displaying_mining: bool,
    pub displaying_strategy_points: bool,
    pub displaying_details_selected: bool,
    pub displaying_heatmaps_selected: bool,
    pub displaying_surroundings_selected: bool,
    pub displaying_strategy_monitor: bool,
    pub displaying_main_path: bool,
    pub run_resource_assignments_checks: bool,
    pub workers_current_mining_steps: Vec<WorkersCurrentMiningStep>,
}

impl NikolajDebugger {
    /// The switches for a game: in a headless or wine game the map overlays
    /// are drawn; in a windowed game construction is printed and only the
    /// selected units' details are drawn.
    pub fn configured(headless: bool) -> (d: NikolajDebugger)
        ensures
            d.time == 0,
            !d.printing_full_resource_assignments,
            !d.printing_bases_assignments,
            !d.printing_workers_assignments,
            !d.printing_resources_assignments,
            !d.printing_full_repair_assignments,
            !d.printing_repair_targets_assignments,
            d.printing_construction == !headless,
            !d.printing_full_construction_info,
            !d.printing_combat_info,
            !d.printing_build_order,
            !d.printing_research,
            !d.printing_enemy_army_snapshot,
            !d.displaying_worker_roles,
            !d.displaying_worker_mining_steps,
            d.displaying_bases == headless,
            !d.displaying_repair,
            d.displaying_mining == headless,
            d.displaying_strategy_points == headless,
            d.displaying_details_selected,
            d.displaying_heatmaps_selected == headless,
            d.displaying_surroundings_selected == headless,
            d.displaying_strategy_monitor == headless,
            d.displaying_main_path == headless,
            !d.run_resource_assignments_checks,
            d.workers_current_mining_steps@.len() == 0,
    {
        NikolajDebugger {
            time: 0,
            printing_full_resource_assignments: false,
            printing_bases_assignments: false,
            printing_workers_assignments: false,
            printing_resources_assignments: false,
            printing_full_repair_assignments: false,
            printing_repair_targets_assignments: false,
            printing_construction: !headless,
            printing_full_construction_info: false,
            printing_combat_info: false,
            printing_build_order: false,
            printing_research: false,
            printing_enemy_army_snapshot: false,
            displaying_worker_roles: false,
            displaying_worker_mining_steps: false,
            displaying_bases: headless,
            displaying_repair: false,
            displaying_mining: headless,
            displaying_strategy_points: headless,
            displaying_details_selected: true,
            displaying_heatmaps_selected: headless,
            displaying_surroundings_selected: headless,
            displaying_strategy_monitor: headless,
            displaying_main_path: headless,
            run_resource_assignments_checks: false,
            workers_current_mining_steps: Vec::new(),
        }
    }

    /// Records a worker's mining step: the worker's entry is updated, or a
    /// new one is added at the end.
    pub fn add_mining_step(&mut self, tag: u64, step: WorkersMiningSteps)
        ensures
            final(self).workers_current_mining_steps@ == with_step(old(self).workers_current_mining_steps@, tag, step),
            final(self).time == old(self).time,
    {
        let mut i: usize = 0;
        while i < self.workers_current_mining_steps.len()
            invariant
                i <= self.workers_current_mining_steps.len(),
                self.workers_current_mining_steps@ == old(self).workers_current_mining_steps@,
                self.time == old(self).time,
                forall|j: int| 0 <= j < i ==> (#[trigger] self.workers_current_mining_steps@[j]).tag != tag,
            decreases self.workers_current_mining_steps.len() - i,
        {
            if self.workers_current_mining_steps[i].tag == tag {
                proof {
                    lemma_first_index_found(self.workers_current_mining_steps@, of_worker(tag), i as int);
                }
                self.workers_current_mining_steps.set(i, WorkersCurrentMiningStep { tag, step });
                return;
            }
            i += 1;
        }
        proof {
            lemma_first_index_none(self.workers_current_mining_steps@, of_worker(tag));
        }
        self.workers_current_mining_steps.push(WorkersCurrentMiningStep { tag, step });
    }
}

pub open spec fn of_worker(tag: u64) -> spec_fn(WorkersCurrentMiningStep) -> bool {
    |w: WorkersCurrentMiningStep| w.tag == tag
}

/// The steps after recording one: the first entry of the worker takes the
/// new step, or the worker is added at the end.
pub open spec fn with_step(steps: Seq<WorkersCurrentMiningStep>, tag: u64, step: WorkersMiningSteps) -> Seq<WorkersCurrentMiningStep> {
    match first_index(steps, of_worker(tag)) {
        Some(k) => steps.update(k, WorkersCurrentMiningStep { tag, step }),
        None => steps.push(WorkersCurrentMiningStep { tag, step }),
    }
}

/// Recording a step keeps one entry per worker, and the worker's entry holds
/// the step recorded last.
pub proof fn mining_steps_stay_unique(steps: Seq<WorkersCurrentMiningStep>, tag: u64, step: WorkersMiningSteps)
    requires
        forall|i: int, j: int| 0 <= i < j < steps.len() ==> #[trigger] steps[i].tag != #[trigger] steps[j].tag,
    ensures
        forall|i: int, j: int|
            0 <= i < j < with_step(steps, tag, step).len() ==> #[trigger] with_step(steps, tag, step)[i].tag
                != #[trigger] with_step(steps, tag, step)[j].tag,
        exists|k: int| 0 <= k < with_step(steps, tag, step).len() && #[trigger] with_step(steps, tag, step)[k]
            == (WorkersCurrentMiningStep { tag, step }),
{
    crate::seq_util::lemma_first_index_spec(steps, of_worker(tag));
    let r = with_step(steps, tag, step);
    match first_index(steps, of_worker(tag)) {
        Some(k) => {
            assert(r[k] == (WorkersCurrentMiningStep { tag, step }));
        },
        None => {
            assert(r[steps.len() as int] == (WorkersCurrentMiningStep { tag, step }));
        },
    }
}

/// The bases that joined and the bases that left.
pub struct BasesChange {
    pub added: Vec<u64>,
    pub removed: Vec<u64>,
}

pub open spec fn not_in(s: Seq<u64>) -> spec_fn(u64) -> bool {
    |t: u64| !s.contains(t)
}

/// Compares two lists of bases: the new ones not in the old list, in order,
/// and the old ones not in the new list, in order.
pub fn new_bases_assignments(old_bases: &Vec<u64>, new_bases: &Vec<u64>) -> (r: BasesChange)
    ensures
        r.added@ == crate::seq_util::keep(new_bases@, not_in(old_bases@)),
        r.removed@ == crate::seq_util::keep(old_bases@, not_in(new_bases@)),
{
    let mut added: Vec<u64> = Vec::new();
    let mut i: usize = 0;
    while i < new_bases.len()
        invariant
            i <= new_bases.len(),
            added@ == crate::seq_util::keep(new_bases@.take(i as int), not_in(old_bases@)),
        decreases new_bases.len() - i,
    {
        proof {
            assert(new_bases@.take(i + 1).drop_last() =~= new_bases@.take(i as int));
        }
        if !crate::army::vec_contains_u64(old_bases, new_bases[i]) {
            added.push(new_bases[i]);
        }
        i += 1;
    }
    assert(new_bases@.take(new_bases.len() as int) =~= new_bases@);
    let mut removed: Vec<u64> = Vec::new();
    let mut k: usize = 0;
    while k < old_bases.len()
        invariant
            k <= old_bases.len(),
            removed@ == crate::seq_util::keep(old_bases@.take(k as int), not_in(new_bases@)),
        decreases old_bases.len() - k,
    {
        proof {
            assert(old_bases@.take(k + 1).drop_last() =~= old_bases@.take(k as int));
        }
        if !crate::army::vec_contains_u64(new_bases, old_bases[k]) {
            removed.push(old_bases[k]);
        }
        k += 1;
    }
    assert(old_bases@.take(old_bases.len() as int) =~= old_bases@);
    BasesChange { added, removed }
}

/// The workers a resource has, and the role they play there.
#[derive(Clone, Debug)]
pub struct ResourceAllocation {
    pub role: u32,
    pub workers: Vec<u64>,
}

/// A worker found at a second resource: the worker, the role it was first
/// seen with, and the role of the resource where it was seen again.
#[derive(Clone, Copy, Debug, PartialEq, Eq, Structural)]
pub struct DoubleAssignment {
    pub worker: u64,
    pub first_role: u32,
    pub other_role: u32,
}

/// The assignments of a list of allocations, in order, as (worker, role).
pub open spec fn assignments(allocs: Seq<ResourceAllocation>) -> Seq<(u64, u32)>
    decreases allocs.len(),
{
    if allocs.len() == 0 {
        seq![]
    } else {
        let a = allocs.last();
        assignments(allocs.drop_last()) + a.workers@.map_values(|w: u64| (w, a.role))
    }
}

pub open spec fn same_worker(w: u64) -> spec_fn((u64, u32)) -> bool {
    |p: (u64, u32)| p.0 == w
}

/// Walks the assignments: a worker seen before is reported with the role it
/// was first seen with.
pub open spec fn doubles(seen: Seq<(u64, u32)>) -> Seq<DoubleAssignment>
    decreases seen.len(),
{
    if seen.len() == 0 {
        seq![]
    } else {
        let init = seen.drop_last();
        let p = seen.last();
        doubles(init) + match first_index(init, same_worker(p.0)) {
            Some(k) => seq![DoubleAssignment { worker: p.0, first_role: init[k].1, other_role: p.1 }],
            None => seq![],
        }
    }
}

fn first_role_of(seen: &Vec<(u64, u32)>, w: u64) -> (r: Option<u32>)
    ensures
        r == match first_index(seen@, same_worker(w)) {
            Some(k) => Some(seen@[k].1),
            None => None,
        },
{
    let mut k: usize = 0;
    while k < seen.len()
        invariant
            k <= seen.len(),
            forall|m: int| 0 <= m < k ==> (#[trigger] seen@[m]).0 != w,
        decreases seen.len() - k,
    {
        if seen[k].0 == w {
            proof {
                lemma_first_index_found(seen@, same_worker(w), k as int);
            }
            return Some(seen[k].1);
        }
        k += 1;
    }
    proof {
        lemma_first_index_none(seen@, same_worker(w));
    }
    None
}

/// Finds the workers assigned to more than one resource.
pub fn debug_resource_assignments_checks(allocs: &Vec<ResourceAllocation>) -> (r: Vec<DoubleAssignment>)
    ensures
        r@ == doubles(assignments(allocs@)),
{
    let mut seen: Vec<(u64, u32)> = Vec::new();
    let mut out: Vec<DoubleAssignment> = Vec::new();
    let mut i: usize = 0;
    while i < allocs.len()
        invariant
            i <= allocs.len(),
            seen@ == assignments(allocs@.take(i as int)),
            out@ == doubles(seen@),
        decreases allocs.len() - i,
    {
        proof {
            assert(allocs@.take(i + 1).drop_last() =~= allocs@.take(i as int));
        }
        let a = &allocs[i];
        let ghost seen0 = seen@;
        let mut j: usize = 0;
        while j < a.workers.len()
            invariant
                j <= a.workers.len(),
                seen@ == seen0 + a.workers@.take(j as int).map_values(|w: u64| (w, a.role)),
                out@ == doubles(seen@),
            decreases a.workers.len() - j,
        {
            let w = a.workers[j];
            let found = first_role_of(&seen, w);
            let ghost before = seen@;
            seen.push((w, a.role));
            proof {
                assert(seen@.drop_last() == before);
                assert(seen@ =~= seen0 + a.workers@.take(j + 1).map_values(|w: u64| (w, a.role)));
            }
            match found {
                Some(role) => out.push(DoubleAssignment { worker: w, first_role: role, other_role: a.role }),
                None => {},
            }
            assert(out@ =~= doubles(seen@));
            j += 1;
        }
        assert(a.workers@.take(a.workers.len() as int) =~= a.workers@);
        i += 1;
    }
    assert(allocs@.take(allocs.len() as int) =~= allocs@);
    out
}

/// The drawing color a name stands for; an unknown name draws white.
pub open spec fn color_named(c: Seq<char>) -> (u32, u32, u32) {
    if c == "red"@ {
        (255, 0, 0)
    } else if c == "green"@ {
        (0, 255, 0)
    } else if c == "blue"@ {
        (0, 0, 255)
    } else if c == "cyan"@ {
        (0, 255, 255)
    } else if c == "yellow"@ {
        (255, 255, 0)
    } else if c == "magenta"@ {
        (255, 0, 255)
    } else if c == "orange"@ {
        (255, 165, 0)
    } else if c == "black"@ {
        (0, 0, 0)
    } else {
        (255, 255, 255)
    }
}

/// Reads the drawing color a name stands for.
pub fn get_debug_color(c: &str) -> (r: (u32, u32, u32))
    ensures
        r == color_named(c@),
{
    if crate::chat::str_is(c, "red") {
        (255, 0, 0)
    } else if crate::chat::str_is(c, "green") {
        (0, 255, 0)
    } else if crate::chat::str_is(c, "blue") {
        (0, 0, 255)
    } else if crate::chat::str_is(c, "cyan") {
        (0, 255, 255)
    } else if crate::chat::str_is(c, "yellow") {
        (255, 255, 0)
    } else if crate::chat::str_is(c, "magenta") {
        (255, 0, 255)
    } else if crate::chat::str_is(c, "orange") {
        (255, 165, 0)
    } else if crate::chat::str_is(c, "black") {
        (0, 0, 0)
    } else {
        (255, 255, 255)
    }
}

} // verus!
