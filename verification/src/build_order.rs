//! The unit-driven build order: which units to make, what structure each
//! comes from, which tech is missing, and how production is ordered and paid.
use vstd::prelude::*;
use crate::build_strategy::Race;
use crate::seq_util::{keep, lemma_keep};
use crate::economy::{CostTable, Economy, affordable, after_paying, can_afford, cost_of, subtract_resources};
use crate::unit_types::{
    ARMORY, BANSHEE, BARRACKS, BARRACKS_REACTOR, BARRACKS_TECH_LAB, BATTLECRUISER, BUNKER,
    COMMAND_CENTER, CYCLONE, ENGINEERING_BAY, FACTORY, FACTORY_REACTOR, FACTORY_TECH_LAB,
    FUSION_CORE, GHOST, GHOST_ACADEMY, HELLION, LIBERATOR, MARAUDER, MARINE, MEDIVAC,
    MISSILE_TURRET, RAVEN, REAPER, REFINERY, SENSOR_TOWER, SIEGE_TANK, STARPORT,
    STARPORT_REACTOR, STARPORT_TECH_LAB, SUPPLY_DEPOT, THOR, VIKING_FIGHTER, WIDOW_MINE,
    needs_techlab,
};

verus! {

/// The production structure a unit is trained at.
#[verifier::allow_in_spec]
pub fn unit_source(u: u32) -> Option<u32>
    returns
        if u == MARINE || u == MARAUDER || u == REAPER || u == GHOST {
            Some(BARRACKS)
        } else if u == HELLION || u == WIDOW_MINE || u == CYCLONE || u == SIEGE_TANK || u == THOR {
            Some(FACTORY)
        } else if u == VIKING_FIGHTER || u == BANSHEE || u == LIBERATOR || u == RAVEN || u == MEDIVAC
            || u == BATTLECRUISER {
            Some(STARPORT)
        } else {
            None
        },
{
    if u == MARINE || u == MARAUDER || u == REAPER || u == GHOST {
        Some(BARRACKS)
    } else if u == HELLION || u == WIDOW_MINE || u == CYCLONE || u == SIEGE_TANK || u == THOR {
        Some(FACTORY)
    } else if u == VIKING_FIGHTER || u == BANSHEE || u == LIBERATOR || u == RAVEN || u == MEDIVAC
        || u == BATTLECRUISER {
        Some(STARPORT)
    } else {
        None
    }
}

/// The structure a unit or structure needs before it can be made.
#[verifier::allow_in_spec]
pub fn tech_requirement(u: u32) -> Option<u32>
    returns
        if u == MARINE || u == MARAUDER || u == REAPER {
            Some(BARRACKS)
        } else if u == GHOST {
            Some(GHOST_ACADEMY)
        } else if u == HELLION || u == WIDOW_MINE || u == CYCLONE || u == SIEGE_TANK {
            Some(FACTORY)
        } else if u == THOR {
            Some(ARMORY)
        } else if u == VIKING_FIGHTER || u == BANSHEE || u == LIBERATOR || u == RAVEN || u == MEDIVAC {
            Some(STARPORT)
        } else if u == BATTLECRUISER {
            Some(FUSION_CORE)
        } else if u == BARRACKS {
            Some(SUPPLY_DEPOT)
        } else if u == FACTORY || u == BARRACKS_TECH_LAB || u == BARRACKS_REACTOR || u == GHOST_ACADEMY
            || u == BUNKER {
            Some(BARRACKS)
        } else if u == STARPORT || u == FACTORY_TECH_LAB || u == FACTORY_REACTOR || u == ARMORY {
            Some(FACTORY)
        } else if u == STARPORT_TECH_LAB || u == STARPORT_REACTOR || u == FUSION_CORE {
            Some(STARPORT)
        } else if u == SUPPLY_DEPOT || u == REFINERY || u == ENGINEERING_BAY {
            Some(COMMAND_CENTER)
        } else if u == MISSILE_TURRET || u == SENSOR_TOWER {
            Some(ENGINEERING_BAY)
        } else {
            None
        },
{
    if u == MARINE || u == MARAUDER || u == REAPER {
        Some(BARRACKS)
    } else if u == GHOST {
        Some(GHOST_ACADEMY)
    } else if u == HELLION || u == WIDOW_MINE || u == CYCLONE || u == SIEGE_TANK {
        Some(FACTORY)
    } else if u == THOR {
        Some(ARMORY)
    } else if u == VIKING_FIGHTER || u == BANSHEE || u == LIBERATOR || u == RAVEN || u == MEDIVAC {
        Some(STARPORT)
    } else if u == BATTLECRUISER {
        Some(FUSION_CORE)
    } else if u == BARRACKS {
        Some(SUPPLY_DEPOT)
    } else if u == FACTORY || u == BARRACKS_TECH_LAB || u == BARRACKS_REACTOR || u == GHOST_ACADEMY
        || u == BUNKER {
        Some(BARRACKS)
    } else if u == STARPORT || u == FACTORY_TECH_LAB || u == FACTORY_REACTOR || u == ARMORY {
        Some(FACTORY)
    } else if u == STARPORT_TECH_LAB || u == STARPORT_REACTOR || u == FUSION_CORE {
        Some(STARPORT)
    } else if u == SUPPLY_DEPOT || u == REFINERY || u == ENGINEERING_BAY {
        Some(COMMAND_CENTER)
    } else if u == MISSILE_TURRET || u == SENSOR_TOWER {
        Some(ENGINEERING_BAY)
    } else {
        None
    }
}

/// The tech lab add-on of a production structure.
#[verifier::allow_in_spec]
pub fn techlab_of(source: u32) -> Option<u32>
    returns
        if source == BARRACKS {
            Some(BARRACKS_TECH_LAB)
        } else if source == FACTORY {
            Some(FACTORY_TECH_LAB)
        } else if source == STARPORT {
            Some(STARPORT_TECH_LAB)
        } else {
            None
        },
{
    if source == BARRACKS {
        Some(BARRACKS_TECH_LAB)
    } else if source == FACTORY {
        Some(FACTORY_TECH_LAB)
    } else if source == STARPORT {
        Some(STARPORT_TECH_LAB)
    } else {
        None
    }
}

/// How far down the tech tree a type sits: each requirement sits one step
/// higher, and the command center, which needs nothing, at the top.
pub open spec fn tech_rank(u: u32) -> nat {
    if u == BATTLECRUISER {
        6
    } else if u == BANSHEE || u == FUSION_CORE || u == LIBERATOR || u == MEDIVAC || u == RAVEN
        || u == STARPORT_REACTOR || u == STARPORT_TECH_LAB || u == THOR || u == VIKING_FIGHTER {
        5
    } else if u == ARMORY || u == CYCLONE || u == FACTORY_REACTOR || u == FACTORY_TECH_LAB || u == GHOST
        || u == HELLION || u == SIEGE_TANK || u == STARPORT || u == WIDOW_MINE {
        4
    } else if u == BARRACKS_REACTOR || u == BARRACKS_TECH_LAB || u == BUNKER || u == FACTORY
        || u == GHOST_ACADEMY || u == MARAUDER || u == MARINE || u == REAPER {
        3
    } else if u == BARRACKS || u == MISSILE_TURRET || u == SENSOR_TOWER {
        2
    } else if u == ENGINEERING_BAY || u == REFINERY || u == SUPPLY_DEPOT {
        1
    } else {
        0
    }
}

/// The tech tree has no cycles: every requirement sits strictly higher.
pub proof fn requirements_climb(u: u32)
    ensures
        tech_requirement(u) matches Some(t) ==> tech_rank(t) < tech_rank(u),
{
}

/// What the build order sees of our structures and orders. Type lists count
/// flying and lowered forms with their kind.
pub struct TechObservation {
    /// Types of which some structure exists, finished or not.
    pub present: Vec<u32>,
    /// Types of which some structure is finished.
    pub ready: Vec<u32>,
    /// Types of which some is ordered and not yet started.
    pub pending: Vec<u32>,
}

/// The tech to work on for a unit or structure: nothing when it exists; the
/// first missing step up the tree that is already ordered; else the first
/// missing step whose own requirement exists (or that needs nothing), which
/// is then ordered.
pub open spec fn resolve(present: Seq<u32>, pending: Seq<u32>, u: u32) -> (Option<u32>, Option<u32>)
    decreases tech_rank(u),
{
    if present.contains(u) {
        (None, None)
    } else if pending.contains(u) {
        (Some(u), None)
    } else {
        match tech_requirement(u) {
            Some(t) => if present.contains(t) {
                (Some(u), Some(u))
            } else {
                resolve(present, pending, t)
            },
            None => (Some(u), Some(u)),
        }
    }
}

/// Whether a list of types holds a type.
pub fn has_type(v: &Vec<u32>, x: u32) -> (r: bool)
    ensures
        r == v@.contains(x),
{
    let mut i: usize = 0;
    while i < v.len()
        invariant
            i <= v.len(),
            forall|j: int| 0 <= j < i ==> v@[j] != x,
        decreases v.len() - i,
    {
        if v[i] == x {
            assert(v@[i as int] == x);
            return true;
        }
        i += 1;
    }
    false
}

/// Finds the tech to work on for `u`; returns it, and the structure to order now, if any.
pub fn resolve_tech(o: &TechObservation, u: u32) -> (r: (Option<u32>, Option<u32>))
    ensures
        r == resolve(o.present@, o.pending@, u),
    decreases tech_rank(u),
{
    if has_type(&o.present, u) {
        return (None, None);
    }
    if has_type(&o.pending, u) {
        return (Some(u), None);
    }
    match tech_requirement(u) {
        Some(t) => {
            if has_type(&o.present, t) {
                (Some(u), Some(u))
            } else {
                proof {
                    requirements_climb(u);
                }
                resolve_tech(o, t)
            }
        },
        None => (Some(u), Some(u)),
    }
}

/// The tech found is on the path up the tree from the asked type and is
/// missing; a structure is ordered only when it is the tech found, is not
/// already ordered, and its own requirement exists or it needs none.
pub proof fn resolve_is_sound(present: Seq<u32>, pending: Seq<u32>, u: u32)
    ensures
        resolve(present, pending, u).0 matches Some(m) ==> !present.contains(m) && requires_chain(u, m),
        resolve(present, pending, u).1 matches Some(c) ==> resolve(present, pending, u).0 == Some(c)
            && !pending.contains(c) && (tech_requirement(c) matches Some(t) ==> present.contains(t)),
        resolve(present, pending, u).1 is Some ==> resolve(present, pending, u).0 is Some,
    decreases tech_rank(u),
{
    if !present.contains(u) && !pending.contains(u) {
        if let Some(t) = tech_requirement(u) {
            if !present.contains(t) {
                requirements_climb(u);
                resolve_is_sound(present, pending, t);
            }
        }
    }
}

/// `m` is `u` or one of its requirements, transitively.
pub open spec fn requires_chain(u: u32, m: u32) -> bool
    decreases tech_rank(u),
{
    u == m || match tech_requirement(u) {
        Some(t) => if tech_rank(t) < tech_rank(u) {
            requires_chain(t, m)
        } else {
            false
        },
        None => false,
    }
}

/// An order for the production structures.
#[derive(Clone, Copy, Debug, PartialEq, Eq, Structural)]
pub enum ProductionCommand {
    /// Train a unit at a structure.
    Train(u64, u32),
    /// Build a tech lab at a structure.
    BuildTechLab(u64),
    /// Have a worker construct a structure.
    Construct(u32),
}

/// A production structure of ours.
#[derive(Clone, Copy, Debug)]
pub struct ProductionStructure {
    pub tag: u64,
    pub type_id: u32,
    pub has_techlab: bool,
    /// Finished building.
    pub is_ready: bool,
    /// Has no order.
    pub is_idle: bool,
}

/// What the build order keeps between its calls within a step.
pub struct BuildState {
    /// Production structures that still take an order in this step.
    pub idle_production: Vec<u64>,
    /// Unit types whose cost has been set aside in this step.
    pub saving_on: Vec<u32>,
    pub economy: Economy,
    pub commands: Vec<ProductionCommand>,
}

/// A unit's cost set aside once per step.
pub open spec fn saved(s: BuildStateView, costs: CostTable, unit: u32) -> BuildStateView {
    if s.saving_on.contains(unit) {
        s
    } else {
        BuildStateView {
            economy: after_paying(s.economy, cost_of(costs, unit), false),
            saving_on: s.saving_on.push(unit),
            ..s
        }
    }
}

/// The state as values.
pub struct BuildStateView {
    pub idle_production: Seq<u64>,
    pub saving_on: Seq<u32>,
    pub economy: Economy,
    pub commands: Seq<ProductionCommand>,
}

impl BuildState {
    pub open spec fn view_of(&self) -> BuildStateView {
        BuildStateView {
            idle_production: self.idle_production@,
            saving_on: self.saving_on@,
            economy: self.economy,
            commands: self.commands@,
        }
    }
}

/// Sets a unit's cost aside, once per step.
pub fn add_to_saving(s: &mut BuildState, costs: &CostTable, unit: u32)
    requires
        costs.costs.wf(),
    ensures
        final(s).view_of() == saved(old(s).view_of(), *costs, unit),
{
    if !has_type(&s.saving_on, unit) {
        let c = costs.get_unit_cost(unit);
        subtract_resources(&mut s.economy, &c, false);
        s.saving_on.push(unit);
    }
}


/// The structures of a type that still take an order, in the game's order.
pub open spec fn idle_of(structs: Seq<ProductionStructure>, t: u32, idle: Seq<u64>) -> Seq<ProductionStructure>
    decreases structs.len(),
{
    if structs.len() == 0 {
        seq![]
    } else {
        idle_of(structs.drop_last(), t, idle) + if structs.last().type_id == t && idle.contains(
            structs.last().tag,
        ) {
            seq![structs.last()]
        } else {
            seq![]
        }
    }
}

fn idle_candidates(structs: &Vec<ProductionStructure>, t: u32, idle: &Vec<u64>) -> (r: Vec<ProductionStructure>)
    ensures
        r@ == idle_of(structs@, t, idle@),
{
    let mut out: Vec<ProductionStructure> = Vec::new();
    let mut i: usize = 0;
    while i < structs.len()
        invariant
            i <= structs.len(),
            out@ == idle_of(structs@.take(i as int), t, idle@),
        decreases structs.len() - i,
    {
        proof {
            assert(structs@.take(i + 1).drop_last() =~= structs@.take(i as int));
        }
        let st = structs[i];
        if st.type_id == t && crate::army::vec_contains_u64(idle, st.tag) {
            out.push(st);
        }
        i += 1;
    }
    assert(structs@.take(structs.len() as int) =~= structs@);
    out
}

pub open spec fn not_tag(tag: u64) -> spec_fn(u64) -> bool {
    |x: u64| x != tag
}

fn remove_tag(idle: &mut Vec<u64>, tag: u64)
    ensures
        final(idle)@ == keep(old(idle)@, not_tag(tag)),
{
    let mut out: Vec<u64> = Vec::new();
    let mut i: usize = 0;
    while i < idle.len()
        invariant
            i <= idle.len(),
            out@ == keep(idle@.take(i as int), not_tag(tag)),
        decreases idle.len() - i,
    {
        proof {
            assert(idle@.take(i + 1).drop_last() =~= idle@.take(i as int));
        }
        if idle[i] != tag {
            out.push(idle[i]);
        }
        i += 1;
    }
    assert(idle@.take(idle.len() as int) =~= idle@);
    *idle = out;
}

/// A structure takes an order: it leaves the idle list and the order is recorded.
pub open spec fn ordered(s: BuildStateView, tag: u64, cmd: ProductionCommand) -> BuildStateView {
    BuildStateView { idle_production: keep(s.idle_production, not_tag(tag)), commands: s.commands.push(cmd), ..s }
}

/// The last resort: every idle structure of the source trains the unit when
/// it is affordable, and its cost is set aside.
pub open spec fn train_each(s: BuildStateView, cands: Seq<ProductionStructure>, costs: CostTable, unit: u32) -> BuildStateView
    decreases cands.len(),
{
    if cands.len() == 0 {
        s
    } else {
        let p = train_each(s, cands.drop_last(), costs, unit);
        let q = if affordable(p.economy, cost_of(costs, unit), true) {
            ordered(p, cands.last().tag, ProductionCommand::Train(cands.last().tag, unit))
        } else {
            p
        };
        saved(q, costs, unit)
    }
}

pub open spec fn first_with_techlab(c: Seq<ProductionStructure>) -> Option<int> {
    crate::seq_util::first_index(c, |p: ProductionStructure| p.has_techlab)
}

/// Training a unit at its source. Units that need a tech lab train at an
/// idle source that has one; without one, an idle tech lab structure is told
/// to build (when none is pending and it is affordable), or, with none
/// pending and no idle tech lab structure, the last resort runs. Other units
/// train at the first idle source when affordable, or the last resort runs
/// when no source is idle.
pub open spec fn train_spec(s: BuildStateView, structs: Seq<ProductionStructure>, costs: CostTable, pending: Seq<u32>, source: u32, unit: u32) -> BuildStateView {
    let cands = idle_of(structs, source, s.idle_production);
    if needs_techlab(unit) {
        match first_with_techlab(cands) {
            Some(k) => saved(ordered(s, cands[k].tag, ProductionCommand::Train(cands[k].tag, unit)), costs, unit),
            None => match techlab_of(source) {
                Some(tl) => if pending.contains(tl) {
                    s
                } else {
                    let tcands = idle_of(structs, tl, s.idle_production);
                    if tcands.len() > 0 {
                        if affordable(s.economy, cost_of(costs, tl), true) {
                            saved(ordered(s, tcands[0].tag, ProductionCommand::BuildTechLab(tcands[0].tag)), costs, tl)
                        } else {
                            s
                        }
                    } else {
                        train_each(s, cands, costs, unit)
                    }
                },
                None => train_each(s, cands, costs, unit),
            },
        }
    } else if cands.len() > 0 {
        if affordable(s.economy, cost_of(costs, unit), true) {
            saved(ordered(s, cands[0].tag, ProductionCommand::Train(cands[0].tag, unit)), costs, unit)
        } else {
            s
        }
    } else {
        train_each(s, cands, costs, unit)
    }
}

fn order_at(s: &mut BuildState, tag: u64, cmd: ProductionCommand)
    ensures
        final(s).view_of() == ordered(old(s).view_of(), tag, cmd),
{
    remove_tag(&mut s.idle_production, tag);
    s.commands.push(cmd);
}

fn train_at_each(s: &mut BuildState, cands: &Vec<ProductionStructure>, costs: &CostTable, unit: u32)
    requires
        costs.costs.wf(),
    ensures
        final(s).view_of() == train_each(old(s).view_of(), cands@, *costs, unit),
{
    let ghost s0 = s.view_of();
    let c = costs.get_unit_cost(unit);
    let mut i: usize = 0;
    while i < cands.len()
        invariant
            i <= cands.len(),
            costs.costs.wf(),
            c == cost_of(*costs, unit),
            s.view_of() == train_each(s0, cands@.take(i as int), *costs, unit),
        decreases cands.len() - i,
    {
        proof {
            assert(cands@.take(i + 1).drop_last() =~= cands@.take(i as int));
        }
        let tag = cands[i].tag;
        if can_afford(&s.economy, &c, true) {
            order_at(s, tag, ProductionCommand::Train(tag, unit));
        }
        add_to_saving(s, costs, unit);
        i += 1;
    }
    assert(cands@.take(cands.len() as int) =~= cands@);
}

fn find_with_techlab(c: &Vec<ProductionStructure>) -> (r: Option<usize>)
    ensures
        r matches Some(k) ==> k < c@.len() && first_with_techlab(c@) == Some(k as int),
        r is None ==> first_with_techlab(c@) is None,
{
    let mut i: usize = 0;
    while i < c.len()
        invariant
            i <= c.len(),
            forall|j: int| 0 <= j < i ==> !(#[trigger] c@[j]).has_techlab,
        decreases c.len() - i,
    {
        if c[i].has_techlab {
            proof {
                crate::seq_util::lemma_first_index_found(c@, |p: ProductionStructure| p.has_techlab, i as int);
            }
            return Some(i);
        }
        i += 1;
    }
    proof {
        crate::seq_util::lemma_first_index_none(c@, |p: ProductionStructure| p.has_techlab);
    }
    None
}

/// Trains a unit at its source, or prepares the tech lab it needs.
pub fn train(s: &mut BuildState, structs: &Vec<ProductionStructure>, costs: &CostTable, pending: &Vec<u32>, source: u32, unit: u32)
    requires
        costs.costs.wf(),
    ensures
        final(s).view_of() == train_spec(old(s).view_of(), structs@, *costs, pending@, source, unit),
        distinct_structures(structs@) ==> fresh(old(s).view_of(), final(s).view_of()),
        distinct_structures(structs@) && no_dup_types(old(s).saving_on@) ==> no_dup_types(final(s).saving_on@),
{
    train_at_source(s, structs, costs, pending, source, unit);
    proof {
        if distinct_structures(structs@) {
            train_orders_each_structure_once(old(s).view_of(), structs@, *costs, pending@, source, unit);
        }
    }
}

fn train_at_source(s: &mut BuildState, structs: &Vec<ProductionStructure>, costs: &CostTable, pending: &Vec<u32>, source: u32, unit: u32)
    requires
        costs.costs.wf(),
    ensures
        final(s).view_of() == train_spec(old(s).view_of(), structs@, *costs, pending@, source, unit),
{
    let cands = idle_candidates(structs, source, &s.idle_production);
    if needs_techlab(unit) {
        match find_with_techlab(&cands) {
            Some(k) => {
                let tag = cands[k].tag;
                order_at(s, tag, ProductionCommand::Train(tag, unit));
                add_to_saving(s, costs, unit);
                return;
            },
            None => {},
        }
        match techlab_of(source) {
            Some(tl) => {
                if has_type(pending, tl) {
                    return;
                }
                let tcands = idle_candidates(structs, tl, &s.idle_production);
                if tcands.len() > 0 {
                    let c = costs.get_unit_cost(tl);
                    if can_afford(&s.economy, &c, true) {
                        let tag = tcands[0].tag;
                        order_at(s, tag, ProductionCommand::BuildTechLab(tag));
                        add_to_saving(s, costs, tl);
                    }
                    return;
                }
            },
            None => {},
        }
    } else {
        if cands.len() > 0 {
            let c = costs.get_unit_cost(unit);
            if can_afford(&s.economy, &c, true) {
                let tag = cands[0].tag;
                order_at(s, tag, ProductionCommand::Train(tag, unit));
                add_to_saving(s, costs, unit);
            }
            return;
        }
    }
    train_at_each(s, &cands, costs, unit);
}

/// A finished, idle production structure takes orders in this step.
pub open spec fn takes_orders(p: ProductionStructure) -> bool {
    crate::unit_types::is_production(p.type_id) && p.is_ready && p.is_idle
}

/// The tags of the structures that take orders, in the game's order.
pub open spec fn starting_idle(structs: Seq<ProductionStructure>) -> Seq<u64>
    decreases structs.len(),
{
    if structs.len() == 0 {
        seq![]
    } else {
        starting_idle(structs.drop_last()) + if takes_orders(structs.last()) {
            seq![structs.last().tag]
        } else {
            seq![]
        }
    }
}

/// Work on missing tech: the structure found missing is ordered when its own
/// requirement exists, and its cost is set aside unless it was already ordered.
pub open spec fn work_on_tech(s: BuildStateView, o: TechObservation, costs: CostTable, x: u32) -> BuildStateView {
    let r = resolve(o.present@, o.pending@, x);
    let s1 = match r.1 {
        Some(c) => BuildStateView { commands: s.commands.push(ProductionCommand::Construct(c)), ..s },
        None => s,
    };
    match r.0 {
        Some(m) => if o.pending@.contains(m) {
            s1
        } else {
            saved(s1, costs, m)
        },
        None => s1,
    }
}

/// One unit of the build order: without a finished source or a finished
/// requirement, the missing tech is worked on; with both, the unit is trained.
pub open spec fn build_unit(s: BuildStateView, structs: Seq<ProductionStructure>, o: TechObservation, costs: CostTable, unit: u32) -> BuildStateView {
    match unit_source(unit) {
        None => s,
        Some(src) => if !o.ready@.contains(src) {
            work_on_tech(s, o, costs, src)
        } else {
            match tech_requirement(unit) {
                Some(t) => if !o.ready@.contains(t) {
                    work_on_tech(s, o, costs, t)
                } else {
                    train_spec(s, structs, costs, o.pending@, src, unit)
                },
                None => train_spec(s, structs, costs, o.pending@, src, unit),
            }
        },
    }
}

/// The build order's units, one after another.
pub open spec fn build_all(s: BuildStateView, structs: Seq<ProductionStructure>, o: TechObservation, costs: CostTable, units: Seq<u32>) -> BuildStateView
    decreases units.len(),
{
    if units.len() == 0 {
        s
    } else {
        build_unit(build_all(s, structs, o, costs, units.drop_last()), structs, o, costs, units.last())
    }
}

fn work_on_missing_tech(s: &mut BuildState, o: &TechObservation, costs: &CostTable, x: u32)
    requires
        costs.costs.wf(),
    ensures
        final(s).view_of() == work_on_tech(old(s).view_of(), *o, *costs, x),
{
    let r = resolve_tech(o, x);
    match r.1 {
        Some(c) => s.commands.push(ProductionCommand::Construct(c)),
        None => {},
    }
    match r.0 {
        Some(m) => {
            if !has_type(&o.pending, m) {
                add_to_saving(s, costs, m);
            }
        },
        None => {},
    }
}

fn build_one(s: &mut BuildState, structs: &Vec<ProductionStructure>, o: &TechObservation, costs: &CostTable, unit: u32)
    requires
        costs.costs.wf(),
    ensures
        final(s).view_of() == build_unit(old(s).view_of(), structs@, *o, *costs, unit),
{
    match unit_source(unit) {
        None => {},
        Some(src) => {
            if !has_type(&o.ready, src) {
                work_on_missing_tech(s, o, costs, src);
                return;
            }
            match tech_requirement(unit) {
                Some(t) => {
                    if !has_type(&o.ready, t) {
                        work_on_missing_tech(s, o, costs, t);
                        return;
                    }
                },
                None => {},
            }
            train(s, structs, costs, &o.pending, src, unit);
        },
    }
}

/// Runs the build order for a step: the finished, idle production
/// structures join the idle list, then each unit in turn is trained or its
/// missing tech worked on.
pub fn execute_build_order(s: &mut BuildState, units: &Vec<u32>, structs: &Vec<ProductionStructure>, o: &TechObservation, costs: &CostTable)
    requires
        costs.costs.wf(),
    ensures
        final(s).view_of() == build_all(
            BuildStateView { idle_production: old(s).idle_production@ + starting_idle(structs@), ..old(s).view_of() },
            structs@,
            *o,
            *costs,
            units@,
        ),
{
    let ghost start = s.view_of();
    let ghost idle0 = s.idle_production@;
    let mut i: usize = 0;
    while i < structs.len()
        invariant
            i <= structs.len(),
            s.idle_production@ == idle0 + starting_idle(structs@.take(i as int)),
            s.saving_on@ == start.saving_on,
            s.economy == start.economy,
            s.commands@ == start.commands,
        decreases structs.len() - i,
    {
        proof {
            assert(structs@.take(i + 1).drop_last() =~= structs@.take(i as int));
        }
        let p = structs[i];
        if crate::unit_types::is_production(p.type_id) && p.is_ready && p.is_idle {
            s.idle_production.push(p.tag);
        }
        proof {
            assert(s.idle_production@ =~= idle0 + starting_idle(structs@.take(i + 1)));
        }
        i += 1;
    }
    assert(structs@.take(structs.len() as int) =~= structs@);
    let ghost s0 = s.view_of();
    assert(s0 == BuildStateView { idle_production: idle0 + starting_idle(structs@), ..start });
    let mut k: usize = 0;
    while k < units.len()
        invariant
            k <= units.len(),
            costs.costs.wf(),
            s.view_of() == build_all(s0, structs@, *o, *costs, units@.take(k as int)),
        decreases units.len() - k,
    {
        proof {
            assert(units@.take(k + 1).drop_last() =~= units@.take(k as int));
        }
        build_one(s, structs, o, costs, units[k]);
        k += 1;
    }
    assert(units@.take(units.len() as int) =~= units@);
}

/// What the build order reads to choose its units.
#[derive(Clone, Copy, Debug)]
pub struct UnitDemandObservation {
    pub enemy_race: Race,
    pub enemy_cloaking: bool,
    pub ravens: u64,
    pub medivacs: u64,
    /// Our bio units.
    pub bio: u64,
    /// The bot's step counter.
    pub iteration: u64,
    pub reapers_pending: u64,
    /// Whether a reaper of ours is remembered.
    pub reaper_remembered: bool,
    pub banshees_pending: u64,
    /// Whether a banshee of ours is remembered.
    pub banshee_remembered: bool,
}

/// The units to make: tanks, vikings and marines against Terran; a raven
/// against cloak when we have none; a medivac for every five bio past six;
/// and, after the first steps, a starting banshee and reaper in front when
/// none is ordered or remembered.
pub open spec fn units_wanted(o: UnitDemandObservation) -> Seq<u32> {
    let base = if o.enemy_race == Race::Terran {
        seq![SIEGE_TANK, VIKING_FIGHTER, MARINE]
    } else {
        seq![]
    };
    let a = if o.enemy_cloaking && o.ravens == 0 {
        base.push(RAVEN)
    } else {
        base
    };
    let b = if o.bio > 6 && o.medivacs * 5 < o.bio {
        a.push(MEDIVAC)
    } else {
        a
    };
    let c = if o.iteration > 1 && o.reapers_pending == 0 && !o.reaper_remembered {
        seq![REAPER] + b
    } else {
        b
    };
    if o.iteration > 1 && o.banshees_pending == 0 && !o.banshee_remembered {
        seq![BANSHEE] + c
    } else {
        c
    }
}

/// Chooses the units of the build order.
pub fn decide_units(o: &UnitDemandObservation) -> (r: Vec<u32>)
    ensures
        r@ == units_wanted(*o),
{
    let mut order: Vec<u32> = Vec::new();
    if o.enemy_race == Race::Terran {
        order.push(SIEGE_TANK);
        order.push(VIKING_FIGHTER);
        order.push(MARINE);
    }
    if o.enemy_cloaking && o.ravens == 0 {
        order.push(RAVEN);
    }
    if o.bio > 6 && (o.medivacs as u128) * 5 < o.bio as u128 {
        order.push(MEDIVAC);
    }
    if o.iteration > 1 {
        if o.reapers_pending == 0 && !o.reaper_remembered {
            order.insert(0, REAPER);
        }
        if o.banshees_pending == 0 && !o.banshee_remembered {
            order.insert(0, BANSHEE);
        }
    }
    assert(order@ =~= units_wanted(*o));
    order
}

/// What the build order asks for, whatever the enemy's race: tanks,
/// vikings and marines exactly against Terran; a raven exactly when the
/// enemy cloaks and we have none; a medivac exactly when over six bio units
/// have fewer than one medivac per five; after the first steps a reaper and
/// a banshee exactly when none is ordered or remembered, in front, the
/// banshee first. Nothing else is asked for.
pub proof fn unit_demand_law(o: UnitDemandObservation)
    ensures
        units_wanted(o).contains(RAVEN) <==> o.enemy_cloaking && o.ravens == 0,
        units_wanted(o).contains(MEDIVAC) <==> o.bio > 6 && o.medivacs * 5 < o.bio,
        units_wanted(o).contains(SIEGE_TANK) <==> o.enemy_race == Race::Terran,
        units_wanted(o).contains(VIKING_FIGHTER) <==> o.enemy_race == Race::Terran,
        units_wanted(o).contains(MARINE) <==> o.enemy_race == Race::Terran,
        units_wanted(o).contains(REAPER) <==> o.iteration > 1 && o.reapers_pending == 0 && !o.reaper_remembered,
        units_wanted(o).contains(BANSHEE) <==> o.iteration > 1 && o.banshees_pending == 0 && !o.banshee_remembered,
        units_wanted(o).contains(BANSHEE) ==> units_wanted(o)[0] == BANSHEE,
        units_wanted(o).contains(REAPER) && !units_wanted(o).contains(BANSHEE) ==> units_wanted(o)[0] == REAPER,
        forall|i: int| 0 <= i < units_wanted(o).len() ==> #[trigger] units_wanted(o)[i] == RAVEN || units_wanted(o)[i]
            == MEDIVAC || units_wanted(o)[i] == SIEGE_TANK || units_wanted(o)[i] == VIKING_FIGHTER || units_wanted(o)[i]
            == MARINE || units_wanted(o)[i] == REAPER || units_wanted(o)[i] == BANSHEE,
{
    let base = if o.enemy_race == Race::Terran {
        seq![SIEGE_TANK, VIKING_FIGHTER, MARINE]
    } else {
        seq![]
    };
    let a = if o.enemy_cloaking && o.ravens == 0 {
        base.push(RAVEN)
    } else {
        base
    };
    let b = if o.bio > 6 && o.medivacs * 5 < o.bio {
        a.push(MEDIVAC)
    } else {
        a
    };
    let c = if o.iteration > 1 && o.reapers_pending == 0 && !o.reaper_remembered {
        seq![REAPER] + b
    } else {
        b
    };
    let r = units_wanted(o);
    // every list is made of known types, each at most once, so membership
    // can be read position by position
    assert(forall|x: u32| base.contains(x) <==> (o.enemy_race == Race::Terran && (x == SIEGE_TANK || x == VIKING_FIGHTER || x == MARINE))) by {
        if o.enemy_race == Race::Terran {
            assert(base[0] == SIEGE_TANK && base[1] == VIKING_FIGHTER && base[2] == MARINE);
        }
    }
    assert(forall|x: u32| a.contains(x) <==> (base.contains(x) || (x == RAVEN && o.enemy_cloaking && o.ravens == 0))) by {
        if o.enemy_cloaking && o.ravens == 0 {
            assert forall|x: u32| a.contains(x) <==> (base.contains(x) || x == RAVEN) by {
                if a.contains(x) {
                    let i = choose|i: int| 0 <= i < a.len() && a[i] == x;
                    if i < base.len() {
                        assert(base[i] == x);
                    }
                }
                if base.contains(x) {
                    let i = choose|i: int| 0 <= i < base.len() && base[i] == x;
                    assert(a[i] == x);
                }
                if x == RAVEN {
                    assert(a[a.len() - 1] == x);
                }
            }
        }
    }
    assert(forall|x: u32| b.contains(x) <==> (a.contains(x) || (x == MEDIVAC && o.bio > 6 && o.medivacs * 5 < o.bio))) by {
        if o.bio > 6 && o.medivacs * 5 < o.bio {
            assert forall|x: u32| b.contains(x) <==> (a.contains(x) || x == MEDIVAC) by {
                if b.contains(x) {
                    let i = choose|i: int| 0 <= i < b.len() && b[i] == x;
                    if i < a.len() {
                        assert(a[i] == x);
                    }
                }
                if a.contains(x) {
                    let i = choose|i: int| 0 <= i < a.len() && a[i] == x;
                    assert(b[i] == x);
                }
                if x == MEDIVAC {
                    assert(b[b.len() - 1] == x);
                }
            }
        }
    }
    assert(forall|x: u32| c.contains(x) <==> (b.contains(x) || (x == REAPER && o.iteration > 1 && o.reapers_pending == 0
        && !o.reaper_remembered))) by {
        if o.iteration > 1 && o.reapers_pending == 0 && !o.reaper_remembered {
            assert forall|x: u32| c.contains(x) <==> (b.contains(x) || x == REAPER) by {
                if c.contains(x) {
                    let i = choose|i: int| 0 <= i < c.len() && c[i] == x;
                    if i > 0 {
                        assert(b[i - 1] == x);
                    }
                }
                if b.contains(x) {
                    let i = choose|i: int| 0 <= i < b.len() && b[i] == x;
                    assert(c[i + 1] == x);
                }
                if x == REAPER {
                    assert(c[0] == x);
                }
            }
        }
    }
    assert(forall|x: u32| r.contains(x) <==> (c.contains(x) || (x == BANSHEE && o.iteration > 1 && o.banshees_pending == 0
        && !o.banshee_remembered))) by {
        if o.iteration > 1 && o.banshees_pending == 0 && !o.banshee_remembered {
            assert forall|x: u32| r.contains(x) <==> (c.contains(x) || x == BANSHEE) by {
                if r.contains(x) {
                    let i = choose|i: int| 0 <= i < r.len() && r[i] == x;
                    if i > 0 {
                        assert(c[i - 1] == x);
                    }
                }
                if c.contains(x) {
                    let i = choose|i: int| 0 <= i < c.len() && c[i] == x;
                    assert(r[i + 1] == x);
                }
                if x == BANSHEE {
                    assert(r[0] == x);
                }
            }
        }
    }
    assert forall|i: int| 0 <= i < r.len() implies #[trigger] r[i] == RAVEN || r[i] == MEDIVAC || r[i] == SIEGE_TANK
        || r[i] == VIKING_FIGHTER || r[i] == MARINE || r[i] == REAPER || r[i] == BANSHEE by {
        assert(r.contains(r[i]));
    }
}

/// The production structure to add next: the source of the first unit of
/// the build order. (The comparison that was meant to pick the less built of
/// the first two sources looks at the first unit twice, so it always keeps
/// the first.)
pub open spec fn next_structure(units: Seq<u32>) -> Option<u32> {
    if units.len() == 0 {
        None
    } else {
        unit_source(units[0])
    }
}

/// Chooses the production structure to add next.
pub fn decide_next_structure(units: &Vec<u32>) -> (r: Option<u32>)
    ensures
        r == next_structure(units@),
{
    if units.len() == 0 {
        return None;
    }
    unit_source(units[0])
}

/// The units to make in a step and the production structure to add.
pub struct BuildOrder {
    pub units: Vec<u32>,
    pub next_multiproduction_structure: Option<u32>,
}

impl BuildOrder {
    /// Builds the step's build order from what the bot sees.
    pub fn new(o: &UnitDemandObservation) -> (r: BuildOrder)
        ensures
            r.units@ == units_wanted(*o),
            r.next_multiproduction_structure == next_structure(units_wanted(*o)),
    {
        let units = decide_units(o);
        let next = decide_next_structure(&units);
        BuildOrder { units, next_multiproduction_structure: next }
    }

    /// Runs the build order's units for the step.
    pub fn execute_build_order(&self, s: &mut BuildState, structs: &Vec<ProductionStructure>, o: &TechObservation, costs: &CostTable)
        requires
            costs.costs.wf(),
        ensures
            final(s).view_of() == build_all(
                BuildStateView { idle_production: old(s).idle_production@ + starting_idle(structs@), ..old(s).view_of() },
                structs@,
                *o,
                *costs,
                self.units@,
            ),
    {
        execute_build_order(s, &self.units, structs, o, costs);
    }

    /// Adds a production structure when nothing idle is left to train at,
    /// minerals reach 450, none of it is ordered and it is affordable; returns
    /// the structure to construct.
    pub fn expand_production(&self, s: &BuildState, pending: &Vec<u32>, costs: &CostTable) -> (r: Option<u32>)
        requires
            costs.costs.wf(),
        ensures
            r == match self.next_multiproduction_structure {
                Some(n) => if s.idle_production@.len() == 0 && s.economy.minerals >= 450
                    && !pending@.contains(n) && affordable(s.economy, cost_of(*costs, n), false) {
                    Some(n)
                } else {
                    None
                },
                None => None,
            },
    {
        match self.next_multiproduction_structure {
            Some(n) => {
                if s.idle_production.len() != 0 || s.economy.minerals < 450 || has_type(pending, n) {
                    return None;
                }
                let c = costs.get_unit_cost(n);
                if can_afford(&s.economy, &c, false) {
                    Some(n)
                } else {
                    None
                }
            },
            None => None,
        }
    }
}

/// The structure a command gives work to, if any.
pub open spec fn cmd_tag(c: ProductionCommand) -> Option<u64> {
    match c {
        ProductionCommand::Train(t, _) => Some(t),
        ProductionCommand::BuildTechLab(t) => Some(t),
        ProductionCommand::Construct(_) => None,
    }
}

/// The new commands between two states name each structure once; each such
/// structure was idle at the start and is idle no more; every structure idle
/// at the end was idle at the start; and an idle structure leaves the list
/// only when a new command names it.
pub open spec fn fresh(a: BuildStateView, b: BuildStateView) -> bool {
    let n = a.commands.len();
    &&& n <= b.commands.len()
    &&& b.commands.take(n as int) == a.commands
    &&& forall|i: int, j: int|
        n <= i < j < b.commands.len() && (#[trigger] cmd_tag(b.commands[i])) is Some ==> cmd_tag(b.commands[i])
            != #[trigger] cmd_tag(b.commands[j])
    &&& forall|i: int|
        n <= i < b.commands.len() && (#[trigger] cmd_tag(b.commands[i])) is Some ==> a.idle_production.contains(
            cmd_tag(b.commands[i])->0,
        ) && !b.idle_production.contains(cmd_tag(b.commands[i])->0)
    &&& forall|t: u64| #[trigger] b.idle_production.contains(t) ==> a.idle_production.contains(t)
    &&& forall|t: u64|
        #[trigger] a.idle_production.contains(t) ==> b.idle_production.contains(t) || exists|i: int|
            n <= i < b.commands.len() && #[trigger] cmd_tag(b.commands[i]) == Some(t)
}

proof fn lemma_fresh_refl(a: BuildStateView)
    ensures
        fresh(a, a),
{
    assert(a.commands.take(a.commands.len() as int) =~= a.commands);
}

proof fn lemma_fresh_trans(a: BuildStateView, b: BuildStateView, c: BuildStateView)
    requires
        fresh(a, b),
        fresh(b, c),
    ensures
        fresh(a, c),
{
    let na = a.commands.len() as int;
    let nb = b.commands.len() as int;
    assert(c.commands.take(na) =~= b.commands.take(na)) by {
        assert forall|i: int| 0 <= i < na implies c.commands[i] == b.commands[i] by {
            assert(c.commands.take(nb)[i] == b.commands[i]);
        }
    }
    assert forall|i: int| na <= i < nb implies #[trigger] c.commands[i] == b.commands[i] by {
        assert(c.commands.take(nb)[i] == b.commands[i]);
    }
    assert forall|i: int, j: int|
        na <= i < j < c.commands.len() && (#[trigger] cmd_tag(c.commands[i])) is Some implies cmd_tag(c.commands[i])
            != #[trigger] cmd_tag(c.commands[j]) by {
        if j < nb {
            assert(c.commands[i] == b.commands[i] && c.commands[j] == b.commands[j]);
        } else if i < nb {
            assert(c.commands[i] == b.commands[i]);
            // the earlier one left the idle list, the later one was still in it
            assert(!b.idle_production.contains(cmd_tag(b.commands[i])->0));
            if cmd_tag(c.commands[j]) is Some {
                assert(b.idle_production.contains(cmd_tag(c.commands[j])->0));
            }
        }
    }
    assert forall|i: int|
        na <= i < c.commands.len() && (#[trigger] cmd_tag(c.commands[i])) is Some implies a.idle_production.contains(
            cmd_tag(c.commands[i])->0,
        ) && !c.idle_production.contains(cmd_tag(c.commands[i])->0) by {
        if i < nb {
            assert(c.commands[i] == b.commands[i]);
            let t = cmd_tag(b.commands[i])->0;
            if c.idle_production.contains(t) {
                assert(b.idle_production.contains(t));
            }
        } else {
            assert(b.idle_production.contains(cmd_tag(c.commands[i])->0));
        }
    }
    assert forall|t: u64| #[trigger] a.idle_production.contains(t) implies c.idle_production.contains(t) || exists|i: int|
        na <= i < c.commands.len() && #[trigger] cmd_tag(c.commands[i]) == Some(t) by {
        if !c.idle_production.contains(t) {
            if b.idle_production.contains(t) {
                let i = choose|i: int| nb <= i < c.commands.len() && #[trigger] cmd_tag(c.commands[i]) == Some(t);
                assert(na <= i);
            } else {
                let i = choose|i: int| na <= i < b.commands.len() && #[trigger] cmd_tag(b.commands[i]) == Some(t);
                assert(c.commands[i] == b.commands[i]);
            }
        }
    }
}

proof fn lemma_fresh_saved(a: BuildStateView, costs: CostTable, unit: u32)
    ensures
        fresh(a, saved(a, costs, unit)),
{
    lemma_fresh_refl(a);
}

proof fn lemma_fresh_ordered(a: BuildStateView, tag: u64, cmd: ProductionCommand)
    requires
        a.idle_production.contains(tag),
        cmd_tag(cmd) == Some(tag),
    ensures
        fresh(a, ordered(a, tag, cmd)),
{
    let b = ordered(a, tag, cmd);
    crate::seq_util::lemma_keep(a.idle_production, not_tag(tag));
    assert(b.commands.take(a.commands.len() as int) =~= a.commands);
    assert forall|t: u64| #[trigger] a.idle_production.contains(t) implies b.idle_production.contains(t) || exists|i: int|
        a.commands.len() <= i < b.commands.len() && #[trigger] cmd_tag(b.commands[i]) == Some(t) by {
        if t == tag {
            assert(cmd_tag(b.commands[a.commands.len() as int]) == Some(t));
        } else {
            assert(not_tag(tag)(t));
        }
    }
}

proof fn lemma_fresh_construct(a: BuildStateView, c: u32)
    ensures
        fresh(a, BuildStateView { commands: a.commands.push(ProductionCommand::Construct(c)), ..a }),
{
    let b = BuildStateView { commands: a.commands.push(ProductionCommand::Construct(c)), ..a };
    assert(b.commands.take(a.commands.len() as int) =~= a.commands);
}

proof fn lemma_fresh_work_on_tech(s: BuildStateView, o: TechObservation, costs: CostTable, x: u32)
    ensures
        fresh(s, work_on_tech(s, o, costs, x)),
{
    let r = resolve(o.present@, o.pending@, x);
    let s1 = match r.1 {
        Some(c) => BuildStateView { commands: s.commands.push(ProductionCommand::Construct(c)), ..s },
        None => s,
    };
    match r.1 {
        Some(c) => lemma_fresh_construct(s, c),
        None => lemma_fresh_refl(s),
    }
    match r.0 {
        Some(m) => {
            if !o.pending@.contains(m) {
                lemma_fresh_saved(s1, costs, m);
                lemma_fresh_trans(s, s1, saved(s1, costs, m));
            }
        },
        None => {},
    }
}

/// Distinct structures: no tag is listed twice.
pub open spec fn distinct_structures(structs: Seq<ProductionStructure>) -> bool {
    forall|i: int, j: int| 0 <= i < j < structs.len() ==> #[trigger] structs[i].tag != #[trigger] structs[j].tag
}

proof fn lemma_idle_of(structs: Seq<ProductionStructure>, t: u32, idle: Seq<u64>)
    requires
        distinct_structures(structs),
    ensures
        distinct_structures(idle_of(structs, t, idle)),
        forall|k: int| 0 <= k < idle_of(structs, t, idle).len() ==> idle.contains(#[trigger] idle_of(structs, t, idle)[k].tag)
            && exists|m: int| 0 <= m < structs.len() && structs[m] == idle_of(structs, t, idle)[k],
    decreases structs.len(),
{
    if structs.len() > 0 {
        let init = structs.drop_last();
        assert(distinct_structures(init)) by {
            assert forall|i: int, j: int| 0 <= i < j < init.len() implies #[trigger] init[i].tag != #[trigger] init[j].tag by {
                assert(init[i] == structs[i] && init[j] == structs[j]);
            }
        }
        lemma_idle_of(init, t, idle);
        let a = idle_of(init, t, idle);
        let r = idle_of(structs, t, idle);
        let last = structs.last();
        assert forall|k: int| 0 <= k < r.len() implies idle.contains(#[trigger] r[k].tag) && exists|m: int|
            0 <= m < structs.len() && structs[m] == r[k] by {
            if k < a.len() {
                assert(r[k] == a[k]);
                assert(idle.contains(a[k].tag));
                let m = choose|m: int| 0 <= m < init.len() && init[m] == a[k];
                assert(structs[m] == init[m]);
            } else {
                assert(r[k] == last);
                assert(structs[structs.len() - 1] == last);
            }
        }
        assert forall|i: int, j: int| 0 <= i < j < r.len() implies #[trigger] r[i].tag != #[trigger] r[j].tag by {
            if j < a.len() {
                assert(r[i] == a[i] && r[j] == a[j]);
            } else {
                assert(r[i] == a[i] && r[j] == last);
                assert(idle.contains(a[i].tag));
                let m = choose|m: int| 0 <= m < init.len() && init[m] == a[i];
                assert(structs[m] == init[m]);
                assert(structs[m].tag != structs[structs.len() - 1].tag);
            }
        }
    }
}

/// The last resort orders only its candidates.
proof fn lemma_train_each_tags(s: BuildStateView, cands: Seq<ProductionStructure>, costs: CostTable, unit: u32)
    ensures
        s.commands.len() <= train_each(s, cands, costs, unit).commands.len(),
        forall|i: int|
            s.commands.len() <= i < train_each(s, cands, costs, unit).commands.len() && (#[trigger] cmd_tag(
                train_each(s, cands, costs, unit).commands[i],
            )) is Some ==> exists|k: int|
                0 <= k < cands.len() && Some(cands[k].tag) == cmd_tag(train_each(s, cands, costs, unit).commands[i]),
    decreases cands.len(),
{
    if cands.len() > 0 {
        let init = cands.drop_last();
        lemma_train_each_tags(s, init, costs, unit);
        let p = train_each(s, init, costs, unit);
        let r = train_each(s, cands, costs, unit);
        assert forall|i: int|
            s.commands.len() <= i < r.commands.len() && (#[trigger] cmd_tag(r.commands[i])) is Some implies exists|k: int|
                0 <= k < cands.len() && Some(cands[k].tag) == cmd_tag(r.commands[i]) by {
            if i < p.commands.len() {
                assert(r.commands[i] == p.commands[i]);
                let k = choose|k: int| 0 <= k < init.len() && Some(init[k].tag) == cmd_tag(p.commands[i]);
                assert(cands[k] == init[k]);
            } else {
                assert(cmd_tag(r.commands[i]) == Some(cands[cands.len() - 1].tag));
            }
        }
    }
}

proof fn lemma_fresh_train_each(s: BuildStateView, cands: Seq<ProductionStructure>, costs: CostTable, unit: u32)
    requires
        distinct_structures(cands),
        forall|k: int| 0 <= k < cands.len() ==> s.idle_production.contains(#[trigger] cands[k].tag),
    ensures
        fresh(s, train_each(s, cands, costs, unit)),
    decreases cands.len(),
{
    if cands.len() == 0 {
        lemma_fresh_refl(s);
    } else {
        let init = cands.drop_last();
        assert(distinct_structures(init)) by {
            assert forall|i: int, j: int| 0 <= i < j < init.len() implies #[trigger] init[i].tag != #[trigger] init[j].tag by {
                assert(init[i] == cands[i] && init[j] == cands[j]);
            }
        }
        assert forall|k: int| 0 <= k < init.len() implies s.idle_production.contains(#[trigger] init[k].tag) by {
            assert(init[k] == cands[k]);
        }
        lemma_fresh_train_each(s, init, costs, unit);
        lemma_train_each_tags(s, init, costs, unit);
        let p = train_each(s, init, costs, unit);
        let last = cands.last();
        let q = if affordable(p.economy, cost_of(costs, unit), true) {
            ordered(p, last.tag, ProductionCommand::Train(last.tag, unit))
        } else {
            p
        };
        if affordable(p.economy, cost_of(costs, unit), true) {
            assert(s.idle_production.contains(cands[cands.len() - 1].tag));
            if !p.idle_production.contains(last.tag) {
                let i = choose|i: int|
                    s.commands.len() <= i < p.commands.len() && #[trigger] cmd_tag(p.commands[i]) == Some(last.tag);
                let k = choose|k: int| 0 <= k < init.len() && Some(init[k].tag) == cmd_tag(p.commands[i]);
                assert(cands[k] == init[k]);
                assert(cands[k].tag != cands[cands.len() - 1].tag);
            }
            lemma_fresh_ordered(p, last.tag, ProductionCommand::Train(last.tag, unit));
            lemma_fresh_trans(s, p, q);
        }
        lemma_fresh_saved(q, costs, unit);
        lemma_fresh_trans(s, q, saved(q, costs, unit));
    }
}

proof fn lemma_fresh_train(s: BuildStateView, structs: Seq<ProductionStructure>, costs: CostTable, pending: Seq<u32>, source: u32, unit: u32)
    requires
        distinct_structures(structs),
    ensures
        fresh(s, train_spec(s, structs, costs, pending, source, unit)),
{
    let cands = idle_of(structs, source, s.idle_production);
    lemma_idle_of(structs, source, s.idle_production);
    lemma_fresh_refl(s);
    lemma_fresh_train_each(s, cands, costs, unit);
    if needs_techlab(unit) {
        crate::seq_util::lemma_first_index_spec(cands, |p: ProductionStructure| p.has_techlab);
        match first_with_techlab(cands) {
            Some(k) => {
                let o = ordered(s, cands[k].tag, ProductionCommand::Train(cands[k].tag, unit));
                lemma_fresh_ordered(s, cands[k].tag, ProductionCommand::Train(cands[k].tag, unit));
                lemma_fresh_saved(o, costs, unit);
                lemma_fresh_trans(s, o, saved(o, costs, unit));
            },
            None => match techlab_of(source) {
                Some(tl) => {
                    let tcands = idle_of(structs, tl, s.idle_production);
                    lemma_idle_of(structs, tl, s.idle_production);
                    if !pending.contains(tl) && tcands.len() > 0 && affordable(s.economy, cost_of(costs, tl), true) {
                        let o = ordered(s, tcands[0].tag, ProductionCommand::BuildTechLab(tcands[0].tag));
                        lemma_fresh_ordered(s, tcands[0].tag, ProductionCommand::BuildTechLab(tcands[0].tag));
                        lemma_fresh_saved(o, costs, tl);
                        lemma_fresh_trans(s, o, saved(o, costs, tl));
                    }
                },
                None => {},
            },
        }
    } else if cands.len() > 0 && affordable(s.economy, cost_of(costs, unit), true) {
        let o = ordered(s, cands[0].tag, ProductionCommand::Train(cands[0].tag, unit));
        lemma_fresh_ordered(s, cands[0].tag, ProductionCommand::Train(cands[0].tag, unit));
        lemma_fresh_saved(o, costs, unit);
        lemma_fresh_trans(s, o, saved(o, costs, unit));
    }
}

/// No unit type is listed twice.
pub open spec fn no_dup_types(s: Seq<u32>) -> bool {
    forall|i: int, j: int| 0 <= i < j < s.len() ==> s[i] != s[j]
}

proof fn lemma_saved_no_dup(a: BuildStateView, costs: CostTable, unit: u32)
    requires
        no_dup_types(a.saving_on),
    ensures
        no_dup_types(saved(a, costs, unit).saving_on),
{
    if !a.saving_on.contains(unit) {
        let b = saved(a, costs, unit).saving_on;
        assert forall|i: int, j: int| 0 <= i < j < b.len() implies b[i] != b[j] by {
            if j == b.len() - 1 {
                assert(b[i] == a.saving_on[i]);
                if b[i] == unit {
                    assert(a.saving_on.contains(unit));
                }
            }
        }
    }
}

proof fn lemma_train_each_no_dup(s: BuildStateView, cands: Seq<ProductionStructure>, costs: CostTable, unit: u32)
    requires
        no_dup_types(s.saving_on),
    ensures
        no_dup_types(train_each(s, cands, costs, unit).saving_on),
    decreases cands.len(),
{
    if cands.len() > 0 {
        lemma_train_each_no_dup(s, cands.drop_last(), costs, unit);
        let p = train_each(s, cands.drop_last(), costs, unit);
        let q = if affordable(p.economy, cost_of(costs, unit), true) {
            ordered(p, cands.last().tag, ProductionCommand::Train(cands.last().tag, unit))
        } else {
            p
        };
        lemma_saved_no_dup(q, costs, unit);
    }
}

/// Training alone gives no structure two orders: the structures its new
/// orders name are distinct, each was idle before and none is idle after,
/// the idle list only loses structures, and each by taking an order; a
/// savings list without repeats stays without repeats.
pub proof fn train_orders_each_structure_once(s: BuildStateView, structs: Seq<ProductionStructure>, costs: CostTable, pending: Seq<u32>, source: u32, unit: u32)
    requires
        distinct_structures(structs),
    ensures
        fresh(s, train_spec(s, structs, costs, pending, source, unit)),
        no_dup_types(s.saving_on) ==> no_dup_types(train_spec(s, structs, costs, pending, source, unit).saving_on),
{
    lemma_fresh_train(s, structs, costs, pending, source, unit);
    if no_dup_types(s.saving_on) {
        let cands = idle_of(structs, source, s.idle_production);
        lemma_train_each_no_dup(s, cands, costs, unit);
        if needs_techlab(unit) {
            match first_with_techlab(cands) {
                Some(k) => lemma_saved_no_dup(ordered(s, cands[k].tag, ProductionCommand::Train(cands[k].tag, unit)), costs, unit),
                None => match techlab_of(source) {
                    Some(tl) => {
                        let tcands = idle_of(structs, tl, s.idle_production);
                        if tcands.len() > 0 {
                            lemma_saved_no_dup(ordered(s, tcands[0].tag, ProductionCommand::BuildTechLab(tcands[0].tag)), costs, tl);
                        }
                    },
                    None => {},
                },
            }
        } else if cands.len() > 0 {
            lemma_saved_no_dup(ordered(s, cands[0].tag, ProductionCommand::Train(cands[0].tag, unit)), costs, unit);
        }
    }
}

proof fn lemma_fresh_build_unit(s: BuildStateView, structs: Seq<ProductionStructure>, o: TechObservation, costs: CostTable, unit: u32)
    requires
        distinct_structures(structs),
    ensures
        fresh(s, build_unit(s, structs, o, costs, unit)),
{
    lemma_fresh_refl(s);
    match unit_source(unit) {
        None => {},
        Some(src) => {
            lemma_fresh_work_on_tech(s, o, costs, src);
            lemma_fresh_train(s, structs, costs, o.pending@, src, unit);
            match tech_requirement(unit) {
                Some(t) => lemma_fresh_work_on_tech(s, o, costs, t),
                None => {},
            }
        },
    }
}

/// The build order never gives one structure two orders in a step: the
/// structures its orders name are distinct, each was idle when the step
/// began, and none of them is idle afterwards; a structure leaves the idle
/// list only by taking an order.
pub proof fn no_structure_ordered_twice(s: BuildStateView, structs: Seq<ProductionStructure>, o: TechObservation, costs: CostTable, units: Seq<u32>)
    requires
        distinct_structures(structs),
    ensures
        fresh(s, build_all(s, structs, o, costs, units)),
    decreases units.len(),
{
    if units.len() == 0 {
        lemma_fresh_refl(s);
    } else {
        no_structure_ordered_twice(s, structs, o, costs, units.drop_last());
        let p = build_all(s, structs, o, costs, units.drop_last());
        lemma_fresh_build_unit(p, structs, o, costs, units.last());
        lemma_fresh_trans(s, p, build_unit(p, structs, o, costs, units.last()));
    }
}

} // verus!
