//! What the finished production structures do each step: train the planned
//! unit, get the tech lab it needs (or lift off to find room for one), set a
//! rally point, and land again when flying.
use vstd::prelude::*;
use crate::unit_types::{
    BARRACKS, BARRACKS_FLYING, FACTORY, FACTORY_FLYING, STARPORT, STARPORT_FLYING,
    barracks_unit_requires_techlab, factory_unit_requires_techlab, starport_unit_requires_techlab,
};

verus! {

/// An order for a production structure.
#[derive(Clone, Copy, Debug, PartialEq, Eq, Structural)]
pub enum StructureCommand {
    /// Send the structure's new units to a base.
    Rally { structure: u64, base: u64 },
    Train { structure: u64, unit: u32 },
    BuildTechLab(u64),
    Lift(u64),
    /// Land on the first free spot of the building grid.
    LandOnGrid(u64),
    /// Land in front of a base, towards the enemy.
    LandNearBase { structure: u64, base: u64 },
}

/// A production structure as the step sees it.
#[derive(Clone, Copy, Debug)]
pub struct ProductionBuilding {
    pub tag: u64,
    pub type_id: u32,
    pub is_ready: bool,
    pub is_idle: bool,
    pub has_techlab: bool,
    /// It already sends its units somewhere.
    pub has_rally: bool,
    /// The base closest to it, if any.
    pub closest_base: Option<u64>,
    /// A tech lab fits beside it.
    pub addon_spot_free: bool,
}

/// The grounded form of a production kind, and its flying form.
pub open spec fn flying_form(kind: u32) -> u32 {
    if kind == BARRACKS {
        BARRACKS_FLYING
    } else if kind == FACTORY {
        FACTORY_FLYING
    } else {
        STARPORT_FLYING
    }
}

/// Whether a production kind needs a tech lab for a unit.
#[verifier::allow_in_spec]
pub fn kind_needs_techlab(kind: u32, unit: u32) -> bool
    returns
        if kind == BARRACKS {
            barracks_unit_requires_techlab(unit)
        } else if kind == FACTORY {
            factory_unit_requires_techlab(unit)
        } else {
            starport_unit_requires_techlab(unit)
        },
{
    if kind == BARRACKS {
        barracks_unit_requires_techlab(unit)
    } else if kind == FACTORY {
        factory_unit_requires_techlab(unit)
    } else {
        starport_unit_requires_techlab(unit)
    }
}

/// The orders for one idle structure: a rally point to a base when it has
/// none (barracks pick the closest base, the others the first), then the
/// unit, or, when the unit needs a tech lab the structure lacks, the tech lab
/// when it fits and lift-off when it does not.
pub open spec fn building_commands(b: ProductionBuilding, kind: u32, unit: u32, first_base: Option<u64>) -> Seq<StructureCommand> {
    let base = if kind == BARRACKS {
        b.closest_base
    } else {
        first_base
    };
    let rally = if !b.has_rally && base is Some {
        seq![StructureCommand::Rally { structure: b.tag, base: base->0 }]
    } else {
        seq![]
    };
    let work = if kind_needs_techlab(kind, unit) && !b.has_techlab {
        if b.addon_spot_free {
            StructureCommand::BuildTechLab(b.tag)
        } else {
            StructureCommand::Lift(b.tag)
        }
    } else {
        StructureCommand::Train { structure: b.tag, unit }
    };
    rally.push(work)
}

/// The orders for every idle grounded structure of a kind, in order.
pub open spec fn grounded_commands(bs: Seq<ProductionBuilding>, kind: u32, unit: u32, first_base: Option<u64>) -> Seq<StructureCommand>
    decreases bs.len(),
{
    if bs.len() == 0 {
        seq![]
    } else {
        grounded_commands(bs.drop_last(), kind, unit, first_base) + if bs.last().type_id == kind
            && bs.last().is_idle {
            building_commands(bs.last(), kind, unit, first_base)
        } else {
            seq![]
        }
    }
}

fn push_building_commands(out: &mut Vec<StructureCommand>, b: &ProductionBuilding, kind: u32, unit: u32, first_base: Option<u64>)
    ensures
        final(out)@ == old(out)@ + building_commands(*b, kind, unit, first_base),
{
    let base = if kind == BARRACKS {
        b.closest_base
    } else {
        first_base
    };
    let ghost before = out@;
    if !b.has_rally {
        match base {
            Some(t) => out.push(StructureCommand::Rally { structure: b.tag, base: t }),
            None => {},
        }
    }
    let work = if kind_needs_techlab(kind, unit) && !b.has_techlab {
        if b.addon_spot_free {
            StructureCommand::BuildTechLab(b.tag)
        } else {
            StructureCommand::Lift(b.tag)
        }
    } else {
        StructureCommand::Train { structure: b.tag, unit }
    };
    out.push(work);
    assert(out@ =~= before + building_commands(*b, kind, unit, first_base));
}

/// Orders the idle grounded structures of a production kind to work on the
/// planned unit; nothing happens without a plan.
pub fn handle_grounded(kind: u32, priority: Option<u32>, buildings: &Vec<ProductionBuilding>, first_base: Option<u64>) -> (r: Vec<StructureCommand>)
    ensures
        r@ == match priority {
            Some(unit) => grounded_commands(buildings@, kind, unit, first_base),
            None => seq![],
        },
{
    let mut out: Vec<StructureCommand> = Vec::new();
    let unit = match priority {
        Some(u) => u,
        None => {
            return out;
        },
    };
    let mut i: usize = 0;
    while i < buildings.len()
        invariant
            i <= buildings.len(),
            out@ == grounded_commands(buildings@.take(i as int), kind, unit, first_base),
        decreases buildings.len() - i,
    {
        proof {
            assert(buildings@.take(i + 1).drop_last() =~= buildings@.take(i as int));
        }
        let b = buildings[i];
        if b.type_id == kind && b.is_idle {
            push_building_commands(&mut out, &b, kind, unit, first_base);
        } else {
            assert(out@ =~= out@ + Seq::<StructureCommand>::empty());
        }
        i += 1;
    }
    assert(buildings@.take(buildings.len() as int) =~= buildings@);
    out
}

/// Whether saving for an expansion holds the barracks back: the unit's
/// minerals exceed what is left over 400.
pub open spec fn barracks_held_back(expand_priority: bool, unit_minerals: u32, minerals: u32) -> bool {
    expand_priority && unit_minerals > minerals - 400
}

/// The barracks' step on the ground: held back while saving for an
/// expansion, else every idle barracks works on the planned unit.
/// While saving, fewer than 400 minerals is outside what the bot handles.
pub fn handle_grounded_barracks(priority: Option<u32>, expand_priority: bool, unit_minerals: u32, minerals: u32, buildings: &Vec<ProductionBuilding>) -> (r: Vec<StructureCommand>)
    requires
        priority is Some && expand_priority ==> minerals >= 400,
    ensures
        r@ == match priority {
            Some(unit) => if barracks_held_back(expand_priority, unit_minerals, minerals) {
                seq![]
            } else {
                grounded_commands(buildings@, BARRACKS, unit, None)
            },
            None => seq![],
        },
{
    match priority {
        Some(_) => {
            if expand_priority && unit_minerals > minerals - 400 {
                return Vec::new();
            }
            handle_grounded(BARRACKS, priority, buildings, None)
        },
        None => Vec::new(),
    }
}

/// The landing order for one idle flying structure: on the grid when the
/// grid has room, else in front of the first base where it fits.
pub open spec fn landing(tag: u64, grid_free: bool, base_spots: Seq<(u64, bool)>) -> Seq<StructureCommand> {
    if grid_free {
        seq![StructureCommand::LandOnGrid(tag)]
    } else {
        match crate::seq_util::first_index(base_spots, |s: (u64, bool)| s.1) {
            Some(k) => seq![StructureCommand::LandNearBase { structure: tag, base: base_spots[k].0 }],
            None => seq![],
        }
    }
}

/// The landing orders for every idle flying structure of a kind.
pub open spec fn landings(bs: Seq<ProductionBuilding>, kind: u32, grid_free: bool, base_spots: Seq<(u64, bool)>) -> Seq<StructureCommand>
    decreases bs.len(),
{
    if bs.len() == 0 {
        seq![]
    } else {
        landings(bs.drop_last(), kind, grid_free, base_spots) + if bs.last().type_id == flying_form(kind)
            && bs.last().is_idle {
            landing(bs.last().tag, grid_free, base_spots)
        } else {
            seq![]
        }
    }
}

fn first_free_spot(base_spots: &Vec<(u64, bool)>) -> (r: Option<u64>)
    ensures
        r == match crate::seq_util::first_index(base_spots@, |s: (u64, bool)| s.1) {
            Some(k) => Some(base_spots@[k].0),
            None => None,
        },
{
    let mut i: usize = 0;
    while i < base_spots.len()
        invariant
            i <= base_spots.len(),
            forall|j: int| 0 <= j < i ==> !(#[trigger] base_spots@[j]).1,
        decreases base_spots.len() - i,
    {
        if base_spots[i].1 {
            proof {
                crate::seq_util::lemma_first_index_found(base_spots@, |s: (u64, bool)| s.1, i as int);
            }
            return Some(base_spots[i].0);
        }
        i += 1;
    }
    proof {
        crate::seq_util::lemma_first_index_none(base_spots@, |s: (u64, bool)| s.1);
    }
    None
}

/// Lands the idle flying structures of a production kind. `base_spots` holds
/// each base with whether the spot in front of it, towards the enemy, fits.
pub fn handle_flying(kind: u32, buildings: &Vec<ProductionBuilding>, grid_free: bool, base_spots: &Vec<(u64, bool)>) -> (r: Vec<StructureCommand>)
    ensures
        r@ == landings(buildings@, kind, grid_free, base_spots@),
{
    let flying = if kind == BARRACKS {
        BARRACKS_FLYING
    } else if kind == FACTORY {
        FACTORY_FLYING
    } else {
        STARPORT_FLYING
    };
    let spot = first_free_spot(base_spots);
    let mut out: Vec<StructureCommand> = Vec::new();
    let mut i: usize = 0;
    while i < buildings.len()
        invariant
            i <= buildings.len(),
            flying == flying_form(kind),
            spot == match crate::seq_util::first_index(base_spots@, |s: (u64, bool)| s.1) {
                Some(k) => Some(base_spots@[k].0),
                None => None,
            },
            out@ == landings(buildings@.take(i as int), kind, grid_free, base_spots@),
        decreases buildings.len() - i,
    {
        proof {
            assert(buildings@.take(i + 1).drop_last() =~= buildings@.take(i as int));
        }
        let b = buildings[i];
        let ghost before = out@;
        if b.type_id == flying && b.is_idle {
            if grid_free {
                out.push(StructureCommand::LandOnGrid(b.tag));
            } else {
                match spot {
                    Some(base) => out.push(StructureCommand::LandNearBase { structure: b.tag, base }),
                    None => {},
                }
            }
            assert(out@ =~= before + landing(b.tag, grid_free, base_spots@));
        } else {
            assert(out@ =~= before + Seq::<StructureCommand>::empty());
        }
        i += 1;
    }
    assert(buildings@.take(buildings.len() as int) =~= buildings@);
    out
}

/// A structure never gets two orders of work in one step: every structure
/// that trains, builds a tech lab or lifts off is named once among those orders.
pub open spec fn works_once(cmds: Seq<StructureCommand>, tag: u64) -> bool {
    forall|i: int, j: int| 0 <= i < j < cmds.len() && #[trigger] is_work_for(cmds[i], tag)
        ==> !#[trigger] is_work_for(cmds[j], tag)
}

pub open spec fn is_work_for(c: StructureCommand, tag: u64) -> bool {
    match c {
        StructureCommand::Train { structure, .. } => structure == tag,
        StructureCommand::BuildTechLab(t) => t == tag,
        StructureCommand::Lift(t) => t == tag,
        _ => false,
    }
}

pub open spec fn tags_distinct(bs: Seq<ProductionBuilding>) -> bool {
    forall|i: int, j: int| 0 <= i < j < bs.len() ==> #[trigger] bs[i].tag != #[trigger] bs[j].tag
}

/// With distinct structures, each one gets at most one order of work, and
/// only structures of the kind that are idle get any.
pub proof fn one_order_per_structure(bs: Seq<ProductionBuilding>, kind: u32, unit: u32, first_base: Option<u64>, tag: u64)
    requires
        tags_distinct(bs),
    ensures
        works_once(grounded_commands(bs, kind, unit, first_base), tag),
        (exists|i: int| 0 <= i < grounded_commands(bs, kind, unit, first_base).len()
            && is_work_for(#[trigger] grounded_commands(bs, kind, unit, first_base)[i], tag))
            ==> exists|k: int| 0 <= k < bs.len() && #[trigger] bs[k].tag == tag && bs[k].type_id == kind && bs[k].is_idle,
    decreases bs.len(),
{
    if bs.len() > 0 {
        let init = bs.drop_last();
        assert(tags_distinct(init)) by {
            assert forall|i: int, j: int| 0 <= i < j < init.len() implies #[trigger] init[i].tag != #[trigger] init[j].tag by {
                assert(init[i] == bs[i] && init[j] == bs[j]);
            }
        }
        one_order_per_structure(init, kind, unit, first_base, tag);
        one_order_per_structure(init, kind, unit, first_base, bs.last().tag);
        let a = grounded_commands(init, kind, unit, first_base);
        let b = bs.last();
        let tail = if b.type_id == kind && b.is_idle {
            building_commands(b, kind, unit, first_base)
        } else {
            seq![]
        };
        let all = grounded_commands(bs, kind, unit, first_base);
        assert(all == a + tail);
        // The commands for the last structure name only it, and it gets one order of work.
        assert forall|j: int| 0 <= j < tail.len() && is_work_for(#[trigger] tail[j], tag) implies b.tag == tag
            && j == tail.len() - 1 by {}
        // Orders for earlier structures never name the last one.
        assert forall|i: int| 0 <= i < a.len() && is_work_for(#[trigger] a[i], b.tag) implies false by {
            let k = choose|k: int| 0 <= k < init.len() && #[trigger] init[k].tag == b.tag && init[k].type_id == kind
                && init[k].is_idle;
            assert(bs[k].tag != bs[bs.len() - 1].tag);
        }
        assert forall|i: int, j: int| 0 <= i < j < all.len() && #[trigger] is_work_for(all[i], tag)
            implies !#[trigger] is_work_for(all[j], tag) by {
            if j < a.len() {
                assert(all[i] == a[i] && all[j] == a[j]);
            } else if i < a.len() {
                assert(all[i] == a[i] && all[j] == tail[j - a.len()]);
                if is_work_for(all[j], tag) {
                    assert(b.tag == tag);
                    assert(is_work_for(a[i], b.tag));
                }
            } else {
                assert(all[i] == tail[i - a.len()] && all[j] == tail[j - a.len()]);
            }
        }
        if exists|i: int| 0 <= i < all.len() && is_work_for(#[trigger] all[i], tag) {
            let i = choose|i: int| 0 <= i < all.len() && is_work_for(#[trigger] all[i], tag);
            if i < a.len() {
                assert(all[i] == a[i]);
                let k = choose|k: int| 0 <= k < init.len() && #[trigger] init[k].tag == tag && init[k].type_id == kind
                    && init[k].is_idle;
                assert(bs[k] == init[k]);
            } else {
                assert(all[i] == tail[i - a.len()]);
                assert(bs[bs.len() - 1] == b);
            }
        }
    }
}

/// The barracks' step: the grounded ones work on the plan (unless saving
/// for an expansion holds them back), then the flying ones land.
pub fn barracks_control(priority: Option<u32>, expand_priority: bool, unit_minerals: u32, minerals: u32, buildings: &Vec<ProductionBuilding>, grid_free: bool, base_spots: &Vec<(u64, bool)>) -> (r: Vec<StructureCommand>)
    requires
        priority is Some && expand_priority ==> minerals >= 400,
    ensures
        r@ == match priority {
            Some(unit) => if barracks_held_back(expand_priority, unit_minerals, minerals) {
                seq![]
            } else {
                grounded_commands(buildings@, BARRACKS, unit, None)
            },
            None => seq![],
        } + landings(buildings@, BARRACKS, grid_free, base_spots@),
{
    let mut out = handle_grounded_barracks(priority, expand_priority, unit_minerals, minerals, buildings);
    let mut land = handle_flying(BARRACKS, buildings, grid_free, base_spots);
    out.append(&mut land);
    out
}

/// The factories' step: the grounded ones work on the plan, then the flying
/// ones land.
pub fn factory_control(priority: Option<u32>, buildings: &Vec<ProductionBuilding>, first_base: Option<u64>, grid_free: bool, base_spots: &Vec<(u64, bool)>) -> (r: Vec<StructureCommand>)
    ensures
        r@ == match priority {
            Some(unit) => grounded_commands(buildings@, FACTORY, unit, first_base),
            None => seq![],
        } + landings(buildings@, FACTORY, grid_free, base_spots@),
{
    let mut out = handle_grounded(FACTORY, priority, buildings, first_base);
    let mut land = handle_flying(FACTORY, buildings, grid_free, base_spots);
    out.append(&mut land);
    out
}

/// The starports' step: the grounded ones work on the plan, then the flying
/// ones land.
pub fn starport_control(priority: Option<u32>, buildings: &Vec<ProductionBuilding>, first_base: Option<u64>, grid_free: bool, base_spots: &Vec<(u64, bool)>) -> (r: Vec<StructureCommand>)
    ensures
        r@ == match priority {
            Some(unit) => grounded_commands(buildings@, STARPORT, unit, first_base),
            None => seq![],
        } + landings(buildings@, STARPORT, grid_free, base_spots@),
{
    let mut out = handle_grounded(STARPORT, priority, buildings, first_base);
    let mut land = handle_flying(STARPORT, buildings, grid_free, base_spots);
    out.append(&mut land);
    out
}

/// A finished production structure with no rally point sends its units to
/// the closest base, when there is a base.
pub open spec fn rally_orders(bs: Seq<ProductionBuilding>, has_base: bool) -> Seq<StructureCommand>
    decreases bs.len(),
{
    if bs.len() == 0 {
        seq![]
    } else {
        let b = bs.last();
        rally_orders(bs.drop_last(), has_base) + if crate::unit_types::is_production(b.type_id)
            && b.is_ready && !b.has_rally && has_base && b.closest_base is Some {
            seq![StructureCommand::Rally { structure: b.tag, base: b.closest_base->0 }]
        } else {
            seq![]
        }
    }
}

/// Sets the rally points of the finished production structures.
pub fn set_rally_points(bs: &Vec<ProductionBuilding>, has_base: bool) -> (r: Vec<StructureCommand>)
    ensures
        r@ == rally_orders(bs@, has_base),
{
    let mut out: Vec<StructureCommand> = Vec::new();
    let mut i: usize = 0;
    while i < bs.len()
        invariant
            i <= bs.len(),
            out@ == rally_orders(bs@.take(i as int), has_base),
        decreases bs.len() - i,
    {
        proof {
            assert(bs@.take(i + 1).drop_last() =~= bs@.take(i as int));
        }
        let b = bs[i];
        let ghost before = out@;
        if crate::unit_types::is_production(b.type_id) && b.is_ready && !b.has_rally && has_base {
            match b.closest_base {
                Some(base) => out.push(StructureCommand::Rally { structure: b.tag, base }),
                None => {},
            }
        }
        assert(out@ =~= rally_orders(bs@.take(i + 1), has_base));
        i += 1;
    }
    assert(bs@.take(bs.len() as int) =~= bs@);
    out
}

} // verus!
