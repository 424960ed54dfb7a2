//! Research at tech labs, the armory and the engineering bay: which upgrade
//! each building starts next, and when saving or cost stops the step.
use vstd::prelude::*;
use crate::economy::CostTable;
use crate::unit_types::{ARMORY, BARRACKS_TECH_LAB, ENGINEERING_BAY, FACTORY_TECH_LAB, STARPORT_TECH_LAB};
use crate::vec_map::VecMap;

verus! {

// Abilities that start research.
pub const BARRACKS_TECH_LAB_RESEARCH_STIMPACK: u32 = 730;
pub const RESEARCH_COMBAT_SHIELD: u32 = 731;
pub const RESEARCH_DRILLING_CLAWS: u32 = 764;
pub const RESEARCH_BANSHEE_CLOAKING_FIELD: u32 = 790;
pub const INFANTRY_WEAPONS_LEVEL1: u32 = 652;
pub const INFANTRY_WEAPONS_LEVEL2: u32 = 653;
pub const INFANTRY_WEAPONS_LEVEL3: u32 = 654;
pub const INFANTRY_ARMOR_LEVEL1: u32 = 656;
pub const INFANTRY_ARMOR_LEVEL2: u32 = 657;
pub const INFANTRY_ARMOR_LEVEL3: u32 = 658;
pub const VEHICLE_WEAPONS_LEVEL1: u32 = 855;
pub const VEHICLE_WEAPONS_LEVEL2: u32 = 856;
pub const VEHICLE_WEAPONS_LEVEL3: u32 = 857;
pub const SHIP_WEAPONS_LEVEL1: u32 = 861;
pub const SHIP_WEAPONS_LEVEL2: u32 = 862;
pub const SHIP_WEAPONS_LEVEL3: u32 = 863;
pub const PLATING_LEVEL1: u32 = 864;
pub const PLATING_LEVEL2: u32 = 865;
pub const PLATING_LEVEL3: u32 = 866;

// Upgrades, as the game names them when it prices them.
pub const UPGRADE_STIMPACK: u32 = 15;
pub const UPGRADE_SHIELD_WALL: u32 = 16;
pub const UPGRADE_BANSHEE_CLOAK: u32 = 20;
pub const UPGRADE_DRILL_CLAWS: u32 = 122;

/// An order to start research.
#[derive(Clone, Copy, Debug, PartialEq, Eq, Structural)]
pub struct ResearchOrder {
    pub structure: u64,
    pub ability: u32,
}

/// A research building as the step sees it.
#[derive(Clone, Debug)]
pub struct ResearchBuilding {
    pub tag: u64,
    pub type_id: u32,
    pub is_ready: bool,
    pub is_idle: bool,
    /// The abilities it offers now; `None` when the game did not say.
    pub abilities: Option<Vec<u32>>,
}

pub open spec fn offers(b: ResearchBuilding, ability: u32) -> bool {
    b.abilities matches Some(a) && a@.contains(ability)
}

/// What a tech lab researches: barracks labs combat shield, then stimpack;
/// factory labs drilling claws; idle starport labs the banshee cloak. Each
/// only while it is still offered and its upgrade is affordable.
pub open spec fn lab_research(b: ResearchBuilding, affordable: Seq<u32>) -> Option<u32> {
    if !b.is_ready || b.abilities is None {
        None
    } else if b.type_id == BARRACKS_TECH_LAB {
        if offers(b, RESEARCH_COMBAT_SHIELD) && affordable.contains(UPGRADE_SHIELD_WALL) {
            Some(RESEARCH_COMBAT_SHIELD)
        } else if offers(b, BARRACKS_TECH_LAB_RESEARCH_STIMPACK) && affordable.contains(UPGRADE_STIMPACK) {
            Some(BARRACKS_TECH_LAB_RESEARCH_STIMPACK)
        } else {
            None
        }
    } else if b.type_id == FACTORY_TECH_LAB {
        if offers(b, RESEARCH_DRILLING_CLAWS) && affordable.contains(UPGRADE_DRILL_CLAWS) {
            Some(RESEARCH_DRILLING_CLAWS)
        } else {
            None
        }
    } else if b.type_id == STARPORT_TECH_LAB && b.is_idle {
        if offers(b, RESEARCH_BANSHEE_CLOAKING_FIELD) && affordable.contains(UPGRADE_BANSHEE_CLOAK) {
            Some(RESEARCH_BANSHEE_CLOAKING_FIELD)
        } else {
            None
        }
    } else {
        None
    }
}

/// The research orders of the labs of one kind, in order.
pub open spec fn lab_orders(bs: Seq<ResearchBuilding>, kind: u32, affordable: Seq<u32>) -> Seq<ResearchOrder>
    decreases bs.len(),
{
    if bs.len() == 0 {
        seq![]
    } else {
        lab_orders(bs.drop_last(), kind, affordable) + if bs.last().type_id == kind {
            match lab_research(bs.last(), affordable) {
                Some(a) => seq![ResearchOrder { structure: bs.last().tag, ability: a }],
                None => seq![],
            }
        } else {
            seq![]
        }
    }
}

fn has_ability(b: &ResearchBuilding, ability: u32) -> (r: bool)
    ensures
        r == offers(*b, ability),
{
    match &b.abilities {
        Some(a) => crate::build_order::has_type(a, ability),
        None => false,
    }
}

fn research_of(b: &ResearchBuilding, affordable: &Vec<u32>) -> (r: Option<u32>)
    ensures
        r == lab_research(*b, affordable@),
{
    if !b.is_ready || b.abilities.is_none() {
        return None;
    }
    if b.type_id == BARRACKS_TECH_LAB {
        if has_ability(b, RESEARCH_COMBAT_SHIELD) && crate::build_order::has_type(affordable, UPGRADE_SHIELD_WALL) {
            Some(RESEARCH_COMBAT_SHIELD)
        } else if has_ability(b, BARRACKS_TECH_LAB_RESEARCH_STIMPACK) && crate::build_order::has_type(
            affordable,
            UPGRADE_STIMPACK,
        ) {
            Some(BARRACKS_TECH_LAB_RESEARCH_STIMPACK)
        } else {
            None
        }
    } else if b.type_id == FACTORY_TECH_LAB {
        if has_ability(b, RESEARCH_DRILLING_CLAWS) && crate::build_order::has_type(affordable, UPGRADE_DRILL_CLAWS) {
            Some(RESEARCH_DRILLING_CLAWS)
        } else {
            None
        }
    } else if b.type_id == STARPORT_TECH_LAB && b.is_idle {
        if has_ability(b, RESEARCH_BANSHEE_CLOAKING_FIELD) && crate::build_order::has_type(
            affordable,
            UPGRADE_BANSHEE_CLOAK,
        ) {
            Some(RESEARCH_BANSHEE_CLOAKING_FIELD)
        } else {
            None
        }
    } else {
        None
    }
}

fn push_lab_orders(out: &mut Vec<ResearchOrder>, bs: &Vec<ResearchBuilding>, kind: u32, affordable: &Vec<u32>)
    ensures
        final(out)@ == old(out)@ + lab_orders(bs@, kind, affordable@),
{
    let ghost start = out@;
    let mut i: usize = 0;
    while i < bs.len()
        invariant
            i <= bs.len(),
            out@ == start + lab_orders(bs@.take(i as int), kind, affordable@),
        decreases bs.len() - i,
    {
        proof {
            assert(bs@.take(i + 1).drop_last() =~= bs@.take(i as int));
        }
        let ghost before = out@;
        if bs[i].type_id == kind {
            match research_of(&bs[i], affordable) {
                Some(a) => out.push(ResearchOrder { structure: bs[i].tag, ability: a }),
                None => {},
            }
        }
        assert(out@ =~= start + lab_orders(bs@.take(i + 1), kind, affordable@));
        i += 1;
    }
    assert(bs@.take(bs.len() as int) =~= bs@);
}

/// The tech labs' research for the step: barracks labs first, then factory
/// labs, then starport labs. `affordable` lists the upgrades the bot can pay for.
pub fn addons_control(bs: &Vec<ResearchBuilding>, affordable: &Vec<u32>) -> (r: Vec<ResearchOrder>)
    ensures
        r@ == lab_orders(bs@, BARRACKS_TECH_LAB, affordable@) + lab_orders(bs@, FACTORY_TECH_LAB, affordable@)
            + lab_orders(bs@, STARPORT_TECH_LAB, affordable@),
{
    let mut out: Vec<ResearchOrder> = Vec::new();
    push_lab_orders(&mut out, bs, BARRACKS_TECH_LAB, affordable);
    push_lab_orders(&mut out, bs, FACTORY_TECH_LAB, affordable);
    push_lab_orders(&mut out, bs, STARPORT_TECH_LAB, affordable);
    out
}

pub open spec fn engineering_bay_order() -> Seq<u32> {
    seq![
        INFANTRY_WEAPONS_LEVEL1,
        INFANTRY_ARMOR_LEVEL1,
        INFANTRY_WEAPONS_LEVEL2,
        INFANTRY_ARMOR_LEVEL2,
        INFANTRY_WEAPONS_LEVEL3,
        INFANTRY_ARMOR_LEVEL3,
    ]
}

pub open spec fn armory_ground_order() -> Seq<u32> {
    seq![
        VEHICLE_WEAPONS_LEVEL1,
        PLATING_LEVEL1,
        VEHICLE_WEAPONS_LEVEL2,
        PLATING_LEVEL2,
        VEHICLE_WEAPONS_LEVEL3,
        PLATING_LEVEL3,
    ]
}

pub open spec fn armory_air_order() -> Seq<u32> {
    seq![
        SHIP_WEAPONS_LEVEL1,
        PLATING_LEVEL1,
        SHIP_WEAPONS_LEVEL2,
        PLATING_LEVEL2,
        SHIP_WEAPONS_LEVEL3,
        PLATING_LEVEL3,
    ]
}

/// The engineering bay's upgrades, in the order they are taken.
pub fn engineering_bay_upgrade_order() -> (r: Vec<u32>)
    ensures
        r@ == engineering_bay_order(),
{
    let r = vec![
        INFANTRY_WEAPONS_LEVEL1,
        INFANTRY_ARMOR_LEVEL1,
        INFANTRY_WEAPONS_LEVEL2,
        INFANTRY_ARMOR_LEVEL2,
        INFANTRY_WEAPONS_LEVEL3,
        INFANTRY_ARMOR_LEVEL3,
    ];
    assert(r@ =~= engineering_bay_order());
    r
}

/// The armory's ground upgrades, in the order they are taken.
pub fn armory_ground_upgrade_order() -> (r: Vec<u32>)
    ensures
        r@ == armory_ground_order(),
{
    let r = vec![
        VEHICLE_WEAPONS_LEVEL1,
        PLATING_LEVEL1,
        VEHICLE_WEAPONS_LEVEL2,
        PLATING_LEVEL2,
        VEHICLE_WEAPONS_LEVEL3,
        PLATING_LEVEL3,
    ];
    assert(r@ =~= armory_ground_order());
    r
}

/// The armory's air upgrades, in the order they are taken.
pub fn armory_air_upgrade_order() -> (r: Vec<u32>)
    ensures
        r@ == armory_air_order(),
{
    let r = vec![
        SHIP_WEAPONS_LEVEL1,
        PLATING_LEVEL1,
        SHIP_WEAPONS_LEVEL2,
        PLATING_LEVEL2,
        SHIP_WEAPONS_LEVEL3,
        PLATING_LEVEL3,
    ];
    assert(r@ =~= armory_air_order());
    r
}

/// The first upgrade of an order that a building still offers.
pub open spec fn next_upgrade(b: ResearchBuilding, order: Seq<u32>) -> Option<u32> {
    match crate::seq_util::first_index(order, |a: u32| offers(b, a)) {
        Some(k) => Some(order[k]),
        None => None,
    }
}

/// Finds the next upgrade of an order that a building offers.
pub fn get_next_upgrade(b: &ResearchBuilding, order: &Vec<u32>) -> (r: Option<u32>)
    ensures
        r == next_upgrade(*b, order@),
{
    let mut i: usize = 0;
    while i < order.len()
        invariant
            i <= order.len(),
            forall|j: int| 0 <= j < i ==> !offers(*b, #[trigger] order@[j]),
        decreases order.len() - i,
    {
        if has_ability(b, order[i]) {
            proof {
                crate::seq_util::lemma_first_index_found(order@, |a: u32| offers(*b, a), i as int);
            }
            return Some(order[i]);
        }
        i += 1;
    }
    proof {
        crate::seq_util::lemma_first_index_none(order@, |a: u32| offers(*b, a));
    }
    None
}

/// Saving for an expansion holds research back while 250 minerals exceed
/// what is left over 400.
pub open spec fn research_held_back(expand_priority: bool, minerals: u32) -> bool {
    expand_priority && 250 > (if minerals >= 400 { minerals - 400 } else { 0 })
}

/// Research at the finished, idle buildings of a kind, one after another:
/// each starts the next upgrade of the order that it offers; the step stops
/// at the first such building while saving holds research back, or when the
/// upgrade is known to be unaffordable. `known` maps an ability to whether
/// the bot can pay for it, where the price is known. The flag says whether
/// the step stopped.
pub open spec fn upgrade_orders(bs: Seq<ResearchBuilding>, kind: u32, order: Seq<u32>, held_back: bool, known: Map<u64, bool>) -> (Seq<ResearchOrder>, bool)
    decreases bs.len(),
{
    if bs.len() == 0 {
        (seq![], false)
    } else {
        let p = upgrade_orders(bs.drop_last(), kind, order, held_back, known);
        let b = bs.last();
        if p.1 || !(b.type_id == kind && b.is_ready && b.is_idle) {
            p
        } else {
            match next_upgrade(b, order) {
                None => p,
                Some(a) => if held_back || (known.contains_key(a as u64) && !known[a as u64]) {
                    (p.0, true)
                } else {
                    (p.0.push(ResearchOrder { structure: b.tag, ability: a }), false)
                },
            }
        }
    }
}

fn run_upgrades(bs: &Vec<ResearchBuilding>, kind: u32, order: &Vec<u32>, held_back: bool, known: &VecMap<bool>) -> (r: Vec<ResearchOrder>)
    requires
        known.wf(),
    ensures
        r@ == upgrade_orders(bs@, kind, order@, held_back, known@).0,
{
    let mut out: Vec<ResearchOrder> = Vec::new();
    let mut stopped = false;
    let mut i: usize = 0;
    while i < bs.len()
        invariant
            i <= bs.len(),
            known.wf(),
            (out@, stopped) == upgrade_orders(bs@.take(i as int), kind, order@, held_back, known@),
        decreases bs.len() - i,
    {
        proof {
            assert(bs@.take(i + 1).drop_last() =~= bs@.take(i as int));
        }
        let b = &bs[i];
        if !stopped && b.type_id == kind && b.is_ready && b.is_idle {
            match get_next_upgrade(b, order) {
                None => {},
                Some(a) => {
                    let unaffordable = match known.get(a as u64) {
                        Some(ok) => !ok,
                        None => false,
                    };
                    if held_back || unaffordable {
                        stopped = true;
                    } else {
                        out.push(ResearchOrder { structure: b.tag, ability: a });
                    }
                },
            }
        }
        i += 1;
    }
    assert(bs@.take(bs.len() as int) =~= bs@);
    out
}

/// The engineering bays' research: none with fewer than eight marines and
/// marauders, else each finished, idle bay starts its next infantry upgrade.
pub fn engineering_bay_control(bs: &Vec<ResearchBuilding>, bio: u64, expand_priority: bool, minerals: u32) -> (r: Vec<ResearchOrder>)
    ensures
        r@ == if bio < 8 {
            seq![]
        } else {
            upgrade_orders(bs@, ENGINEERING_BAY, engineering_bay_order(), research_held_back(expand_priority, minerals), Map::empty()).0
        },
{
    if bio < 8 {
        return Vec::new();
    }
    let order = engineering_bay_upgrade_order();
    let held_back = expand_priority && 250 > minerals.saturating_sub(400);
    let none: VecMap<bool> = VecMap::new();
    assert(none@ =~= Map::<u64, bool>::empty());
    run_upgrades(bs, ENGINEERING_BAY, &order, held_back, &none)
}

/// The supply the flying units cost.
pub open spec fn flying_supply(types: Seq<u32>, costs: CostTable) -> int
    decreases types.len(),
{
    if types.len() == 0 {
        0
    } else {
        flying_supply(types.drop_last(), costs) + crate::economy::cost_of(costs, types.last()).supply
    }
}

/// Which order the armory follows: none while neither the ground army (the
/// army supply beyond the fliers, less ten) nor the fliers count; the ground
/// order while the ground army outweighs the fliers; else the air order.
pub open spec fn armory_focus(supply_army: u32, flying: int) -> Option<bool> {
    let ground = supply_army - flying - 10;
    if ground <= 0 && flying <= 0 {
        None
    } else {
        Some(ground > flying)
    }
}

/// The armories' research. `flying_types` lists the types of our flying units.
pub fn control_armory(bs: &Vec<ResearchBuilding>, flying_types: &Vec<u32>, costs: &CostTable, supply_army: u32, expand_priority: bool, minerals: u32, known: &VecMap<bool>) -> (r: Vec<ResearchOrder>)
    requires
        costs.costs.wf(),
        known.wf(),
        flying_types.len() <= u32::MAX,
    ensures
        r@ == match armory_focus(supply_army, flying_supply(flying_types@, *costs)) {
            None => seq![],
            Some(ground) => upgrade_orders(
                bs@,
                ARMORY,
                if ground {
                    armory_ground_order()
                } else {
                    armory_air_order()
                },
                research_held_back(expand_priority, minerals),
                known@,
            ).0,
        },
{
    let mut flying: u64 = 0;
    let mut i: usize = 0;
    while i < flying_types.len()
        invariant
            i <= flying_types.len(),
            flying_types.len() <= u32::MAX,
            costs.costs.wf(),
            flying == flying_supply(flying_types@.take(i as int), *costs),
            flying <= i * 0xffff_ffff,
        decreases flying_types.len() - i,
    {
        proof {
            assert(flying_types@.take(i + 1).drop_last() =~= flying_types@.take(i as int));
        }
        let c = costs.get_unit_cost(flying_types[i]);
        flying = flying + c.supply as u64;
        i += 1;
    }
    assert(flying_types@.take(flying_types.len() as int) =~= flying_types@);
    let ground: i128 = supply_army as i128 - flying as i128 - 10;
    if ground <= 0 && flying == 0 {
        return Vec::new();
    }
    let order = if ground > flying as i128 {
        armory_ground_upgrade_order()
    } else {
        armory_air_upgrade_order()
    };
    let held_back = expand_priority && 250 > minerals.saturating_sub(400);
    run_upgrades(bs, ARMORY, &order, held_back, known)
}

} // verus!
