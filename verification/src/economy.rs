//! Minerals, gas and supply: whether something is affordable, and what
//! paying for it leaves.
use vstd::prelude::*;
use crate::vec_map::VecMap;

verus! {

/// What a unit, structure or upgrade costs. Supply is whole supply (every
/// Terran cost is a whole number).
#[derive(Clone, Copy, Debug, PartialEq, Eq, Structural)]
pub struct Cost {
    pub minerals: u32,
    pub vespene: u32,
    pub supply: u32,
}

/// The bot's resources in a step.
#[derive(Clone, Copy, Debug, PartialEq, Eq, Structural)]
pub struct Economy {
    pub minerals: u32,
    pub vespene: u32,
    pub supply_left: u32,
    pub supply_used: u32,
}

/// Costs of unit types, as the game reports them; a type it does not report costs nothing.
pub struct CostTable {
    pub costs: VecMap<Cost>,
}

pub open spec fn cost_of(t: CostTable, unit: u32) -> Cost {
    if t.costs@.dom().contains(unit as u64) {
        t.costs@[unit as u64]
    } else {
        Cost { minerals: 0, vespene: 0, supply: 0 }
    }
}

impl CostTable {
    /// The cost of a unit type.
    pub fn get_unit_cost(&self, unit: u32) -> (c: Cost)
        requires
            self.costs.wf(),
        ensures
            c == cost_of(*self, unit),
    {
        match self.costs.get(unit as u64) {
            Some(c) => c,
            None => Cost { minerals: 0, vespene: 0, supply: 0 },
        }
    }
}

pub open spec fn affordable(e: Economy, c: Cost, check_supply: bool) -> bool {
    e.minerals >= c.minerals && e.vespene >= c.vespene && (!check_supply || e.supply_left >= c.supply)
}

/// Whether the bot has the minerals and gas (and, when asked, the supply) for a cost.
pub fn can_afford(e: &Economy, c: &Cost, check_supply: bool) -> (r: bool)
    ensures
        r == affordable(*e, *c, check_supply),
{
    if e.minerals < c.minerals || e.vespene < c.vespene {
        return false;
    }
    if check_supply && e.supply_left < c.supply {
        return false;
    }
    true
}

pub open spec fn sat_sub(a: u32, b: u32) -> u32 {
    if a >= b {
        (a - b) as u32
    } else {
        0
    }
}

pub open spec fn after_paying(e: Economy, c: Cost, subtract_supply: bool) -> Economy {
    Economy {
        minerals: sat_sub(e.minerals, c.minerals),
        vespene: sat_sub(e.vespene, c.vespene),
        supply_left: if subtract_supply {
            sat_sub(e.supply_left, c.supply)
        } else {
            e.supply_left
        },
        supply_used: if subtract_supply {
            (e.supply_used + c.supply) as u32
        } else {
            e.supply_used
        },
    }
}

/// Takes a cost off the bot's resources (never below zero), and, when asked,
/// moves its supply from left to used.
pub fn subtract_resources(e: &mut Economy, c: &Cost, subtract_supply: bool)
    requires
        subtract_supply ==> old(e).supply_used + c.supply <= u32::MAX,
    ensures
        *final(e) == after_paying(*old(e), *c, subtract_supply),
{
    e.minerals = e.minerals.saturating_sub(c.minerals);
    e.vespene = e.vespene.saturating_sub(c.vespene);
    if subtract_supply {
        e.supply_used = e.supply_used + c.supply;
        e.supply_left = e.supply_left.saturating_sub(c.supply);
    }
}

/// Paying for what is affordable leaves exactly the difference.
pub proof fn paying_what_is_affordable(e: Economy, c: Cost)
    requires
        affordable(e, c, false),
    ensures
        after_paying(e, c, false).minerals + c.minerals == e.minerals,
        after_paying(e, c, false).vespene + c.vespene == e.vespene,
{
}

} // verus!
