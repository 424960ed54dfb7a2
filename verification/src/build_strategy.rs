//! What each production structure should train next, and when saving for an
//! expansion comes first.
use vstd::prelude::*;
use crate::unit_types::{
    BANSHEE, CYCLONE, MARAUDER, MARINE, MEDIVAC, RAVEN, REAPER, SIEGE_TANK, THOR_AA_LANCE,
    VIKING_FIGHTER, WIDOW_MINE,
};

verus! {

/// The opponent's race.
#[derive(PartialEq, Eq, Structural, Clone, Copy, Debug)]
pub enum Race {
    Terran,
    Zerg,
    Protoss,
    Random,
}

/// The production plan: what each kind of production structure trains, and
/// whether an expansion is saved for.
#[derive(Clone, Copy, Debug)]
pub struct MacroManager {
    pub expand_priority: bool,
    pub barracks_priority: Option<u32>,
    pub factory_priority: Option<u32>,
    pub starport_priority: Option<u32>,
    /// The opening reaper has not been started yet.
    pub starter_reaper: bool,
    /// The opening banshee has not been started yet.
    pub starter_banshee: bool,
}

impl MacroManager {
    /// A fresh plan: nothing prioritised, both opening units still to come.
    pub fn new() -> (m: MacroManager)
        ensures
            !m.expand_priority,
            m.barracks_priority is None,
            m.factory_priority is None,
            m.starport_priority is None,
            m.starter_reaper,
            m.starter_banshee,
    {
        MacroManager {
            expand_priority: false,
            barracks_priority: None,
            factory_priority: None,
            starport_priority: None,
            starter_reaper: true,
            starter_banshee: true,
        }
    }
}

/// What the production plan reads of the game. Unit counts include units in
/// production.
#[derive(Clone, Copy, Debug)]
pub struct ArmyCounts {
    pub enemy_race: Race,
    /// Resources tracked by the worker allocator.
    pub mining_resources: usize,
    pub enemy_flooding: bool,
    pub enemy_worker_rush: bool,
    pub enemy_cloaking: bool,
    pub minerals: u32,
    pub supply_left: u32,
    pub supply_used: u32,
    pub supply_army: u32,
    pub marines: usize,
    pub marauders: usize,
    pub reapers: usize,
    /// Siege tanks, sieged or not.
    pub tanks: usize,
    /// Widow mines, burrowed or not.
    pub widow_mines: usize,
    pub medivacs: usize,
    pub ravens: usize,
    /// Vikings in either mode.
    pub vikings: usize,
    pub banshees: usize,
    /// Supply that one siege tank takes.
    pub tank_supply: u32,
    /// Supply that one viking takes.
    pub viking_supply: u32,
}

pub open spec fn expansion_rule(c: ArmyCounts) -> bool {
    c.mining_resources < 8 && c.enemy_flooding && !c.enemy_worker_rush
}

pub open spec fn barracks_rule(starter_reaper: bool, c: ArmyCounts) -> Option<u32> {
    let marines = c.marines;
    let marauders = c.marauders;
    if starter_reaper {
        Some(REAPER)
    } else if c.enemy_race == Race::Zerg {
        if marines <= 4 {
            Some(MARINE)
        } else if marauders <= 2 {
            Some(MARAUDER)
        } else if marines <= 8 {
            Some(MARINE)
        } else {
            None
        }
    } else if c.enemy_race == Race::Protoss {
        if marines >= 8 && marauders >= 8 {
            None
        } else if marines <= marauders {
            Some(MARINE)
        } else {
            Some(MARAUDER)
        }
    } else if c.enemy_race == Race::Terran {
        if marines <= 6 || (c.minerals > 300 && marines <= 20) || (c.minerals > 300
            && c.supply_left > 4 && c.supply_used > 70 && marines <= 40) {
            Some(MARINE)
        } else {
            None
        }
    } else {
        Some(MARINE)
    }
}

/// Units of a kind take more than two fifths of the army's supply:
/// `count * supply * 2.5 > army supply`.
pub open spec fn too_many(count: int, supply: int, supply_army: int) -> bool {
    count * supply * 5 > supply_army * 2
}

pub open spec fn factory_rule(c: ArmyCounts) -> Option<u32> {
    if c.tanks < 4 {
        Some(SIEGE_TANK)
    } else if too_many(c.tanks as int, c.tank_supply as int, c.supply_army as int) {
        Some(CYCLONE)
    } else if c.widow_mines < 1 {
        Some(WIDOW_MINE)
    } else if c.tanks < 16 {
        Some(SIEGE_TANK)
    } else {
        Some(THOR_AA_LANCE)
    }
}

pub open spec fn starport_rule(starter_banshee: bool, c: ArmyCounts) -> Option<u32> {
    let bio = c.marines + c.marauders;
    if starter_banshee {
        Some(BANSHEE)
    } else if c.enemy_cloaking && c.ravens == 0 {
        Some(RAVEN)
    } else if c.vikings < 2 {
        Some(VIKING_FIGHTER)
    } else if bio > 4 && (bio + 1) / 4 > c.medivacs {
        Some(MEDIVAC)
    } else if too_many(c.vikings as int, c.viking_supply as int, c.supply_army as int) {
        Some(BANSHEE)
    } else {
        Some(VIKING_FIGHTER)
    }
}

/// Saving for an expansion comes first while few resources are mined and the
/// enemy floods without a worker rush.
pub fn decide_expansion_priority(m: &mut MacroManager, c: &ArmyCounts)
    ensures
        final(m).expand_priority == expansion_rule(*c),
        final(m).barracks_priority == old(m).barracks_priority,
        final(m).factory_priority == old(m).factory_priority,
        final(m).starport_priority == old(m).starport_priority,
        final(m).starter_reaper == old(m).starter_reaper,
        final(m).starter_banshee == old(m).starter_banshee,
{
    m.expand_priority = c.mining_resources < 8 && c.enemy_flooding && !c.enemy_worker_rush;
}

/// What barracks train: the opening reaper first, then by the opponent's race.
pub fn decide_barracks(m: &mut MacroManager, c: &ArmyCounts)
    ensures
        final(m).barracks_priority == barracks_rule(old(m).starter_reaper, *c),
        final(m).expand_priority == old(m).expand_priority,
        final(m).factory_priority == old(m).factory_priority,
        final(m).starport_priority == old(m).starport_priority,
        final(m).starter_reaper == old(m).starter_reaper,
        final(m).starter_banshee == old(m).starter_banshee,
{
    if m.starter_reaper {
        m.barracks_priority = Some(REAPER);
        return;
    }
    let marines = c.marines;
    let marauders = c.marauders;
    if c.enemy_race == Race::Zerg {
        if marines <= 4 {
            m.barracks_priority = Some(MARINE);
        } else if marauders <= 2 {
            m.barracks_priority = Some(MARAUDER);
        } else if marines <= 8 {
            m.barracks_priority = Some(MARINE);
        } else {
            m.barracks_priority = None;
        }
    } else if c.enemy_race == Race::Protoss {
        if marines >= 8 && marauders >= 8 {
            m.barracks_priority = None;
        } else if marines <= marauders {
            m.barracks_priority = Some(MARINE);
        } else {
            m.barracks_priority = Some(MARAUDER);
        }
    } else if c.enemy_race == Race::Terran {
        let start_marines_needed = marines <= 6;
        let mid_marines_needed = c.minerals > 300 && marines <= 20;
        let late_marines_needed = c.minerals > 300 && c.supply_left > 4 && c.supply_used > 70
            && marines <= 40;
        if start_marines_needed || mid_marines_needed || late_marines_needed {
            m.barracks_priority = Some(MARINE);
        } else {
            m.barracks_priority = None;
        }
    } else {
        m.barracks_priority = Some(MARINE);
    }
}

fn exceeds_two_fifths(count: usize, supply: u32, supply_army: u32) -> (r: bool)
    ensures
        r == too_many(count as int, supply as int, supply_army as int),
{
    let a: u128 = count as u128;
    let b: u128 = supply as u128;
    assert(a * b * 5 <= 0xffff_ffff_ffff_ffffu128 * 0xffff_ffffu128 * 5) by (nonlinear_arith)
        requires
            a <= 0xffff_ffff_ffff_ffffu128,
            b <= 0xffff_ffffu128,
    ;
    let lhs: u128 = a * b * 5;
    let rhs: u128 = (supply_army as u128) * 2;
    lhs > rhs
}

/// What factories train: tanks first, cyclones when tanks crowd the army,
/// one widow mine, more tanks, then thors.
pub fn decide_factory(m: &mut MacroManager, c: &ArmyCounts)
    ensures
        final(m).factory_priority == factory_rule(*c),
        final(m).expand_priority == old(m).expand_priority,
        final(m).barracks_priority == old(m).barracks_priority,
        final(m).starport_priority == old(m).starport_priority,
        final(m).starter_reaper == old(m).starter_reaper,
        final(m).starter_banshee == old(m).starter_banshee,
{
    let tanks = c.tanks;
    let too_many_tanks = exceeds_two_fifths(tanks, c.tank_supply, c.supply_army);
    if tanks < 4 {
        m.factory_priority = Some(SIEGE_TANK);
    } else if too_many_tanks {
        m.factory_priority = Some(CYCLONE);
    } else if c.widow_mines < 1 {
        m.factory_priority = Some(WIDOW_MINE);
    } else if tanks < 16 {
        m.factory_priority = Some(SIEGE_TANK);
    } else {
        m.factory_priority = Some(THOR_AA_LANCE);
    }
}

/// What starports train: the opening banshee, a raven against cloak, two
/// vikings, medivacs for the infantry, then banshees or vikings.
pub fn decide_starport(m: &mut MacroManager, c: &ArmyCounts)
    ensures
        final(m).starport_priority == starport_rule(old(m).starter_banshee, *c),
        final(m).expand_priority == old(m).expand_priority,
        final(m).barracks_priority == old(m).barracks_priority,
        final(m).factory_priority == old(m).factory_priority,
        final(m).starter_reaper == old(m).starter_reaper,
        final(m).starter_banshee == old(m).starter_banshee,
{
    if m.starter_banshee {
        m.starport_priority = Some(BANSHEE);
        return;
    }
    let bio = c.marines as u128 + c.marauders as u128;
    let raven_needed = c.enemy_cloaking && c.ravens == 0;
    let first_vikings_needed = c.vikings < 2;
    let bio_support_needed = bio > 4 && (bio + 1) / 4 > c.medivacs as u128;
    let too_many_vikings = exceeds_two_fifths(c.vikings, c.viking_supply, c.supply_army);
    if raven_needed {
        m.starport_priority = Some(RAVEN);
    } else if first_vikings_needed {
        m.starport_priority = Some(VIKING_FIGHTER);
    } else if bio_support_needed {
        m.starport_priority = Some(MEDIVAC);
    } else if too_many_vikings {
        m.starport_priority = Some(BANSHEE);
    } else {
        m.starport_priority = Some(VIKING_FIGHTER);
    }
}

/// The opening flags after a step: an opening unit counts as started once
/// one exists or is in production.
pub open spec fn starters_after(m: MacroManager, c: ArmyCounts) -> (bool, bool) {
    (m.starter_reaper && c.reapers == 0, m.starter_banshee && c.banshees == 0)
}

/// An opening unit counts as started once one exists or is in production.
pub fn check_starters(m: &mut MacroManager, c: &ArmyCounts)
    ensures
        (final(m).starter_reaper, final(m).starter_banshee) == starters_after(*old(m), *c),
        final(m).expand_priority == old(m).expand_priority,
        final(m).barracks_priority == old(m).barracks_priority,
        final(m).factory_priority == old(m).factory_priority,
        final(m).starport_priority == old(m).starport_priority,
{
    if m.starter_reaper && c.reapers > 0 {
        m.starter_reaper = false;
    }
    if m.starter_banshee && c.banshees > 0 {
        m.starter_banshee = false;
    }
}

/// One step of the production plan.
pub fn decide_build_strategy(m: &mut MacroManager, c: &ArmyCounts)
    ensures
        final(m).expand_priority == expansion_rule(*c),
        (final(m).starter_reaper, final(m).starter_banshee) == starters_after(*old(m), *c),
        final(m).barracks_priority == barracks_rule(final(m).starter_reaper, *c),
        final(m).factory_priority == factory_rule(*c),
        final(m).starport_priority == starport_rule(final(m).starter_banshee, *c),
{
    decide_expansion_priority(m, c);
    check_starters(m, c);
    decide_barracks(m, c);
    decide_factory(m, c);
    decide_starport(m, c);
}

/// The reaper is only ever planned as the opening unit: once the opening
/// reaper has been started, barracks never plan another.
pub proof fn reaper_only_as_opener(c: ArmyCounts)
    ensures
        barracks_rule(false, c) != Some(REAPER),
{
}

/// Once started, an opening unit stays started: a step never turns a cleared
/// opening flag back on, whatever it observes.
pub proof fn starters_stay_cleared(m: MacroManager, c: ArmyCounts)
    ensures
        !m.starter_reaper ==> !starters_after(m, c).0,
        !m.starter_banshee ==> !starters_after(m, c).1,
{
}

/// Against Protoss the barracks keep marines and marauders even: a marine is
/// asked for only while marines do not outnumber marauders, a marauder only
/// while they do.
pub proof fn protoss_bio_stays_balanced(c: ArmyCounts)
    requires
        c.enemy_race == Race::Protoss,
    ensures
        barracks_rule(false, c) == Some(MARINE) ==> c.marines <= c.marauders,
        barracks_rule(false, c) == Some(MARAUDER) ==> c.marines > c.marauders,
        barracks_rule(false, c) is None ==> c.marines >= 8 && c.marauders >= 8,
{
}

} // verus!
