use nikolaj::build_strategy::{decide_build_strategy, ArmyCounts, MacroManager, Race};
use nikolaj::conditions::{
    check_depots_needed, construct_supply_depots, get_conditions, get_macro_conditions, get_next_depot_position,
    BaseDepotSpots, DepotSite, DepotSpots, ExpansionSpot, GeyserSpot, MacroObservation, RampMiddle,
};
use nikolaj::economy::{can_afford, subtract_resources, Cost, CostTable, Economy};
use nikolaj::structures::{
    choose_site, construct_barracks, construct_bunker, construct_command_centers, construct_starport,
    should_try_build_armory, should_try_build_barracks, should_try_build_factory, BuildSite, ExpansionObservation,
    SiteOptions, StructureCounts, TechObservation,
};
use nikolaj::defenses::{BaseAt, BunkerSite};
use nikolaj::unit_types::{
    ARMORY, BANSHEE, COMMAND_CENTER, CYCLONE, ENGINEERING_BAY, MARAUDER, MARINE, MEDIVAC, MISSILE_TURRET, RAVEN,
    REAPER, REFINERY, SIEGE_TANK, SUPPLY_DEPOT, THOR_AA_LANCE, VIKING_FIGHTER, WIDOW_MINE,
};
use nikolaj::vec_map::VecMap;

fn macro_obs() -> MacroObservation {
    MacroObservation {
        supply_left: 10,
        supply_cap: 30,
        supply_used: 20,
        townhalls: 1,
        bases: 1,
        workers: 20,
        pending_depots: 0,
        pending_refineries: 0,
        pending_engineering_bays: 0,
        pending_armories: 0,
        pending_missile_turrets: 0,
        pending_command_centers: 0,
        depot_under_construction: false,
        ramp_middle: None,
        has_barracks: false,
        has_factory: false,
        has_starport: false,
        has_ready_engineering_bay: false,
        engineering_bays: 0,
        armories: 0,
        bio_units: 0,
        mech_units: 0,
        hellions: 0,
        geysers: vec![],
        base_has_turret: vec![],
        enemy_cloaking: false,
        enemy_fliers: false,
        expansion: None,
        defending: false,
    }
}

#[test]
fn depots_when_supply_runs_low() {
    let mut o = macro_obs();
    assert!(!check_depots_needed(&o));
    o.supply_left = 5;
    assert!(check_depots_needed(&o));
    o.pending_depots = 1;
    assert!(!check_depots_needed(&o));
    o.supply_used = 31;
    assert!(check_depots_needed(&o));
    o.depot_under_construction = true;
    assert!(!check_depots_needed(&o));
    // the ramp is closed once a barracks stands
    let mut o = macro_obs();
    o.ramp_middle = Some(RampMiddle { occupied: false, barracks_near: false });
    assert!(!get_conditions(&o, SUPPLY_DEPOT));
    o.has_barracks = true;
    assert!(get_conditions(&o, SUPPLY_DEPOT));
    o.supply_cap = 200;
    assert!(!get_conditions(&o, SUPPLY_DEPOT));
}

#[test]
fn conditions_for_each_structure() {
    let mut o = macro_obs();
    o.has_barracks = true;
    o.geysers = vec![GeyserSpot { vespene: Some(0), occupied: false }, GeyserSpot { vespene: Some(900), occupied: true }];
    assert!(!get_conditions(&o, REFINERY));
    o.geysers.push(GeyserSpot { vespene: Some(2250), occupied: false });
    assert!(get_conditions(&o, REFINERY));
    o.bio_units = 6;
    o.bases = 2;
    assert!(get_conditions(&o, ENGINEERING_BAY));
    o.hellions = 3;
    assert!(get_conditions(&o, ARMORY));
    o.has_ready_engineering_bay = true;
    o.base_has_turret = vec![true, false];
    assert!(!get_conditions(&o, MISSILE_TURRET));
    o.enemy_fliers = true;
    assert!(get_conditions(&o, MISSILE_TURRET));
    o.workers = 51;
    o.has_factory = true;
    o.has_starport = true;
    o.expansion = Some(ExpansionSpot { townhall_near: false, enemies_near: false });
    assert!(get_conditions(&o, COMMAND_CENTER));
    o.defending = true;
    assert!(!get_conditions(&o, COMMAND_CENTER));
    assert!(!get_conditions(&o, MARINE));
    assert!(!get_macro_conditions(&o, REFINERY));
}

fn counts(race: Race) -> ArmyCounts {
    ArmyCounts {
        enemy_race: race,
        mining_resources: 16,
        enemy_flooding: false,
        enemy_worker_rush: false,
        enemy_cloaking: false,
        minerals: 100,
        supply_left: 10,
        supply_used: 40,
        supply_army: 20,
        marines: 0,
        marauders: 0,
        reapers: 0,
        tanks: 0,
        widow_mines: 0,
        medivacs: 0,
        ravens: 0,
        vikings: 0,
        banshees: 0,
        tank_supply: 3,
        viking_supply: 2,
    }
}

#[test]
fn the_plan_opens_with_reaper_and_banshee() {
    let mut m = MacroManager::new();
    let c = counts(Race::Zerg);
    decide_build_strategy(&mut m, &c);
    assert_eq!(m.barracks_priority, Some(REAPER));
    assert_eq!(m.starport_priority, Some(BANSHEE));
    assert_eq!(m.factory_priority, Some(SIEGE_TANK));
    let mut c = counts(Race::Zerg);
    c.reapers = 1;
    c.banshees = 1;
    decide_build_strategy(&mut m, &c);
    assert!(!m.starter_reaper && !m.starter_banshee);
    assert_eq!(m.barracks_priority, Some(MARINE));
    assert_eq!(m.starport_priority, Some(VIKING_FIGHTER));
}

#[test]
fn the_plan_follows_the_opponent() {
    let mut m = MacroManager::new();
    m.starter_reaper = false;
    m.starter_banshee = false;
    let mut c = counts(Race::Protoss);
    c.marines = 5;
    c.marauders = 4;
    c.tanks = 4;
    c.supply_army = 29;
    c.vikings = 2;
    c.enemy_cloaking = true;
    decide_build_strategy(&mut m, &c);
    assert_eq!(m.barracks_priority, Some(MARAUDER));
    // 4 tanks * 3 supply * 2.5 = 30 > 29
    assert_eq!(m.factory_priority, Some(CYCLONE));
    assert_eq!(m.starport_priority, Some(RAVEN));
    c.supply_army = 30;
    c.ravens = 1;
    decide_build_strategy(&mut m, &c);
    assert_eq!(m.factory_priority, Some(WIDOW_MINE));
    assert_eq!(m.starport_priority, Some(MEDIVAC));
    c.widow_mines = 1;
    c.tanks = 16;
    c.supply_army = 200;
    c.medivacs = 3;
    decide_build_strategy(&mut m, &c);
    assert_eq!(m.factory_priority, Some(THOR_AA_LANCE));
    assert_eq!(m.starport_priority, Some(VIKING_FIGHTER));
    c.enemy_race = Race::Terran;
    c.marines = 21;
    decide_build_strategy(&mut m, &c);
    assert_eq!(m.barracks_priority, None);
}

#[test]
fn expansion_priority_while_flooded() {
    let mut m = MacroManager::new();
    let mut c = counts(Race::Zerg);
    c.mining_resources = 7;
    c.enemy_flooding = true;
    decide_build_strategy(&mut m, &c);
    assert!(m.expand_priority);
    c.enemy_worker_rush = true;
    decide_build_strategy(&mut m, &c);
    assert!(!m.expand_priority);
}

fn structure_counts() -> StructureCounts {
    StructureCounts {
        ready: 0,
        flying_ready: 0,
        any_flying: false,
        any_idle: false,
        pending: 0,
        under_construction: false,
        can_afford: true,
    }
}

#[test]
fn production_structure_rules() {
    let b = structure_counts();
    assert!(!should_try_build_barracks(&b, 0, false, 0));
    assert!(should_try_build_barracks(&b, 1, false, 0));
    let mut more = b;
    more.ready = 1;
    assert!(!should_try_build_barracks(&more, 1, false, 1000));
    assert!(should_try_build_barracks(&more, 1, true, 300));
    more.ready = 4;
    assert!(!should_try_build_barracks(&more, 1, true, 300));
    let mut f = structure_counts();
    f.ready = 1;
    assert!(!should_try_build_factory(&f, 1, 0, 299));
    assert!(should_try_build_factory(&f, 1, 1, 0));
}

#[test]
fn sites_are_chosen_in_order() {
    let o = SiteOptions { ramp_fits: false, grid_fits: false, base_spots: vec![(1, false), (2, true)] };
    assert_eq!(choose_site(&o), Some(BuildSite::NearBase(2)));
    let o2 = SiteOptions { ramp_fits: false, grid_fits: true, base_spots: vec![] };
    assert_eq!(choose_site(&o2), Some(BuildSite::Grid));
    assert_eq!(construct_barracks(&structure_counts(), 1, false, 0, &o), Some(BuildSite::NearBase(2)));
    assert_eq!(construct_barracks(&structure_counts(), 0, false, 0, &o), None);
    assert_eq!(construct_starport(&structure_counts(), 0, &o2), None);
}

fn tech_obs() -> TechObservation {
    TechObservation {
        expand_priority: false,
        minerals: 500,
        cost_minerals: 150,
        supply_army: 10,
        has_ready_factory: true,
        has_ready_engineering_bay: true,
        has_ready_townhall: true,
        has_ready_barracks: true,
        ready_townhalls: 1,
        infantry: 8,
        enemy_cloaking: false,
        enemy_flooding: false,
        enemy_flying_units: false,
    }
}

#[test]
fn tech_structure_rules() {
    let a = structure_counts();
    let mut t = tech_obs();
    assert!(should_try_build_armory(&a, &t));
    // saving: 150 is more than 500 - 400
    t.expand_priority = true;
    assert!(!should_try_build_armory(&a, &t));
    t.expand_priority = false;
    t.supply_army = 9;
    assert!(!should_try_build_armory(&a, &t));
    let t = tech_obs();
    assert_eq!(
        construct_bunker(&a, &t, &vec![BaseAt { tag: 4, at_start: true }]),
        Some(BunkerSite::AtRamp(4))
    );
    let mut flooded = tech_obs();
    flooded.enemy_flooding = true;
    assert_eq!(construct_bunker(&a, &flooded, &vec![BaseAt { tag: 4, at_start: true }]), None);
}

#[test]
fn command_center_when_saturated_and_safe() {
    let mut e = ExpansionObservation {
        pending_command_centers: 0,
        command_center_under_construction: false,
        minerals: 400,
        ideal_harvesters: vec![Some(16), None, Some(6)],
        supply_workers: 22,
        expansion_threatened: Some(false),
    };
    assert!(construct_command_centers(&e));
    e.supply_workers = 21;
    assert!(!construct_command_centers(&e));
    e.supply_workers = 22;
    e.expansion_threatened = Some(true);
    assert!(!construct_command_centers(&e));
    e.expansion_threatened = None;
    assert!(!construct_command_centers(&e));
}

#[test]
fn paying_costs() {
    let mut e = Economy { minerals: 100, vespene: 50, supply_left: 2, supply_used: 10 };
    let c = Cost { minerals: 100, vespene: 25, supply: 2 };
    assert!(can_afford(&e, &c, true));
    assert!(!can_afford(&e, &Cost { minerals: 100, vespene: 25, supply: 3 }, true));
    assert!(can_afford(&e, &Cost { minerals: 100, vespene: 25, supply: 3 }, false));
    subtract_resources(&mut e, &c, true);
    assert_eq!(e, Economy { minerals: 0, vespene: 25, supply_left: 0, supply_used: 12 });
    subtract_resources(&mut e, &c, false);
    assert_eq!(e, Economy { minerals: 0, vespene: 0, supply_left: 0, supply_used: 12 });
    let mut m = VecMap::new();
    m.insert(MARINE as u64, c);
    let table = CostTable { costs: m };
    assert_eq!(table.get_unit_cost(MARINE), c);
    assert_eq!(table.get_unit_cost(MEDIVAC), Cost { minerals: 0, vespene: 0, supply: 0 });
}

fn depot_spots() -> DepotSpots {
    DepotSpots {
        corners_free: Some(vec![false, true]),
        middle_free: Some(true),
        bases: vec![
            BaseDepotSpots { tag: 1, at_start: true, wall_found: true, center_found: true },
            BaseDepotSpots { tag: 2, at_start: false, wall_found: false, center_found: true },
            BaseDepotSpots { tag: 3, at_start: false, wall_found: true, center_found: true },
        ],
        behind_main: true,
    }
}

#[test]
fn depot_site_order() {
    let mut s = depot_spots();
    assert_eq!(get_next_depot_position(&s), Some(DepotSite::Corner(1)));
    s.corners_free = Some(vec![false, false]);
    assert_eq!(get_next_depot_position(&s), Some(DepotSite::RampMiddle));
    s.middle_free = Some(false);
    assert_eq!(get_next_depot_position(&s), Some(DepotSite::TowardCenter(2)));
    s.bases[1].center_found = false;
    assert_eq!(get_next_depot_position(&s), Some(DepotSite::Wall(3)));
    s.bases.clear();
    s.corners_free = None;
    s.middle_free = None;
    assert_eq!(get_next_depot_position(&s), Some(DepotSite::BehindMain));
    s.behind_main = false;
    assert_eq!(get_next_depot_position(&s), None);
}

#[test]
fn depots_only_when_needed() {
    let mut o = macro_obs();
    let s = depot_spots();
    assert_eq!(construct_supply_depots(&o, &s), None);
    o.supply_left = 5;
    assert_eq!(construct_supply_depots(&o, &s), Some(DepotSite::Corner(1)));
    o.depot_under_construction = true;
    assert_eq!(construct_supply_depots(&o, &s), None);
}
