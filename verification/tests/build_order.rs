use nikolaj::build_order::{
    add_to_saving, decide_next_structure, decide_units, execute_build_order, resolve_tech, train, BuildOrder,
    BuildState, ProductionCommand, ProductionStructure, TechObservation, UnitDemandObservation,
};
use nikolaj::build_strategy::Race;
use nikolaj::economy::{Cost, CostTable, Economy};
use nikolaj::unit_types::{
    ARMORY, BANSHEE, BARRACKS, BARRACKS_TECH_LAB, COMMAND_CENTER, FACTORY, MARAUDER, MARINE, MEDIVAC, RAVEN, REAPER,
    SIEGE_TANK, STARPORT, SUPPLY_DEPOT, THOR, VIKING_FIGHTER,
};
use nikolaj::vec_map::VecMap;

fn costs() -> CostTable {
    let mut m = VecMap::new();
    m.insert(MARINE as u64, Cost { minerals: 50, vespene: 0, supply: 1 });
    m.insert(MARAUDER as u64, Cost { minerals: 100, vespene: 25, supply: 2 });
    m.insert(BARRACKS as u64, Cost { minerals: 150, vespene: 0, supply: 0 });
    m.insert(BARRACKS_TECH_LAB as u64, Cost { minerals: 50, vespene: 25, supply: 0 });
    m.insert(FACTORY as u64, Cost { minerals: 150, vespene: 100, supply: 0 });
    CostTable { costs: m }
}

fn state(minerals: u32, vespene: u32) -> BuildState {
    BuildState {
        idle_production: vec![],
        saving_on: vec![],
        economy: Economy { minerals, vespene, supply_left: 10, supply_used: 20 },
        commands: vec![],
    }
}

fn structure(tag: u64, type_id: u32, has_techlab: bool) -> ProductionStructure {
    ProductionStructure { tag, type_id, has_techlab, is_ready: true, is_idle: true }
}

fn demand(race: Race) -> UnitDemandObservation {
    UnitDemandObservation {
        enemy_race: race,
        enemy_cloaking: false,
        ravens: 0,
        medivacs: 0,
        bio: 0,
        iteration: 0,
        reapers_pending: 0,
        reaper_remembered: false,
        banshees_pending: 0,
        banshee_remembered: false,
    }
}

#[test]
fn terran_opponent_gets_tanks_vikings_and_marines() {
    assert_eq!(decide_units(&demand(Race::Terran)), vec![SIEGE_TANK, VIKING_FIGHTER, MARINE]);
    assert_eq!(decide_units(&demand(Race::Zerg)), Vec::<u32>::new());
}

#[test]
fn support_units_and_starters_join_the_order() {
    let mut o = demand(Race::Terran);
    o.enemy_cloaking = true;
    o.bio = 12;
    o.medivacs = 2;
    o.iteration = 5;
    assert_eq!(decide_units(&o), vec![BANSHEE, REAPER, SIEGE_TANK, VIKING_FIGHTER, MARINE, RAVEN, MEDIVAC]);
    // five bio per medivac: two medivacs cover ten
    o.medivacs = 3;
    o.reaper_remembered = true;
    o.banshees_pending = 1;
    o.ravens = 1;
    assert_eq!(decide_units(&o), vec![SIEGE_TANK, VIKING_FIGHTER, MARINE]);
}

#[test]
fn next_structure_is_the_first_units_source() {
    assert_eq!(decide_next_structure(&vec![]), None);
    assert_eq!(decide_next_structure(&vec![MARINE]), Some(BARRACKS));
    assert_eq!(decide_next_structure(&vec![SIEGE_TANK, VIKING_FIGHTER]), Some(FACTORY));
    assert_eq!(decide_next_structure(&vec![SUPPLY_DEPOT, MARINE]), None);
    let order = BuildOrder::new(&demand(Race::Terran));
    assert_eq!(order.units, vec![SIEGE_TANK, VIKING_FIGHTER, MARINE]);
    assert_eq!(order.next_multiproduction_structure, Some(FACTORY));
}

#[test]
fn resolve_tech_walks_up_to_the_first_missing_step() {
    let o = TechObservation { present: vec![COMMAND_CENTER, SUPPLY_DEPOT], ready: vec![], pending: vec![] };
    // a thor needs an armory, which needs a factory, which needs a barracks
    assert_eq!(resolve_tech(&o, THOR), (Some(BARRACKS), Some(BARRACKS)));
    let o = TechObservation { present: vec![COMMAND_CENTER], ready: vec![], pending: vec![FACTORY] };
    assert_eq!(resolve_tech(&o, ARMORY), (Some(FACTORY), None));
    let o = TechObservation { present: vec![STARPORT], ready: vec![], pending: vec![] };
    assert_eq!(resolve_tech(&o, STARPORT), (None, None));
}

#[test]
fn saving_sets_a_cost_aside_once() {
    let c = costs();
    let mut s = state(200, 50);
    add_to_saving(&mut s, &c, MARAUDER);
    add_to_saving(&mut s, &c, MARAUDER);
    assert_eq!(s.saving_on, vec![MARAUDER]);
    assert_eq!(s.economy.minerals, 100);
    assert_eq!(s.economy.vespene, 25);
    // never below zero
    add_to_saving(&mut s, &c, FACTORY);
    assert_eq!(s.economy.minerals, 0);
    assert_eq!(s.economy.vespene, 0);
}

#[test]
fn train_without_techlab_uses_the_first_idle_source() {
    let c = costs();
    let mut s = state(500, 0);
    s.idle_production = vec![2, 1];
    let structs = vec![structure(1, BARRACKS, false), structure(2, BARRACKS, false)];
    train(&mut s, &structs, &c, &vec![], BARRACKS, MARINE);
    assert_eq!(s.commands, vec![ProductionCommand::Train(1, MARINE)]);
    assert_eq!(s.idle_production, vec![2]);
    assert_eq!(s.economy.minerals, 450);
}

#[test]
fn train_with_techlab_missing_orders_nothing_while_one_is_pending() {
    let c = costs();
    let mut s = state(500, 100);
    s.idle_production = vec![1];
    let structs = vec![structure(1, BARRACKS, false)];
    train(&mut s, &structs, &c, &vec![BARRACKS_TECH_LAB], BARRACKS, MARAUDER);
    assert!(s.commands.is_empty());
    // without one pending and no idle tech lab, the last resort trains at every idle barracks
    train(&mut s, &structs, &c, &vec![], BARRACKS, MARAUDER);
    assert_eq!(s.commands, vec![ProductionCommand::Train(1, MARAUDER)]);
    assert_eq!(s.saving_on, vec![MARAUDER]);
}

#[test]
fn train_with_techlab_present() {
    let c = costs();
    let mut s = state(500, 100);
    s.idle_production = vec![1, 2];
    let structs = vec![structure(1, BARRACKS, false), structure(2, BARRACKS, true)];
    train(&mut s, &structs, &c, &vec![], BARRACKS, MARAUDER);
    assert_eq!(s.commands, vec![ProductionCommand::Train(2, MARAUDER)]);
    assert_eq!(s.idle_production, vec![1]);
}

#[test]
fn execute_build_order_trains_or_works_on_tech() {
    let c = costs();
    let mut s = state(1000, 100);
    let structs = vec![structure(1, BARRACKS, false), structure(2, BARRACKS, false)];
    let o = TechObservation {
        present: vec![COMMAND_CENTER, SUPPLY_DEPOT, BARRACKS],
        ready: vec![COMMAND_CENTER, SUPPLY_DEPOT, BARRACKS],
        pending: vec![],
    };
    execute_build_order(&mut s, &vec![MARINE, MARINE, SIEGE_TANK], &structs, &o, &c);
    // two marines at two barracks; the tank's factory is ordered and saved for
    assert_eq!(
        s.commands,
        vec![
            ProductionCommand::Train(1, MARINE),
            ProductionCommand::Train(2, MARINE),
            ProductionCommand::Construct(FACTORY),
        ]
    );
    assert!(s.idle_production.is_empty());
    assert_eq!(s.saving_on, vec![MARINE, FACTORY]);
    assert_eq!(s.economy.minerals, 1000 - 50 - 150);
}

#[test]
fn no_structure_ordered_twice_scenario() {
    let c = costs();
    let mut s = state(10_000, 1000);
    let structs = vec![structure(1, BARRACKS, true), structure(2, BARRACKS, false)];
    let o = TechObservation {
        present: vec![COMMAND_CENTER, SUPPLY_DEPOT, BARRACKS],
        ready: vec![COMMAND_CENTER, SUPPLY_DEPOT, BARRACKS],
        pending: vec![],
    };
    execute_build_order(&mut s, &vec![MARAUDER, MARINE, MARINE, MARAUDER], &structs, &o, &c);
    let mut tags: Vec<u64> = vec![];
    for cmd in &s.commands {
        match cmd {
            ProductionCommand::Train(t, _) | ProductionCommand::BuildTechLab(t) => {
                assert!(!tags.contains(t));
                tags.push(*t);
            },
            ProductionCommand::Construct(_) => {},
        }
    }
    assert_eq!(s.commands, vec![ProductionCommand::Train(1, MARAUDER), ProductionCommand::Train(2, MARINE)]);
}

#[test]
fn expand_production_needs_no_idle_structure_and_450_minerals() {
    let c = costs();
    let order = BuildOrder { units: vec![MARINE], next_multiproduction_structure: Some(BARRACKS) };
    let mut s = state(450, 0);
    assert_eq!(order.expand_production(&s, &vec![], &c), Some(BARRACKS));
    assert_eq!(order.expand_production(&s, &vec![BARRACKS], &c), None);
    s.economy.minerals = 449;
    assert_eq!(order.expand_production(&s, &vec![], &c), None);
    s.economy.minerals = 900;
    s.idle_production = vec![7];
    assert_eq!(order.expand_production(&s, &vec![], &c), None);
}

#[test]
fn train_twice_orders_each_structure_once() {
    let c = costs();
    let mut s = state(1000, 100);
    s.idle_production = vec![1, 2];
    let structs = vec![structure(1, BARRACKS, false), structure(2, BARRACKS, false)];
    train(&mut s, &structs, &c, &vec![], BARRACKS, MARINE);
    train(&mut s, &structs, &c, &vec![], BARRACKS, MARINE);
    train(&mut s, &structs, &c, &vec![], BARRACKS, MARINE);
    assert_eq!(s.commands, vec![ProductionCommand::Train(1, MARINE), ProductionCommand::Train(2, MARINE)]);
    assert!(s.idle_production.is_empty());
    assert_eq!(s.saving_on, vec![MARINE]);
}
