use nikolaj::construction::{
    builder_candidates, cancel_building, cancel_construction_in_danger, cancel_constructions_in_danger,
    finish_building_without_workers, get_structure_position, get_structures_to_finish, ConstructionInfo,
    LegacyUnfinished, PlacementKind, StructureDanger, UnfinishedStructure, WorkerActivity, WorkerOrder,
};
use nikolaj::unit_types::{
    ARMORY, BARRACKS, BARRACKS_TECH_LAB, COMMAND_CENTER, MARINE, REFINERY, SCV, SUPPLY_DEPOT,
};
use nikolaj::workers::{
    assign_idle_workers, deficit_sites, distribute_workers, merge_idle, overflow_sites, should_distribute,
    DistributionObservation, Gather, HarvestSite, IdleWorker,
};

#[test]
fn construction_bookkeeping_expires() {
    let mut c = ConstructionInfo::new();
    c.add_under_construction(7, BARRACKS, 100);
    c.add_under_construction(8, SUPPLY_DEPOT, 150);
    c.add_under_construction(7, ARMORY, 200);
    c.add_to_in_training(MARINE, 100);
    assert!(c.is_under_construction(ARMORY));
    assert!(c.is_in_training(MARINE));
    // five seconds after the first order, every entry of worker 7 goes
    c.construction_info_step(213);
    assert!(!c.is_under_construction(BARRACKS));
    assert!(!c.is_under_construction(ARMORY));
    assert!(c.is_under_construction(SUPPLY_DEPOT));
    assert!(!c.is_in_training(MARINE));
}

#[test]
fn unfinished_structures_without_a_worker() {
    let mut c = ConstructionInfo::new();
    c.add_structure_being_finished(1, 70);
    let unfinished = vec![
        UnfinishedStructure { tag: 1, type_id: BARRACKS, complete: false, order_spot_near: false },
        UnfinishedStructure { tag: 2, type_id: BARRACKS, complete: false, order_spot_near: false },
        UnfinishedStructure { tag: 3, type_id: REFINERY, complete: false, order_spot_near: false },
        UnfinishedStructure { tag: 4, type_id: BARRACKS_TECH_LAB, complete: false, order_spot_near: false },
        UnfinishedStructure { tag: 5, type_id: SUPPLY_DEPOT, complete: false, order_spot_near: true },
        UnfinishedStructure { tag: 6, type_id: SUPPLY_DEPOT, complete: true, order_spot_near: false },
    ];
    let workers = vec![WorkerOrder { tag: 70, target: Some(1) }, WorkerOrder { tag: 71, target: None }];
    assert_eq!(get_structures_to_finish(&c, &unfinished, &workers), vec![2]);
    let orders = c.finish_constructions_without_worker(&vec![(2, Some(71)), (9, None)]);
    assert_eq!(orders, vec![(71, 2)]);
    assert_eq!(c.structures_being_finished.get(2), Some(71));
}

#[test]
fn cancel_rules() {
    assert!(cancel_construction_in_danger(true, true, true));
    assert!(!cancel_construction_in_danger(true, true, false));
    assert!(cancel_building(true, 1000, 1000, false, false, false));
    assert!(cancel_building(false, 49, 1000, false, true, false));
    assert!(!cancel_building(false, 50, 1000, false, true, false));
    assert!(cancel_building(false, 30, 400, true, true, true));
    assert!(!cancel_building(false, 30, 700, true, true, true));
}

#[test]
fn older_construction_rules() {
    let bs = vec![
        LegacyUnfinished { tag: 1, type_id: BARRACKS },
        LegacyUnfinished { tag: 2, type_id: SUPPLY_DEPOT },
        LegacyUnfinished { tag: 3, type_id: BARRACKS_TECH_LAB },
    ];
    assert_eq!(finish_building_without_workers(&bs, &vec![SUPPLY_DEPOT]), vec![1]);
    let ws = vec![
        WorkerActivity { tag: 1, constructing: false, returning: false, carrying: false },
        WorkerActivity { tag: 2, constructing: true, returning: false, carrying: false },
        WorkerActivity { tag: 3, constructing: false, returning: false, carrying: true },
    ];
    assert_eq!(builder_candidates(&ws), vec![1]);
    assert_eq!(get_structure_position(SUPPLY_DEPOT), Some(PlacementKind::Depot));
    assert_eq!(get_structure_position(REFINERY), Some(PlacementKind::Geyser));
    assert_eq!(get_structure_position(COMMAND_CENTER), Some(PlacementKind::Expansion));
    assert_eq!(get_structure_position(ARMORY), Some(PlacementKind::Production));
    assert_eq!(get_structure_position(SCV), None);
}

#[test]
fn distribution_delay() {
    let mut last = 100;
    assert!(!should_distribute(&mut last, 107, true, false));
    assert_eq!(last, 100);
    assert!(should_distribute(&mut last, 108, true, false));
    assert_eq!(last, 108);
    assert!(should_distribute(&mut last, 109, true, true));
    assert!(!should_distribute(&mut last, 500, false, true));
    assert_eq!(last, 109);
}

fn site(tag: u64, assigned: u32, ideal: u32) -> HarvestSite {
    HarvestSite { tag, assigned, ideal }
}

#[test]
fn sites_short_of_workers_or_with_too_many() {
    let sites = vec![site(1, 10, 16), site(2, 20, 16), site(1, 12, 16), site(3, 3, 3)];
    assert_eq!(deficit_sites(&sites), vec![1]);
    assert_eq!(overflow_sites(&sites), vec![(2, 4)]);
    assert_eq!(merge_idle(&vec![5, 6], &vec![6, 7, 7]), vec![5, 6, 7]);
}

#[test]
fn idle_workers_fill_geysers_then_bases() {
    let w = |tag: u64, g: Vec<usize>, b: Vec<usize>, m: Option<u64>| IdleWorker {
        tag,
        is_idle: true,
        geysers_by_distance: g,
        bases_by_distance: b,
        nearest_base_mineral: m,
    };
    let workers = vec![w(1, vec![0], vec![0], Some(900)), w(2, vec![0], vec![0], Some(900)), w(3, vec![0], vec![0], Some(901))];
    // one geyser and one base short: the third worker goes to a mineral by a base
    assert_eq!(
        assign_idle_workers(&workers, &vec![50], &vec![60]),
        vec![(1, Gather::Gas(50)), (2, Gather::BaseMineral(60)), (3, Gather::Mineral(901))]
    );
    // minerals by a base come into play only when idle workers outnumber the sites
    assert_eq!(
        assign_idle_workers(&workers[..2].to_vec(), &vec![50], &vec![]),
        vec![(1, Gather::Gas(50)), (2, Gather::Mineral(900))]
    );
    let lone = vec![w(4, vec![], vec![], Some(900))];
    assert!(assign_idle_workers(&lone, &vec![], &vec![60]).is_empty());
}

#[test]
fn distribution_round() {
    let o = DistributionObservation {
        game_loop: 50,
        has_workers: true,
        idle_workers: vec![9],
        has_mineral_fields: true,
        bases: vec![site(1, 18, 16), site(2, 10, 16)],
        base_workers: vec![vec![30, 31, 32], vec![]],
        geysers: vec![site(5, 4, 3)],
        geyser_workers: vec![vec![9, 40]],
    };
    let mut last = 0;
    let plan = distribute_workers(&mut last, &o).unwrap();
    assert_eq!(last, 50);
    assert_eq!(plan.idle, vec![9, 30, 31]);
    assert_eq!(plan.deficit_bases, vec![2]);
    assert!(plan.deficit_geysers.is_empty());
    let mut no_bases = DistributionObservation { bases: vec![], base_workers: vec![], ..o };
    assert!(distribute_workers(&mut last, &no_bases).is_none());
    no_bases.has_workers = false;
    assert!(distribute_workers(&mut last, &no_bases).is_none());
}

#[test]
fn cancel_endangered_structures() {
    let s = |tag: u64, a: bool, b: bool, c: bool| StructureDanger {
        tag,
        in_progress: a,
        low_health: b,
        ground_attacker_near: c,
    };
    let list = vec![s(1, true, true, true), s(2, true, true, false), s(3, false, true, true), s(4, true, true, true)];
    assert_eq!(cancel_constructions_in_danger(&list), vec![1, 4]);
    assert_eq!(cancel_constructions_in_danger(&vec![]), Vec::<u64>::new());
}

#[test]
fn distribution_counter() {
    let o = DistributionObservation {
        game_loop: 200,
        has_workers: true,
        idle_workers: vec![],
        has_mineral_fields: false,
        bases: vec![],
        base_workers: vec![],
        geysers: vec![],
        geyser_workers: vec![],
    };
    // skipped: the delay has not passed, the counter stays
    let mut last = 195;
    assert!(distribute_workers(&mut last, &o).is_none());
    assert_eq!(last, 195);
    // the round runs but finds no mineral field: the counter still moves to now
    let mut last = 100;
    assert!(distribute_workers(&mut last, &o).is_none());
    assert_eq!(last, 200);
}

#[test]
fn minerals_only_after_every_geyser() {
    let w = |tag: u64, g: Vec<usize>| IdleWorker {
        tag,
        is_idle: true,
        geysers_by_distance: g,
        bases_by_distance: vec![],
        nearest_base_mineral: Some(900),
    };
    // each worker orders both geysers, nearest first
    let workers = vec![w(1, vec![1, 0]), w(2, vec![1, 0]), w(3, vec![0, 1]), w(4, vec![1, 0])];
    assert_eq!(
        assign_idle_workers(&workers, &vec![50, 51], &vec![]),
        vec![(1, Gather::Gas(51)), (2, Gather::Gas(50)), (3, Gather::Mineral(900)), (4, Gather::Mineral(900))]
    );
}
