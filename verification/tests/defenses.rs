use nikolaj::defenses::{
    bunker_micro, construct_missile_turrets, construct_refinery, control_bunker, depot_micro, find_bunker_placement,
    get_placement_on_grid, grid_spots, lowest_health_target, request_bio, supply_depots_control, BaseAt, BioUnit,
    BunkerEnemy, BunkerMicroView, BunkerObservation, BunkerSite, Depot, DepotCommand, GasBase, TurretBase,
};
use nikolaj::unit_types::{LARVA, MARAUDER, MARINE, REAPER, ZERGLING};

fn depot(tag: u64, lowered: bool, near: bool) -> Depot {
    Depot { tag, is_ready: true, lowered, ground_enemy_near: near }
}

#[test]
fn depots_open_for_us_and_close_for_the_enemy() {
    let ds = vec![depot(1, false, false), depot(2, false, true), depot(3, true, true), depot(4, true, false)];
    assert_eq!(supply_depots_control(&ds), vec![DepotCommand::Lower(1), DepotCommand::Raise(3)]);
}

#[test]
fn depot_orders_never_disagree() {
    for lowered in [false, true] {
        for near in [false, true] {
            let r = supply_depots_control(&vec![depot(5, lowered, near)]);
            assert!(r.len() <= 1);
        }
    }
}

#[test]
fn older_depot_step() {
    let mut unfinished = depot(5, false, false);
    unfinished.is_ready = false;
    let ds = vec![depot(1, false, false), depot(3, true, true), unfinished];
    assert_eq!(depot_micro(&ds), vec![DepotCommand::Lower(3), DepotCommand::Raise(1)]);
}

fn bio(tag: u64, type_id: u32, size: u32) -> BioUnit {
    BioUnit { tag, type_id, is_ready: true, cargo_size: size }
}

#[test]
fn bunker_asks_for_infantry_that_fits() {
    let nearby = vec![bio(10, MARAUDER, 2), bio(11, REAPER, 1), bio(12, MARINE, 1), bio(13, MARAUDER, 2), bio(14, MARINE, 1)];
    // room for four: the marauder (2), skip the reaper, a marine (1), the next marauder does not fit, a marine (1)
    assert_eq!(request_bio(4, &vec![], &vec![], &nearby), vec![10, 12, 14]);
    // earlier requests of dead units go; living ones stay and are not asked twice
    assert_eq!(request_bio(2, &vec![99, 12], &vec![12], &nearby), vec![12, 10]);
    // a full bunker keeps its requests as they were
    assert_eq!(request_bio(0, &vec![99], &vec![], &nearby), vec![99]);
}

#[test]
fn bunker_step_rallies_requests_and_clears() {
    let b1 = BunkerObservation {
        tag: 1,
        is_ready: true,
        has_rally: false,
        closest_base: Some(50),
        in_danger: true,
        cargo_left: 1,
        requests: vec![],
        nearby: vec![bio(10, MARINE, 1)],
    };
    let b2 = BunkerObservation {
        tag: 2,
        is_ready: true,
        has_rally: true,
        closest_base: Some(50),
        in_danger: false,
        cargo_left: 4,
        requests: vec![],
        nearby: vec![],
    };
    let step = control_bunker(&vec![b1, b2], &vec![10]);
    assert_eq!(step.rallies, vec![(1, 50)]);
    assert_eq!(step.cleared, vec![2]);
    assert_eq!(step.requested, vec![(1, vec![10])]);
}

#[test]
fn bunker_site_depends_on_base_count() {
    assert_eq!(find_bunker_placement(&vec![BaseAt { tag: 3, at_start: true }]), Some(BunkerSite::AtRamp(3)));
    assert_eq!(find_bunker_placement(&vec![BaseAt { tag: 3, at_start: false }]), None);
    assert_eq!(
        find_bunker_placement(&vec![BaseAt { tag: 9, at_start: true }, BaseAt { tag: 4, at_start: false }]),
        Some(BunkerSite::TowardCenter(9))
    );
    assert_eq!(find_bunker_placement(&vec![]), None);
}

#[test]
fn turrets_go_to_finished_bases_without_one() {
    let bs = vec![
        TurretBase { tag: 1, is_ready: true, has_turret: false },
        TurretBase { tag: 2, is_ready: true, has_turret: true },
        TurretBase { tag: 3, is_ready: false, has_turret: false },
    ];
    assert_eq!(construct_missile_turrets(true, &bs), vec![1]);
    assert!(construct_missile_turrets(false, &bs).is_empty());
}

#[test]
fn refinery_goes_on_the_first_geyser_with_gas() {
    let bases = vec![
        GasBase { is_ready: true, geyser: Some((7, Some(0))) },
        GasBase { is_ready: false, geyser: Some((8, Some(100))) },
        GasBase { is_ready: true, geyser: Some((9, None)) },
        GasBase { is_ready: true, geyser: Some((10, Some(2250))) },
    ];
    assert_eq!(construct_refinery(true, 0, true, &bases), Some(10));
    assert_eq!(construct_refinery(false, 0, true, &bases), None);
    assert_eq!(construct_refinery(true, 1, true, &bases), None);
    assert_eq!(construct_refinery(true, 0, false, &bases), None);
}

#[test]
fn building_grid_leaves_a_corridor() {
    let spots = grid_spots();
    assert_eq!(spots.len(), 8 * 16);
    assert_eq!(spots[0], (-25, -25));
    assert_eq!(spots[1], (-25, -22));
    assert!(!spots.contains(&(-25, -1)));
    assert!(spots.contains(&(-25, 2)));
    assert_eq!(spots[spots.len() - 1], (24, 23));
    let mut valid = vec![false; 20];
    valid[17] = true;
    assert_eq!(get_placement_on_grid(&valid), Some(spots[17]));
    assert_eq!(get_placement_on_grid(&vec![false; 3]), None);
}

#[test]
fn older_bunker_step_unloads_when_the_army_attacks() {
    let calm = BunkerMicroView {
        tag: 1,
        cargo_taken: Some(4),
        enemies: vec![BunkerEnemy { tag: 50, type_id: LARVA, health: Some(25) }],
    };
    let threatened = BunkerMicroView {
        tag: 2,
        cargo_taken: Some(4),
        enemies: vec![BunkerEnemy { tag: 51, type_id: ZERGLING, health: Some(35) }],
    };
    let empty = BunkerMicroView { tag: 3, cargo_taken: Some(0), enemies: vec![] };
    assert_eq!(bunker_micro(&vec![calm.clone(), threatened.clone(), empty.clone()], true), vec![1]);
    assert!(bunker_micro(&vec![calm, threatened.clone(), empty], false).is_empty());
    assert_eq!(lowest_health_target(&threatened.enemies), None);
}
