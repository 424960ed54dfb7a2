use nikolaj::production::{
    barracks_control, factory_control, handle_flying, handle_grounded, set_rally_points, starport_control,
    ProductionBuilding, StructureCommand,
};
use nikolaj::unit_types::{
    BANSHEE, BARRACKS, BARRACKS_FLYING, FACTORY, FACTORY_FLYING, MARAUDER, MARINE, MEDIVAC, SIEGE_TANK, STARPORT,
};

fn building(tag: u64, type_id: u32) -> ProductionBuilding {
    ProductionBuilding {
        tag,
        type_id,
        is_ready: true,
        is_idle: true,
        has_techlab: false,
        has_rally: true,
        closest_base: Some(100),
        addon_spot_free: true,
    }
}

#[test]
fn grounded_structures_train_the_plan() {
    let bs = vec![building(1, BARRACKS), building(2, FACTORY), building(3, BARRACKS)];
    assert_eq!(
        handle_grounded(BARRACKS, Some(MARINE), &bs, None),
        vec![
            StructureCommand::Train { structure: 1, unit: MARINE },
            StructureCommand::Train { structure: 3, unit: MARINE },
        ]
    );
    assert!(handle_grounded(BARRACKS, None, &bs, None).is_empty());
}

#[test]
fn missing_techlab_is_built_or_the_structure_lifts() {
    let mut a = building(1, BARRACKS);
    a.has_rally = false;
    let mut b = building(2, BARRACKS);
    b.addon_spot_free = false;
    let mut c = building(3, BARRACKS);
    c.has_techlab = true;
    let mut d = building(4, BARRACKS);
    d.is_idle = false;
    let r = handle_grounded(BARRACKS, Some(MARAUDER), &vec![a, b, c, d], None);
    assert_eq!(
        r,
        vec![
            StructureCommand::Rally { structure: 1, base: 100 },
            StructureCommand::BuildTechLab(1),
            StructureCommand::Lift(2),
            StructureCommand::Train { structure: 3, unit: MARAUDER },
        ]
    );
}

#[test]
fn factories_rally_to_the_first_base() {
    let mut f = building(5, FACTORY);
    f.has_rally = false;
    let r = handle_grounded(FACTORY, Some(SIEGE_TANK), &vec![f], Some(77));
    assert_eq!(r, vec![StructureCommand::Rally { structure: 5, base: 77 }, StructureCommand::BuildTechLab(5)]);
}

#[test]
fn barracks_hold_back_while_saving() {
    let bs = vec![building(1, BARRACKS)];
    // 50 minerals over 400: a marine (50) is not more, so it trains
    assert_eq!(
        barracks_control(Some(MARINE), true, 50, 450, &bs, false, &vec![]),
        vec![StructureCommand::Train { structure: 1, unit: MARINE }]
    );
    assert!(barracks_control(Some(MARAUDER), true, 100, 450, &bs, false, &vec![]).is_empty());
    assert_eq!(
        barracks_control(Some(MARAUDER), false, 100, 0, &bs, false, &vec![]),
        vec![StructureCommand::BuildTechLab(1)]
    );
}

#[test]
fn flying_structures_land_on_grid_or_near_a_base() {
    let bs = vec![building(8, BARRACKS_FLYING), building(9, FACTORY_FLYING)];
    assert_eq!(handle_flying(BARRACKS, &bs, true, &vec![]), vec![StructureCommand::LandOnGrid(8)]);
    assert_eq!(
        handle_flying(FACTORY, &bs, false, &vec![(30, false), (31, true)]),
        vec![StructureCommand::LandNearBase { structure: 9, base: 31 }]
    );
    assert!(handle_flying(FACTORY, &bs, false, &vec![(30, false)]).is_empty());
}

#[test]
fn controls_train_then_land() {
    let bs = vec![building(1, STARPORT), building(2, FACTORY_FLYING), building(3, FACTORY)];
    assert_eq!(
        starport_control(Some(MEDIVAC), &bs, None, true, &vec![]),
        vec![StructureCommand::Train { structure: 1, unit: MEDIVAC }]
    );
    assert_eq!(
        factory_control(Some(SIEGE_TANK), &bs, None, true, &vec![]),
        vec![StructureCommand::BuildTechLab(3), StructureCommand::LandOnGrid(2)]
    );
    assert_eq!(
        starport_control(Some(BANSHEE), &bs, None, true, &vec![]),
        vec![StructureCommand::BuildTechLab(1)]
    );
}

#[test]
fn rally_points_for_finished_production_without_one() {
    let mut a = building(1, BARRACKS);
    a.has_rally = false;
    let mut b = building(2, FACTORY);
    b.has_rally = false;
    b.is_ready = false;
    let c = building(3, STARPORT);
    assert_eq!(set_rally_points(&vec![a, b, c], true), vec![StructureCommand::Rally { structure: 1, base: 100 }]);
    assert!(set_rally_points(&vec![a], false).is_empty());
}
