use nikolaj::economy::{Cost, CostTable};
use nikolaj::unit_types::{
    ARMORY, BANSHEE, BARRACKS_TECH_LAB, ENGINEERING_BAY, FACTORY_TECH_LAB, STARPORT_TECH_LAB, VIKING_FIGHTER,
};
use nikolaj::upgrades::{
    addons_control, armory_air_upgrade_order, armory_ground_upgrade_order, control_armory, engineering_bay_control,
    engineering_bay_upgrade_order, get_next_upgrade, ResearchBuilding, ResearchOrder,
    BARRACKS_TECH_LAB_RESEARCH_STIMPACK, INFANTRY_ARMOR_LEVEL1, INFANTRY_WEAPONS_LEVEL1, INFANTRY_WEAPONS_LEVEL2,
    PLATING_LEVEL1, RESEARCH_BANSHEE_CLOAKING_FIELD, RESEARCH_COMBAT_SHIELD, RESEARCH_DRILLING_CLAWS,
    SHIP_WEAPONS_LEVEL1, UPGRADE_BANSHEE_CLOAK, UPGRADE_DRILL_CLAWS, UPGRADE_SHIELD_WALL, UPGRADE_STIMPACK,
    VEHICLE_WEAPONS_LEVEL1,
};
use nikolaj::vec_map::VecMap;

fn lab(tag: u64, type_id: u32, abilities: Option<Vec<u32>>) -> ResearchBuilding {
    ResearchBuilding { tag, type_id, is_ready: true, is_idle: true, abilities }
}

#[test]
fn upgrade_orders_are_the_documented_ones() {
    assert_eq!(engineering_bay_upgrade_order(), vec![652, 656, 653, 657, 654, 658]);
    assert_eq!(armory_ground_upgrade_order(), vec![855, 864, 856, 865, 857, 866]);
    assert_eq!(armory_air_upgrade_order(), vec![861, 864, 862, 865, 863, 866]);
}

#[test]
fn barracks_lab_takes_combat_shield_before_stimpack() {
    let labs = vec![lab(1, BARRACKS_TECH_LAB, Some(vec![BARRACKS_TECH_LAB_RESEARCH_STIMPACK, RESEARCH_COMBAT_SHIELD]))];
    assert_eq!(
        addons_control(&labs, &vec![UPGRADE_SHIELD_WALL, UPGRADE_STIMPACK]),
        vec![ResearchOrder { structure: 1, ability: RESEARCH_COMBAT_SHIELD }]
    );
    assert_eq!(
        addons_control(&labs, &vec![UPGRADE_STIMPACK]),
        vec![ResearchOrder { structure: 1, ability: BARRACKS_TECH_LAB_RESEARCH_STIMPACK }]
    );
    assert!(addons_control(&labs, &vec![]).is_empty());
}

#[test]
fn labs_research_barracks_then_factory_then_starport() {
    let mut busy_starport = lab(3, STARPORT_TECH_LAB, Some(vec![RESEARCH_BANSHEE_CLOAKING_FIELD]));
    busy_starport.is_idle = false;
    let labs = vec![
        lab(4, STARPORT_TECH_LAB, Some(vec![RESEARCH_BANSHEE_CLOAKING_FIELD])),
        lab(2, FACTORY_TECH_LAB, Some(vec![RESEARCH_DRILLING_CLAWS])),
        lab(1, BARRACKS_TECH_LAB, Some(vec![RESEARCH_COMBAT_SHIELD])),
        busy_starport,
        lab(5, BARRACKS_TECH_LAB, None),
    ];
    let all = vec![UPGRADE_SHIELD_WALL, UPGRADE_DRILL_CLAWS, UPGRADE_BANSHEE_CLOAK];
    assert_eq!(
        addons_control(&labs, &all),
        vec![
            ResearchOrder { structure: 1, ability: RESEARCH_COMBAT_SHIELD },
            ResearchOrder { structure: 2, ability: RESEARCH_DRILLING_CLAWS },
            ResearchOrder { structure: 4, ability: RESEARCH_BANSHEE_CLOAKING_FIELD },
        ]
    );
}

#[test]
fn next_upgrade_is_the_first_offered() {
    let order = engineering_bay_upgrade_order();
    let bay = lab(9, ENGINEERING_BAY, Some(vec![INFANTRY_WEAPONS_LEVEL2, INFANTRY_ARMOR_LEVEL1]));
    assert_eq!(get_next_upgrade(&bay, &order), Some(INFANTRY_ARMOR_LEVEL1));
    assert_eq!(get_next_upgrade(&lab(9, ENGINEERING_BAY, None), &order), None);
}

#[test]
fn engineering_bay_needs_eight_infantry_and_no_saving() {
    let bays = vec![lab(9, ENGINEERING_BAY, Some(vec![INFANTRY_WEAPONS_LEVEL1]))];
    assert!(engineering_bay_control(&bays, 7, false, 1000).is_empty());
    assert_eq!(
        engineering_bay_control(&bays, 8, false, 0),
        vec![ResearchOrder { structure: 9, ability: INFANTRY_WEAPONS_LEVEL1 }]
    );
    // saving: 250 is more than 649 - 400
    assert!(engineering_bay_control(&bays, 8, true, 649).is_empty());
    assert_eq!(engineering_bay_control(&bays, 8, true, 650).len(), 1);
}

#[test]
fn armory_follows_the_bigger_army_half() {
    let mut m = VecMap::new();
    m.insert(VIKING_FIGHTER as u64, Cost { minerals: 150, vespene: 75, supply: 2 });
    m.insert(BANSHEE as u64, Cost { minerals: 150, vespene: 100, supply: 3 });
    let costs = CostTable { costs: m };
    let armories = vec![lab(7, ARMORY, Some(vec![VEHICLE_WEAPONS_LEVEL1, SHIP_WEAPONS_LEVEL1, PLATING_LEVEL1]))];
    let known = VecMap::new();
    // 30 army supply, 5 of it flying: ground 15 > 5
    assert_eq!(
        control_armory(&armories, &vec![VIKING_FIGHTER, BANSHEE], &costs, 30, false, 0, &known),
        vec![ResearchOrder { structure: 7, ability: VEHICLE_WEAPONS_LEVEL1 }]
    );
    // 20 army supply, 5 flying: ground 5 is not more than 5, so air
    assert_eq!(
        control_armory(&armories, &vec![VIKING_FIGHTER, BANSHEE], &costs, 20, false, 0, &known),
        vec![ResearchOrder { structure: 7, ability: SHIP_WEAPONS_LEVEL1 }]
    );
    // no fliers and at most ten army supply: nothing
    assert!(control_armory(&armories, &vec![], &costs, 10, false, 0, &known).is_empty());
}

#[test]
fn armory_stops_at_a_known_unaffordable_upgrade() {
    let costs = CostTable { costs: VecMap::new() };
    let armories = vec![
        lab(7, ARMORY, Some(vec![VEHICLE_WEAPONS_LEVEL1])),
        lab(8, ARMORY, Some(vec![PLATING_LEVEL1])),
    ];
    let mut known = VecMap::new();
    known.insert(VEHICLE_WEAPONS_LEVEL1 as u64, false);
    assert!(control_armory(&armories, &vec![], &costs, 30, false, 0, &known).is_empty());
    let mut known = VecMap::new();
    known.insert(VEHICLE_WEAPONS_LEVEL1 as u64, true);
    assert_eq!(control_armory(&armories, &vec![], &costs, 30, false, 0, &known).len(), 2);
}
