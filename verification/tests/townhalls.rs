use nikolaj::townhall::{
    richest_mineral, townhall_control, townhall_step, MineralPatch, NearbyEnemy, ScanTarget, TownhallCommand,
    TownhallContext, TownhallObservation,
};
use nikolaj::unit_types::{
    is_townhall, is_worker, BANSHEE, COMMAND_CENTER, DARK_TEMPLAR, DRONE, MARINE, ORBITAL_COMMAND, PLANETARY_FORTRESS,
    PROBE, SCV,
};
use nikolaj::vec_map::VecMap;

fn base(kind: u32) -> TownhallObservation {
    TownhallObservation {
        kind,
        flying: false,
        idle: true,
        has_orders: false,
        low_health: false,
        energy: Some(0),
        nearby_enemies: vec![],
        enemy_types_by_distance: vec![],
        minerals: vec![],
    }
}

fn ctx() -> TownhallContext {
    TownhallContext {
        now: 1000,
        has_expansion: true,
        at_enemy_start: false,
        enemy_structures_known: true,
        mineral_visibility: vec![],
        minerals_per_townhall: vec![],
        enemy_cloaking: false,
        enemy_flooding: false,
        can_afford_planetary: false,
        can_afford_orbital: false,
        has_ready_engineering_bay: false,
        has_ready_barracks: false,
        orbitals: 0,
        workers: 10,
        townhalls: 1,
        pending_workers: 0,
    }
}

#[test]
fn richest_mineral_is_the_last_of_the_richest() {
    let m = vec![
        MineralPatch { tag: 1, contents: 900 },
        MineralPatch { tag: 2, contents: 1800 },
        MineralPatch { tag: 3, contents: 1800 },
        MineralPatch { tag: 4, contents: 100 },
    ];
    assert_eq!(richest_mineral(&m), Some(3));
    assert_eq!(richest_mineral(&vec![]), None);
}

#[test]
fn flying_town_hall_flees_or_lands() {
    let mut b = base(COMMAND_CENTER);
    b.flying = true;
    b.nearby_enemies = vec![
        NearbyEnemy { attacks_air: true, attacks_ground: true },
        NearbyEnemy { attacks_air: false, attacks_ground: true },
    ];
    let (cmds, _) = townhall_step(&b, &ctx(), 0);
    assert_eq!(cmds, vec![TownhallCommand::FleeFrom(0), TownhallCommand::Stop]);
    b.nearby_enemies = vec![];
    let (cmds, _) = townhall_step(&b, &ctx(), 0);
    assert_eq!(cmds, vec![TownhallCommand::Land]);
}

#[test]
fn dying_town_hall_lifts_unless_a_fortress() {
    let mut b = base(COMMAND_CENTER);
    b.low_health = true;
    b.nearby_enemies = vec![NearbyEnemy { attacks_air: false, attacks_ground: true }];
    assert_eq!(townhall_step(&b, &ctx(), 0).0, vec![TownhallCommand::Lift]);
    b.kind = PLANETARY_FORTRESS;
    assert!(!townhall_step(&b, &ctx(), 0).0.contains(&TownhallCommand::Lift));
}

#[test]
fn orbital_scans_cloak_and_calls_mules() {
    let mut b = base(ORBITAL_COMMAND);
    b.energy = Some(60);
    b.enemy_types_by_distance = vec![MARINE, DARK_TEMPLAR];
    b.minerals = vec![MineralPatch { tag: 7, contents: 500 }];
    let (cmds, sweep) = townhall_step(&b, &ctx(), 0);
    assert_eq!(cmds, vec![TownhallCommand::Scan(ScanTarget::Enemy(1))]);
    assert_eq!(sweep, 1000 + 224);
    // cooling down: a mule instead
    let (cmds, sweep2) = townhall_step(&b, &ctx(), sweep);
    assert_eq!(cmds, vec![TownhallCommand::CalldownMule(7)]);
    assert_eq!(sweep2, sweep);
    // against cloak, mules wait for 100 energy
    let mut c = ctx();
    c.enemy_cloaking = true;
    let (cmds, _) = townhall_step(&b, &c, sweep);
    assert_eq!(cmds, vec![TownhallCommand::TrainWorker]);
}

#[test]
fn idle_town_hall_morphs_or_trains() {
    let b = base(COMMAND_CENTER);
    let mut c = ctx();
    c.can_afford_orbital = true;
    c.has_ready_barracks = true;
    assert_eq!(townhall_step(&b, &c, 0).0, vec![TownhallCommand::MorphOrbital]);
    c.can_afford_planetary = true;
    c.has_ready_engineering_bay = true;
    c.orbitals = 2;
    assert_eq!(townhall_step(&b, &c, 0).0, vec![TownhallCommand::MorphPlanetary]);
    let c = ctx();
    assert_eq!(townhall_step(&b, &c, 0).0, vec![TownhallCommand::TrainWorker]);
    let mut full = ctx();
    full.workers = 22;
    assert!(townhall_step(&b, &full, 0).0.is_empty());
}

#[test]
fn every_town_hall_gets_its_step() {
    let mut o = base(ORBITAL_COMMAND);
    o.energy = Some(60);
    o.enemy_types_by_distance = vec![BANSHEE];
    let bases = vec![o.clone(), o];
    let mut sweep = 0;
    let r = townhall_control(&bases, &ctx(), &mut sweep);
    // the first scan starts the cooldown, so the second orbital does not scan
    assert_eq!(r[0], vec![TownhallCommand::Scan(ScanTarget::Enemy(0))]);
    assert_ne!(r[1], vec![TownhallCommand::Scan(ScanTarget::Enemy(0))]);
    assert_eq!(sweep, 1224);
}

#[test]
fn unit_groups() {
    assert!(is_worker(SCV) && is_worker(PROBE) && is_worker(DRONE));
    assert!(!is_worker(MARINE));
    assert!(is_townhall(ORBITAL_COMMAND) && !is_townhall(MARINE));
}

#[test]
fn vec_map_keeps_one_value_per_key() {
    let mut m: VecMap<u32> = VecMap::new();
    m.insert(5, 1);
    m.insert(6, 2);
    m.insert(5, 3);
    assert_eq!(m.len(), 2);
    assert_eq!(m.get(5), Some(3));
    assert_eq!(m.keys(), vec![5, 6]);
    m.remove(5);
    assert!(!m.contains_key(5));
    assert_eq!(m.len(), 1);
}
