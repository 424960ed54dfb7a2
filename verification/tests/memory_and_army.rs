use nikolaj::army::{
    refresh_enemy_army_snapshot, refresh_my_army_snapshot, EnemyArmySnapshot, MyArmySnapshot, OwnUnit, UnitSnapshot,
};
use nikolaj::memory::{
    enemy_macro_strategy, get_enemy_army_supply, EnemyTech, MemoryObservation, MemoryUnit, UnitsMemory,
};
use nikolaj::unit_types::{
    ARCHON, BANSHEE, CARRIER, DARK_TEMPLAR, HIGH_TEMPLAR, MARINE, PROBE, ROACH, STALKER, STARGATE, ZERGLING,
};

fn seen(tag: u64, type_id: u32, supply: u32, now: u32) -> UnitSnapshot {
    UnitSnapshot::from_unit(tag, type_id, supply, 40, false, now)
}

#[test]
fn snapshot_getters() {
    let s = seen(3, ROACH, 2, 10);
    assert_eq!((s.id(), s.type_id(), s.health(), s.supply()), (3, ROACH, 40, 2));
    assert!(!s.is_snapshot && s.is_position_still_relevant);
}

#[test]
fn enemy_army_memory_refreshes() {
    let mut a = EnemyArmySnapshot::new();
    refresh_enemy_army_snapshot(&mut a, 100, &vec![seen(1, ROACH, 2, 100), seen(2, ZERGLING, 1, 100)], &vec![]);
    assert_eq!(a.get_army_supply(), 3);
    assert_eq!(a.get_supply_by_type(ROACH), 2);
    // unit 2 dies, unit 1 is not seen again: it is remembered as a snapshot
    refresh_enemy_army_snapshot(&mut a, 400, &vec![], &vec![2]);
    assert_eq!(a.units.len(), 1);
    assert!(a.units[0].is_snapshot);
    assert!(!a.units[0].is_position_still_relevant);
    // seen again: no longer a snapshot, though the stale position mark stays
    refresh_enemy_army_snapshot(&mut a, 500, &vec![seen(1, ROACH, 2, 500)], &vec![]);
    assert!(!a.units[0].is_snapshot);
    assert!(!a.units[0].is_position_still_relevant);
    // long unseen: forgotten after the fade-out time
    refresh_enemy_army_snapshot(&mut a, 1508, &vec![], &vec![]);
    assert_eq!(a.units.len(), 1);
    refresh_enemy_army_snapshot(&mut a, 1509, &vec![], &vec![]);
    assert!(a.units.is_empty());
}

#[test]
fn ignored_units_do_not_count() {
    let mut a = EnemyArmySnapshot::new();
    let ignored = UnitSnapshot::from_unit(9, PROBE, 1, 20, true, 5);
    a.append_snapshot(&vec![ignored, seen(8, STALKER, 2, 5)]);
    assert_eq!(a.get_army_supply(), 2);
    assert_eq!(a.get_supply_by_type(PROBE), 1);
}

#[test]
fn own_army_follows_our_units() {
    let mut m = MyArmySnapshot::new();
    let u = OwnUnit { tag: 1, type_id: BANSHEE, supply: 3, health: 140, cloaked: true };
    assert!(!refresh_my_army_snapshot(&mut m, &vec![u], 10));
    assert_eq!(m.units.len(), 1);
    let hit = OwnUnit { health: 120, ..u };
    // the remembered health is updated before it is compared, so nothing is noticed
    assert!(!refresh_my_army_snapshot(&mut m, &vec![hit], 11));
    assert_eq!(m.units[0].health, 120);
    assert!(m.detect_health_changes_on_cloaked_units(&vec![OwnUnit { health: 100, ..u }]));
    refresh_my_army_snapshot(&mut m, &vec![], 12);
    assert!(m.units.is_empty());
}

fn mu(tag: u64, type_id: u32, halves: u32) -> MemoryUnit {
    MemoryUnit { tag, type_id, is_flying: false, supply_halves: halves }
}

fn observation() -> MemoryObservation {
    MemoryObservation {
        enemy_units: vec![],
        dead_units: vec![],
        enemy_structures: vec![],
        my_units: vec![],
        my_structures: vec![],
    }
}

#[test]
fn memory_takes_in_and_forgets() {
    let mut m = UnitsMemory::new();
    let mut o = observation();
    o.enemy_units = vec![mu(1, ZERGLING, 1), mu(2, ZERGLING, 1), mu(3, PROBE, 2)];
    m.units_memory(&o);
    assert_eq!(m.enemy_units.len(), 2);
    assert_eq!(m.enemy_unit_types.get(ZERGLING as u64), Some(2));
    assert_eq!(get_enemy_army_supply(&m), 2);
    // seen again as the same type: not counted twice
    m.units_memory(&o);
    assert_eq!(m.enemy_unit_types.get(ZERGLING as u64), Some(2));
    // the dead are forgotten
    let mut o2 = observation();
    o2.dead_units = vec![1];
    m.units_memory(&o2);
    assert_eq!(m.enemy_units.len(), 1);
}

#[test]
fn archon_takes_its_templars() {
    let mut m = UnitsMemory::new();
    let mut o = observation();
    o.enemy_units = vec![mu(1, HIGH_TEMPLAR, 4)];
    m.units_memory(&o);
    assert_eq!(m.enemy_units.len(), 1);
    o.enemy_units = vec![mu(1, HIGH_TEMPLAR, 4), mu(2, ARCHON, 8)];
    m.units_memory(&o);
    assert!(m.enemy_units.contains_key(2));
    assert!(!m.enemy_units.contains_key(1));
}

#[test]
fn enemy_tech_is_read_and_kept() {
    let mut m = UnitsMemory::new();
    let mut o = observation();
    o.enemy_units = vec![mu(1, DARK_TEMPLAR, 4), MemoryUnit { tag: 2, type_id: CARRIER, is_flying: true, supply_halves: 12 }];
    m.units_memory(&o);
    let mut tech = EnemyTech { enemy_cloaking: false, enemy_fliers: false, enemy_heavy_fliers: false };
    enemy_macro_strategy(&mut tech, &m);
    assert_eq!(tech, EnemyTech { enemy_cloaking: true, enemy_fliers: true, enemy_heavy_fliers: true });
    let empty = UnitsMemory::new();
    enemy_macro_strategy(&mut tech, &empty);
    assert_eq!(tech, EnemyTech { enemy_cloaking: true, enemy_fliers: true, enemy_heavy_fliers: true });
    let mut m2 = UnitsMemory::new();
    let mut o2 = observation();
    o2.enemy_structures = vec![mu(5, STARGATE, 0)];
    o2.my_units = vec![mu(6, MARINE, 2)];
    m2.units_memory(&o2);
    let mut t2 = EnemyTech { enemy_cloaking: false, enemy_fliers: false, enemy_heavy_fliers: false };
    enemy_macro_strategy(&mut t2, &m2);
    assert!(t2.enemy_fliers && !t2.enemy_cloaking);
    assert!(m2.my_units.contains_key(6));
}

#[test]
fn memory_counts_new_sightings_and_follows_morphs() {
    let mut m = UnitsMemory::new();
    let mut o = observation();
    o.enemy_units = vec![mu(1, ZERGLING, 1), mu(2, ROACH, 4)];
    o.enemy_structures = vec![mu(10, STARGATE, 0)];
    m.units_memory(&o);
    // a zergling morphs (same tag, new type), a new zergling appears, one dies in the same step
    o.enemy_units = vec![mu(1, ROACH, 4), mu(3, ZERGLING, 1), mu(2, ROACH, 4)];
    o.dead_units = vec![3];
    o.enemy_structures = vec![mu(10, STARGATE, 0), mu(11, STARGATE, 0)];
    m.units_memory(&o);
    assert_eq!(m.enemy_unit_types.get(ZERGLING as u64), Some(2));
    assert_eq!(m.enemy_unit_types.get(ROACH as u64), Some(2));
    assert_eq!(m.enemy_units.get(1).map(|u| u.type_id), Some(ROACH));
    assert!(!m.enemy_units.contains_key(3));
    assert_eq!(m.enemy_structure_types.get(STARGATE as u64), Some(2));
}
