use nikolaj::cheese::{cheese_detection, CheeseEvent, CheeseObservation, CheeseState, EnemyStructure};
use nikolaj::offense::{
    army_center_units, base_with_most_workers, decide_offensive, decide_offensive_by_supply, refresh_repair_bases,
    set_offensive_point, FrontUnit, PushDecision, PushObservation,
};
use nikolaj::readings::{count_set, read_enemy_strategy, EnemyReadings, ReadingsObservation, SeenEnemy};
use nikolaj::unit_types::{BANSHEE, DARK_SHRINE, MARAUDER, MARINE, MUTALISK, REAPER, SCV, ZERGLING};

fn readings_obs(now: u32) -> ReadingsObservation {
    ReadingsObservation {
        now,
        workers_toward_us: vec![],
        workers_at_ramp: false,
        corner_spots_blocked: None,
        enemies: vec![],
        remembered_types: vec![],
        structure_types: vec![],
    }
}

#[test]
fn counting_set_entries() {
    assert_eq!(count_set(&vec![true, false, true]), 2);
    assert_eq!(count_set(&vec![]), 0);
}

#[test]
fn worker_rush_is_read_and_forgotten() {
    let mut r = EnemyReadings::new();
    let mut o = readings_obs(100);
    o.workers_toward_us = vec![true, true, true, true, false];
    read_enemy_strategy(&mut r, &o);
    assert!(r.enemy_worker_rush);
    assert_eq!(r.enemy_worker_rush_time, 100);
    // 112 loops later it still holds; one more and it is gone
    read_enemy_strategy(&mut r, &readings_obs(212));
    assert!(r.enemy_worker_rush);
    read_enemy_strategy(&mut r, &readings_obs(213));
    assert!(!r.enemy_worker_rush);
}

#[test]
fn ramp_blocking_needs_nine_steps() {
    let mut r = EnemyReadings::new();
    let mut o = readings_obs(10);
    o.workers_at_ramp = true;
    o.corner_spots_blocked = Some(vec![false, true]);
    for _ in 0..8 {
        read_enemy_strategy(&mut r, &o);
    }
    assert!(!r.enemy_ramp_blocking);
    read_enemy_strategy(&mut r, &o);
    assert!(r.enemy_ramp_blocking);
    // the workers leave the ramp: the reading ends
    read_enemy_strategy(&mut r, &readings_obs(11));
    assert!(!r.enemy_ramp_blocking);
    assert_eq!(r.enemy_ramp_blocking_steps, 0);
}

#[test]
fn flooding_cloaking_and_fliers_are_read() {
    let mut r = EnemyReadings::new();
    let mut o = readings_obs(5000);
    let ling = SeenEnemy { type_id: ZERGLING, can_attack: true, near_our_side: true };
    o.enemies = vec![ling, ling, ling, ling, SeenEnemy { type_id: SCV, can_attack: true, near_our_side: true }];
    read_enemy_strategy(&mut r, &o);
    assert!(!r.enemy_flooding);
    o.enemies.push(ling);
    o.structure_types = vec![DARK_SHRINE];
    o.remembered_types = vec![MUTALISK];
    read_enemy_strategy(&mut r, &o);
    assert!(r.enemy_flooding && r.enemy_cloaking && r.enemy_flying_units);
    // past five minutes flooding is over, the other readings stay
    read_enemy_strategy(&mut r, &readings_obs(6721));
    assert!(!r.enemy_flooding && r.enemy_cloaking && r.enemy_flying_units);
}

fn cheese_obs(now: u32) -> CheeseObservation {
    CheeseObservation {
        now,
        workers_on_our_side: vec![],
        structures: vec![],
        blocker_visible: false,
        blocker_far: false,
        depots: 0,
        corner_blockers: None,
        enemies_at_idle_point: 0,
        townhalls: 1,
        has_ready_bunker: false,
    }
}

#[test]
fn cheese_is_detected_and_cleared() {
    let mut s = CheeseState::new();
    let mut o = cheese_obs(100);
    o.workers_on_our_side = vec![true; 5];
    o.structures = vec![EnemyStructure { type_id: 0, on_our_side: false }, EnemyStructure { type_id: 7, on_our_side: true }];
    o.enemies_at_idle_point = 6;
    let events = cheese_detection(&mut s, &o);
    assert!(s.worker_rush && s.contain_rush && s.flooding);
    assert!(events.contains(&CheeseEvent::WorkerRushStarted));
    assert!(events.contains(&CheeseEvent::FloodingStarted));
    let mut later = cheese_obs(200);
    later.townhalls = 2;
    let _ = cheese_detection(&mut s, &later);
    assert!(!s.worker_rush && !s.contain_rush && !s.flooding);
}

#[test]
fn ramp_blocker_is_named_after_twenty_steps() {
    let mut s = CheeseState::new();
    let mut o = cheese_obs(10);
    o.corner_blockers = Some(vec![Some(5), None, Some(6)]);
    for _ in 0..21 {
        let _ = cheese_detection(&mut s, &o);
    }
    assert_eq!(s.ramp_blocker, None);
    let _ = cheese_detection(&mut s, &o);
    assert_eq!(s.ramp_blocker, Some(6));
    // the blocker is gone from sight: reset
    let _ = cheese_detection(&mut s, &cheese_obs(11));
    assert_eq!(s.ramp_blocker, None);
    assert_eq!(s.ramp_blocker_timer, 0);
}

#[test]
fn attack_decisions() {
    assert!(!decide_offensive(0, 30, true, true));
    assert!(decide_offensive(20, 26, false, false));
    assert!(!decide_offensive(30, 26, false, false));
    assert!(decide_offensive(300, 190, false, false));
    assert!(decide_offensive(300, 14, false, true));
    assert!(!decide_offensive(300, 13, false, true));
    assert!(decide_offensive_by_supply(0, 13));
    assert!(!decide_offensive_by_supply(0, 12));
    assert!(decide_offensive_by_supply(50, 60));
    assert!(!decide_offensive_by_supply(50, 59));
    assert!(decide_offensive_by_supply(120, 110));
    assert!(!decide_offensive_by_supply(120, 109));
}

#[test]
fn push_decision_prefers_defense() {
    let o = PushObservation {
        now: 1000,
        defending: true,
        supply_army: 100,
        supply_used: 190,
        enemy_supply_halves: 0,
        assembling_until: 0,
        pushing_forward: true,
    };
    assert_eq!(set_offensive_point(&o), PushDecision::Hold);
}

#[test]
fn repair_and_center_choices() {
    assert_eq!(base_with_most_workers(&vec![3, 9, 9, 2]), Some(1));
    assert_eq!(base_with_most_workers(&vec![]), None);
    assert_eq!(refresh_repair_bases(&vec![6, 5, 12]), vec![0, 2]);
    let bio = FrontUnit { type_id: MARINE, can_attack: true };
    let maurader = FrontUnit { type_id: MARAUDER, can_attack: true };
    let reaper = FrontUnit { type_id: REAPER, can_attack: true };
    let banshee = FrontUnit { type_id: BANSHEE, can_attack: true };
    let units = vec![reaper, bio, banshee, maurader, bio, bio, bio, bio, bio];
    assert_eq!(army_center_units(&units, 7), vec![1, 3, 4, 5, 6, 7]);
    assert_eq!(army_center_units(&units, 6), vec![1, 3, 4, 5, 6, 7]);
    assert_eq!(army_center_units(&vec![reaper, banshee], 0), Vec::<usize>::new());
}

#[test]
fn cheese_events_in_order() {
    let mut s = CheeseState::new();
    let mut o = cheese_obs(100);
    o.workers_on_our_side = vec![true; 5];
    o.structures = vec![EnemyStructure { type_id: 0, on_our_side: false }, EnemyStructure { type_id: 7, on_our_side: true }];
    o.enemies_at_idle_point = 6;
    assert_eq!(
        cheese_detection(&mut s, &o),
        vec![CheeseEvent::WorkerRushStarted, CheeseEvent::ContainRushStarted(7), CheeseEvent::FloodingStarted]
    );
    let mut later = cheese_obs(200);
    later.townhalls = 2;
    assert_eq!(
        cheese_detection(&mut s, &later),
        vec![CheeseEvent::WorkerRushEnded, CheeseEvent::ContainRushEnded, CheeseEvent::FloodingEnded]
    );
    assert!(cheese_detection(&mut s, &later).is_empty());
    let mut o = cheese_obs(10);
    o.corner_blockers = Some(vec![Some(6)]);
    let mut s = CheeseState::new();
    for _ in 0..21 {
        assert!(cheese_detection(&mut s, &o).is_empty());
    }
    assert_eq!(cheese_detection(&mut s, &o), vec![CheeseEvent::RampBlockStarted]);
}
