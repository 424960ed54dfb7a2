use nikolaj::occupancy::{cleanup_tactical_positions, get_tank_position_by_tag, mark_position_occupied, ChokeSlots};
use nikolaj::offense::{army_leader_candidates, check_army_leader, refresh_idle_point, IdlePoint};
use nikolaj::targeting::{
    add_threats, add_to_targeting, LevelTable, PriorityLevel, TargetPriorityInfo, ThreatLevel, ThreatLevelInfo,
};
use nikolaj::townhall::{bases_init, BaseCandidate};
use nikolaj::unit_types::{BANSHEE, DRONE, MARINE, PROBE, SCV, SIEGE_TANK_SIEGED, SPORE_CRAWLER, THOR};

#[test]
fn positions_are_taken_and_freed() {
    let mut chokes = vec![
        ChokeSlots { tank_slots: vec![None, None], bio_slots: vec![Some(7)] },
        ChokeSlots { tank_slots: vec![None], bio_slots: vec![] },
    ];
    mark_position_occupied(&mut chokes, 1, 0, 42);
    mark_position_occupied(&mut chokes, 0, 5, 43);
    assert_eq!(chokes[1].tank_slots, vec![Some(42)]);
    assert_eq!(chokes[0].tank_slots, vec![None, None]);
    assert_eq!(get_tank_position_by_tag(&chokes, 42), Some((1, 0)));
    assert_eq!(get_tank_position_by_tag(&chokes, 43), None);
    let kept = cleanup_tactical_positions(&chokes, false, &vec![42]);
    assert_eq!(kept[1].tank_slots, vec![Some(42)]);
    assert_eq!(kept[0].bio_slots, vec![None]);
    let attacking = cleanup_tactical_positions(&chokes, true, &vec![42, 7]);
    assert_eq!(attacking[1].tank_slots, vec![None]);
}

#[test]
fn targeting_lists_grow_per_unit_type() {
    let mut t: LevelTable<TargetPriorityInfo> = LevelTable::new();
    add_to_targeting(&mut t, BANSHEE, PriorityLevel::VeryHigh, &vec![SCV, PROBE]);
    add_to_targeting(&mut t, MARINE, PriorityLevel::High, &vec![DRONE]);
    add_to_targeting(&mut t, BANSHEE, PriorityLevel::Max, &vec![DRONE]);
    assert_eq!(t.entries.len(), 2);
    assert_eq!(t.entries[0].unit, BANSHEE);
    assert_eq!(
        t.entries[0].items,
        vec![
            TargetPriorityInfo { unit_type: SCV, priority_level: PriorityLevel::VeryHigh },
            TargetPriorityInfo { unit_type: PROBE, priority_level: PriorityLevel::VeryHigh },
            TargetPriorityInfo { unit_type: DRONE, priority_level: PriorityLevel::Max },
        ]
    );
    let mut th: LevelTable<ThreatLevelInfo> = LevelTable::new();
    add_threats(&mut th, BANSHEE, ThreatLevel::Flee, &vec![SPORE_CRAWLER]);
    assert_eq!(th.entries[0].items, vec![ThreatLevelInfo { unit_type: SPORE_CRAWLER, threat_level: ThreatLevel::Flee }]);
}

#[test]
fn idle_point_follows_the_shortest_path() {
    assert_eq!(refresh_idle_point(&vec![]), IdlePoint::StartLocation);
    assert_eq!(refresh_idle_point(&vec![None]), IdlePoint::StartLocation);
    assert_eq!(refresh_idle_point(&vec![Some(40), Some(30), Some(30)]), IdlePoint::PathStep { base: 1, step: 5 });
    assert_eq!(refresh_idle_point(&vec![Some(40), Some(4)]), IdlePoint::PathStep { base: 1, step: 3 });
    assert_eq!(refresh_idle_point(&vec![Some(0)]), IdlePoint::TowardEnemy(0));
}

#[test]
fn army_leader_is_kept_while_alive() {
    assert_eq!(check_army_leader(5, &vec![4, 5], Some(9)), 5);
    assert_eq!(check_army_leader(5, &vec![4], Some(9)), 9);
    assert_eq!(check_army_leader(5, &vec![4], None), 5);
    assert_eq!(army_leader_candidates(&vec![(1, MARINE), (2, BANSHEE), (3, SIEGE_TANK_SIEGED), (4, THOR)]), vec![1, 3, 4]);
}

#[test]
fn mining_bases_are_landed_finished_and_near_minerals() {
    let bs = vec![
        BaseCandidate { tag: 1, is_ready: true, is_flying: false, minerals_near: true },
        BaseCandidate { tag: 2, is_ready: true, is_flying: true, minerals_near: true },
        BaseCandidate { tag: 3, is_ready: true, is_flying: false, minerals_near: false },
        BaseCandidate { tag: 4, is_ready: false, is_flying: false, minerals_near: true },
    ];
    assert_eq!(bases_init(&bs), vec![1]);
}
