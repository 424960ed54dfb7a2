use nikolaj::scv_control::{RepairCandidate, ResourceWorkers, ScvControl};

fn entry(tag: u64, workers: Vec<u64>) -> ResourceWorkers {
    ResourceWorkers { tag, workers }
}

fn tags(v: &Vec<ResourceWorkers>) -> Vec<(u64, Vec<u64>)> {
    v.iter().map(|e| (e.tag, e.workers.clone())).collect()
}

#[test]
fn distribution_keeps_valid_resources() {
    let mut s = ScvControl::new();
    s.mining_distribution = vec![entry(1, vec![10]), entry(2, vec![11]), entry(3, vec![])];
    s.init_mineral_fields_and_refineries(&vec![3, 4, 1, 4]);
    assert_eq!(tags(&s.mining_distribution), vec![(1, vec![10]), (3, vec![]), (4, vec![])]);
}

#[test]
fn allocations_sort_resources_and_workers() {
    let mut s = ScvControl::new();
    s.mining_distribution = vec![entry(1, vec![10, 11]), entry(2, vec![12]), entry(3, vec![13])];
    // 1 is a mineral field, 2 a refinery, 3 is gone; worker 11 died
    s.get_worker_allocations(&vec![1], &vec![2], &vec![10, 12, 13, 14]);
    assert_eq!(s.current_mineral_fields, vec![1]);
    assert_eq!(s.current_refineries, vec![2]);
    assert_eq!(s.current_mineral_workers, vec![10]);
    assert_eq!(s.current_gas_workers, vec![12]);
    assert_eq!(s.current_idle_workers, vec![13, 14]);
}

#[test]
fn saturation_counts_two_per_field_and_three_per_refinery() {
    let mut s = ScvControl::new();
    s.mining_distribution = vec![entry(1, vec![10]), entry(2, vec![11, 12, 13]), entry(5, vec![20, 21, 22, 23])];
    s.current_mineral_fields = vec![1, 2];
    s.current_refineries = vec![5, 6];
    let sat = s.get_saturation_of_resources();
    assert_eq!(sat.deficit_at_mineral_fields, vec![(1, 1)]);
    assert_eq!(sat.overflow_at_mineral_fields, vec![(2, 1)]);
    assert_eq!(sat.deficit_at_refineries, vec![(6, 3)]);
    assert_eq!(sat.overflow_at_refineries, vec![(5, 1)]);
}

#[test]
fn overflow_workers_are_freed_last_first() {
    let mut s = ScvControl::new();
    s.mining_distribution = vec![entry(2, vec![11, 12, 13, 14]), entry(5, vec![20, 21, 22, 23])];
    s.current_mineral_fields = vec![2];
    s.current_refineries = vec![5];
    s.split_workers(&vec![11, 12, 13, 14, 20, 21, 22]);
    assert_eq!(tags(&s.mining_distribution), vec![(2, vec![11, 12]), (5, vec![20, 21, 22])]);
    // 23 no longer exists
    assert_eq!(s.current_idle_workers, vec![14, 13]);
}

#[test]
fn balanced_saturation_frees_nobody() {
    let mut s = ScvControl::new();
    s.mining_distribution = vec![entry(2, vec![11, 12])];
    s.current_mineral_fields = vec![2];
    s.split_workers(&vec![11, 12]);
    assert_eq!(tags(&s.mining_distribution), vec![(2, vec![11, 12])]);
    assert!(s.current_idle_workers.is_empty());
}

#[test]
fn repair_list_follows_damage() {
    let mut s = ScvControl::new();
    s.repair_list = vec![entry(1, vec![10]), entry(2, vec![])];
    let structs = vec![
        RepairCandidate { tag: 1, is_ready: true, full_health: true, damaged: false },
        RepairCandidate { tag: 2, is_ready: true, full_health: false, damaged: true },
        RepairCandidate { tag: 3, is_ready: true, full_health: false, damaged: true },
        RepairCandidate { tag: 4, is_ready: false, full_health: false, damaged: true },
    ];
    s.init_repair_targets(&structs);
    assert_eq!(tags(&s.repair_list), vec![(2, vec![]), (3, vec![])]);
}

#[test]
fn older_worker_step() {
    let mut s = ScvControl::new();
    s.mining_distribution = vec![entry(1, vec![10, 11, 12])];
    s.current_idle_workers = vec![99];
    s.distribute_workers(&vec![1, 2], &vec![1, 2], &vec![], &vec![10, 11, 12, 13], &vec![]);
    assert_eq!(s.current_mineral_fields, vec![1, 2]);
    assert_eq!(tags(&s.mining_distribution), vec![(1, vec![10, 11]), (2, vec![])]);
    assert_eq!(s.current_idle_workers, vec![13, 12]);
}
