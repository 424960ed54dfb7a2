use nikolaj::debugger::{
    debug_resource_assignments_checks, new_bases_assignments, DoubleAssignment, NikolajDebugger, ResourceAllocation,
    WorkersCurrentMiningStep, WorkersMiningSteps,
};

#[test]
fn debugger_switches_depend_on_the_game_kind() {
    let windowed = NikolajDebugger::configured(false);
    assert!(windowed.printing_construction);
    assert!(windowed.displaying_details_selected);
    assert!(!windowed.displaying_bases);
    let headless = NikolajDebugger::configured(true);
    assert!(!headless.printing_construction);
    assert!(headless.displaying_bases && headless.displaying_mining && headless.displaying_main_path);
    assert!(headless.workers_current_mining_steps.is_empty());
}

#[test]
fn mining_steps_keep_one_entry_per_worker() {
    let mut d = NikolajDebugger::configured(false);
    d.add_mining_step(5, WorkersMiningSteps::MineralFarAway);
    d.add_mining_step(6, WorkersMiningSteps::BaseReturn);
    d.add_mining_step(5, WorkersMiningSteps::MineralGather);
    assert_eq!(
        d.workers_current_mining_steps,
        vec![
            WorkersCurrentMiningStep { tag: 5, step: WorkersMiningSteps::MineralGather },
            WorkersCurrentMiningStep { tag: 6, step: WorkersMiningSteps::BaseReturn },
        ]
    );
    d.add_mining_step(7, WorkersMiningSteps::NoStep);
    assert_eq!(d.workers_current_mining_steps.len(), 3);
}

#[test]
fn bases_added_and_removed() {
    let c = new_bases_assignments(&vec![1, 2, 3], &vec![3, 4, 1, 5]);
    assert_eq!(c.added, vec![4, 5]);
    assert_eq!(c.removed, vec![2]);
}

#[test]
fn workers_at_two_resources_are_reported() {
    let allocs = vec![
        ResourceAllocation { role: 1, workers: vec![10, 11] },
        ResourceAllocation { role: 2, workers: vec![12, 10] },
        ResourceAllocation { role: 3, workers: vec![10] },
    ];
    assert_eq!(
        debug_resource_assignments_checks(&allocs),
        vec![
            DoubleAssignment { worker: 10, first_role: 1, other_role: 2 },
            DoubleAssignment { worker: 10, first_role: 1, other_role: 3 },
        ]
    );
    assert!(debug_resource_assignments_checks(&vec![]).is_empty());
}
