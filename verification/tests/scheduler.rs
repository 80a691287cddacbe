use firerunner::config::Configuration;
use firerunner::config::FunctionConfig;
use firerunner::controller::Inner;
use firerunner::controller::ScheduleOutcome;
use firerunner::request::Request;

fn func(name: &str, memory: usize, limit: usize, users: u32) -> FunctionConfig {
    FunctionConfig {
        name: name.to_string(),
        runtimefs: format!("{}-rt.img", name),
        appfs: format!("{}-app.img", name),
        users,
        vcpus: 1,
        memory,
        concurrency_limit: limit,
        load_dir: None,
    }
}

fn scheduler(funcs: Vec<FunctionConfig>, total_mem: usize) -> Inner {
    let mut catalog = Configuration::new("rt".to_string(), "app".to_string());
    for f in funcs {
        catalog.insert(f);
    }
    Inner::new(
        catalog,
        0,
        "console=none".to_string(),
        "kernel.bin".to_string(),
        false,
        false,
        4,
        total_mem,
        false,
    )
}

fn req(name: &str, user: u32) -> Request {
    Request { interval: 0, function: name.to_string(), payload: String::new(), user_id: user }
}

#[test]
fn scenario_boot_then_concurrency_drop() {
    // One function (256 MB, limit 1), cluster free memory 256 MB.  The
    // first request boots a worker and exhausts the memory; the second is
    // dropped by the concurrency check.
    let mut s = scheduler(vec![func("f", 256, 1, 1)], 256);
    let out = s.aws_schedule(req("f", 0), 1000);
    match out {
        ScheduleOutcome::Booted { plan } => {
            assert_eq!(plan.vm_id, 3);
            assert_eq!(plan.function, "f");
            assert_eq!(plan.mem_size_mib, 256);
        },
        _ => panic!("expected a boot"),
    }
    assert_eq!(s.check_running(), 1);
    assert_eq!(s.running_functions[0][0].len(), 1);
    assert_eq!(s.get_cluster_info().total_free_mem, 0);

    let out2 = s.aws_schedule(req("f", 0), 2000);
    assert!(matches!(out2, ScheduleOutcome::DroppedConcurrency));
    let stat = s.get_stat();
    assert_eq!(stat.num_drop_concurrency, 1);
    assert_eq!(stat.num_drop, 1);
    assert_eq!(s.check_running(), 1);
}

#[test]
fn scenario_eviction_swaps_idle_worker() {
    // Cluster of 256 MB, two functions of 256 MB each.  An idle worker of
    // the second function is parked; a request for the first finds no
    // idle worker, no free memory, and evicts it.
    let mut s = scheduler(vec![func("f1", 256, 1, 1), func("f2", 256, 1, 1)], 256);
    let out = s.aws_schedule(req("f2", 0), 10);
    assert!(matches!(out, ScheduleOutcome::Booted { .. }));
    assert!(s.process_response((3, 0, "f2".to_string(), vec![])).is_ok());
    assert_eq!(s.idle_functions[1][0].len(), 1);
    assert_eq!(s.get_cluster_info().total_free_mem, 0);

    let out2 = s.aws_schedule(req("f1", 0), 20);
    match out2 {
        ScheduleOutcome::BootedAfterEviction { victim_id, plan } => {
            assert_eq!(victim_id, 3);
            assert_eq!(plan.vm_id, 4);
            assert_eq!(plan.function, "f1");
        },
        _ => panic!("expected an eviction"),
    }
    assert_eq!(s.running_functions[0][0].len(), 1);
    assert_eq!(s.idle_functions[1][0].len(), 0);
    let stat = s.get_stat();
    assert_eq!(stat.num_evict, 1);
    let evictions: &Vec<u64> = stat.eviction_timestamp.get(3).unwrap();
    assert_eq!(evictions.as_slice(), &[20, 20]);
    let boots: &Vec<u64> = stat.boot_timestamp.get(4).unwrap();
    assert_eq!(boots.as_slice(), &[20]);
    assert_eq!(s.get_cluster_info().total_free_mem, 0);
}

#[test]
fn scenario_completion_moves_worker_to_idle() {
    // A completion for a running worker moves it from running to idle and
    // counts one completed request.
    let mut s = scheduler(vec![func("f", 256, 2, 1)], 512);
    let out = s.aws_schedule(req("f", 0), 5);
    assert!(matches!(out, ScheduleOutcome::Booted { .. }));
    assert_eq!(s.running_functions[0][0].len(), 1);

    assert!(s.process_response((3, 0, "f".to_string(), vec![])).is_ok());
    assert_eq!(s.running_functions[0][0].len(), 0);
    assert_eq!(s.idle_functions[0][0].len(), 1);
    assert_eq!(s.get_stat().num_complete, 1);
}

#[test]
fn scenario_resource_drop_leaves_state_untouched() {
    // No idle worker for the requested function, no free memory slot, and
    // the only idle worker elsewhere is too small to make room: the
    // request is dropped and neither pools nor ledger move.
    let mut s = scheduler(vec![func("big", 256, 1, 1), func("small", 128, 1, 1)], 300);
    let out = s.aws_schedule(req("small", 0), 1);
    assert!(matches!(out, ScheduleOutcome::Booted { .. }));
    assert!(s.process_response((3, 0, "small".to_string(), vec![])).is_ok());
    assert_eq!(s.get_cluster_info().total_free_mem, 172);

    let out2 = s.aws_schedule(req("big", 0), 2);
    assert!(matches!(out2, ScheduleOutcome::DroppedResource));
    let stat = s.get_stat();
    assert_eq!(stat.num_drop_resource, 1);
    assert_eq!(stat.num_drop, 1);
    assert_eq!(stat.num_evict, 0);
    assert_eq!(s.get_cluster_info().total_free_mem, 172);
    assert_eq!(s.idle_functions[1][0].len(), 1);
    assert_eq!(s.running_functions[0][0].len(), 0);
}

#[test]
fn second_completion_of_same_worker_is_rejected() {
    let mut s = scheduler(vec![func("f", 256, 2, 1)], 512);
    s.aws_schedule(req("f", 0), 5);
    assert!(s.process_response((3, 0, "f".to_string(), vec![])).is_ok());
    assert!(s.process_response((3, 0, "f".to_string(), vec![])).is_err());
    assert_eq!(s.get_stat().num_complete, 1);
    assert_eq!(s.idle_functions[0][0].len(), 1);
}

#[test]
fn completion_for_unknown_function_or_user_is_rejected() {
    let mut s = scheduler(vec![func("f", 256, 2, 1)], 512);
    s.aws_schedule(req("f", 0), 5);
    assert!(s.process_response((3, 0, "nosuch".to_string(), vec![])).is_err());
    assert!(s.process_response((3, 9, "f".to_string(), vec![])).is_err());
    assert!(s.process_response((99, 0, "f".to_string(), vec![])).is_err());
    assert!(s.process_response((3, 0, "f".to_string(), vec![])).is_ok());
}

#[test]
fn idle_workers_are_reused_most_recent_first() {
    let mut s = scheduler(vec![func("f", 100, 3, 1)], 1000);
    for now in 0..3u64 {
        let out = s.aws_schedule(req("f", 0), now);
        assert!(matches!(out, ScheduleOutcome::Booted { .. }));
    }
    // Workers 3, 4, 5 complete in order, parking them as idle: 3, 4, 5.
    for id in 3..6u32 {
        assert!(s.process_response((id, 0, "f".to_string(), vec![])).is_ok());
    }
    let out = s.aws_schedule(req("f", 0), 10);
    assert!(matches!(out, ScheduleOutcome::Reused { vm_id: 5 }));
    let out2 = s.aws_schedule(req("f", 0), 11);
    assert!(matches!(out2, ScheduleOutcome::Reused { vm_id: 4 }));
    assert_eq!(s.check_running(), 2);
    assert_eq!(s.idle_functions[0][0].len(), 1);
}

#[test]
fn eviction_scans_catalog_order_first_fit() {
    // Both parked workers are big enough; the victim comes from the
    // function that stands first in the catalog.
    let mut s = scheduler(vec![func("a", 200, 1, 1), func("b", 200, 1, 1), func("c", 200, 1, 1)], 400);
    s.aws_schedule(req("a", 0), 1);
    s.aws_schedule(req("b", 0), 2);
    assert!(s.process_response((3, 0, "a".to_string(), vec![])).is_ok());
    assert!(s.process_response((4, 0, "b".to_string(), vec![])).is_ok());
    let out = s.aws_schedule(req("c", 0), 3);
    match out {
        ScheduleOutcome::BootedAfterEviction { victim_id, .. } => assert_eq!(victim_id, 3),
        _ => panic!("expected an eviction"),
    }
}

#[test]
fn own_same_user_idle_worker_is_never_evicted_but_another_users_is() {
    // The requesting function's own idle worker under another user id may
    // be evicted; under the same user id it would have been reused.
    let mut s = scheduler(vec![func("f", 256, 2, 2)], 256);
    s.aws_schedule(req("f", 1), 1);
    assert!(s.process_response((3, 1, "f".to_string(), vec![])).is_ok());
    assert_eq!(s.idle_functions[0][1].len(), 1);
    let out = s.aws_schedule(req("f", 0), 2);
    match out {
        ScheduleOutcome::BootedAfterEviction { victim_id, plan } => {
            assert_eq!(victim_id, 3);
            assert_eq!(plan.user_id, 0);
        },
        _ => panic!("expected an eviction"),
    }
    assert_eq!(s.idle_functions[0][1].len(), 0);
    assert_eq!(s.running_functions[0][0].len(), 1);
}

#[test]
fn send_failure_parks_worker_as_idle_and_counts_drop() {
    let mut s = scheduler(vec![func("f", 256, 2, 1)], 512);
    s.aws_schedule(req("f", 0), 1);
    assert!(s.send_failed(&req("f", 0), 3).is_ok());
    assert_eq!(s.running_functions[0][0].len(), 0);
    assert_eq!(s.idle_functions[0][0].len(), 1);
    assert_eq!(s.get_stat().num_drop, 1);
    // A later request finds the parked worker again.
    let out = s.aws_schedule(req("f", 0), 2);
    assert!(matches!(out, ScheduleOutcome::Reused { vm_id: 3 }));
    // Reporting a send failure twice for the same worker is rejected.
    assert!(s.send_failed(&req("f", 0), 99).is_err());
}

#[test]
fn boot_failure_rolls_back_ledger_and_pools() {
    let mut s = scheduler(vec![func("f", 256, 2, 1)], 512);
    s.aws_schedule(req("f", 0), 1);
    assert_eq!(s.get_cluster_info().total_free_mem, 256);
    assert!(s.boot_failed(&req("f", 0), 3).is_ok());
    assert_eq!(s.get_cluster_info().total_free_mem, 512);
    assert_eq!(s.running_functions[0][0].len(), 0);
    assert_eq!(s.idle_functions[0][0].len(), 0);
    assert_eq!(s.get_stat().num_drop, 1);
    assert!(s.boot_failed(&req("f", 0), 3).is_err());
}

#[test]
fn concurrency_limit_zero_drops_immediately() {
    let mut s = scheduler(vec![func("f", 64, 0, 1)], 512);
    let out = s.aws_schedule(req("f", 0), 1);
    assert!(matches!(out, ScheduleOutcome::DroppedConcurrency));
    assert_eq!(s.get_stat().num_drop, 1);
}

#[test]
fn kill_all_empties_both_pools() {
    let mut s = scheduler(vec![func("f", 100, 4, 1), func("g", 100, 4, 1)], 1000);
    s.aws_schedule(req("f", 0), 1);
    s.aws_schedule(req("f", 0), 2);
    s.aws_schedule(req("g", 0), 3);
    assert!(s.process_response((3, 0, "f".to_string(), vec![])).is_ok());
    assert_eq!(s.check_running(), 2);
    s.kill_all();
    assert_eq!(s.check_running(), 0);
    assert_eq!(s.idle_functions[0][0].len(), 0);
    assert_eq!(s.running_functions[0][0].len(), 0);
    assert_eq!(s.running_functions[1][0].len(), 0);
}

#[test]
fn boot_plan_carries_derived_resources_and_paths() {
    let mut s = scheduler(vec![func("f", 256, 1, 1)], 512);
    let out = s.aws_schedule(req("f", 0), 77);
    match out {
        ScheduleOutcome::Booted { plan } => {
            assert_eq!(plan.vm_id, 3);
            assert_eq!(plan.instance_id, "f");
            assert_eq!(plan.kernel, "kernel.bin");
            assert_eq!(plan.rootfs, "rt/f-rt.img");
            assert_eq!(plan.appfs, "app/f-app.img");
            assert_eq!(plan.cmd_line, "console=none");
            // 256 MB in 128 MB slices, 64 CPU shares each.
            assert_eq!(plan.cpu_share, 128);
            // ceil(256 / 1024) with the default hyperthread slice.
            assert_eq!(plan.vcpu_count, 1);
            assert_eq!(plan.mem_size_mib, 256);
            assert_eq!(plan.load_dir, None);
        },
        _ => panic!("expected a boot"),
    }
    let stat = s.get_stat();
    let boots: &Vec<u64> = stat.boot_timestamp.get(3).unwrap();
    assert_eq!(boots.as_slice(), &[77]);
    assert_eq!(stat.vm_mem_size.get(3), Some(256));
}

#[test]
fn worker_ids_are_monotonic_and_never_reused() {
    let mut s = scheduler(vec![func("f", 100, 5, 1)], 1000);
    s.aws_schedule(req("f", 0), 1);
    s.aws_schedule(req("f", 0), 2);
    assert!(s.process_response((4, 0, "f".to_string(), vec![])).is_ok());
    // The parked worker 4 is reused; the next boot takes a fresh id.
    let out = s.aws_schedule(req("f", 0), 3);
    assert!(matches!(out, ScheduleOutcome::Reused { vm_id: 4 }));
    let out2 = s.aws_schedule(req("f", 0), 4);
    match out2 {
        ScheduleOutcome::Booted { plan } => assert_eq!(plan.vm_id, 5),
        _ => panic!("expected a boot"),
    }
    assert_eq!(s.vm_id_counter, 6);
}

#[test]
fn free_memory_never_exceeds_total_across_operations() {
    let mut s = scheduler(vec![func("a", 200, 2, 1), func("b", 300, 2, 1)], 512);
    let total = s.get_cluster_info().total_mem;
    let mut check = |s: &Inner| {
        let c = s.get_cluster_info();
        assert!(c.total_free_mem <= total);
    };
    s.aws_schedule(req("a", 0), 1);
    check(&s);
    s.aws_schedule(req("b", 0), 2);
    check(&s);
    assert!(s.process_response((3, 0, "a".to_string(), vec![])).is_ok());
    check(&s);
    s.aws_schedule(req("a", 0), 3);
    check(&s);
    s.aws_schedule(req("b", 0), 4);
    check(&s);
    s.kill_all();
    check(&s);
}

#[test]
fn a_worker_is_in_exactly_one_pool_or_in_neither() {
    let mut s = scheduler(vec![func("f", 100, 3, 1)], 1000);
    let in_idle = |s: &Inner, id: u32| s.idle_functions[0][0].iter().filter(|v| v.id == id).count();
    let in_running =
        |s: &Inner, id: u32| s.running_functions[0][0].iter().filter(|v| v.id == id).count();

    s.aws_schedule(req("f", 0), 1);
    assert_eq!((in_idle(&s, 3), in_running(&s, 3)), (0, 1));
    assert!(s.process_response((3, 0, "f".to_string(), vec![])).is_ok());
    assert_eq!((in_idle(&s, 3), in_running(&s, 3)), (1, 0));
    s.aws_schedule(req("f", 0), 2);
    assert_eq!((in_idle(&s, 3), in_running(&s, 3)), (0, 1));
    s.kill_all();
    assert_eq!((in_idle(&s, 3), in_running(&s, 3)), (0, 0));
}

#[test]
fn resource_derivation_rounds_vcpus_up() {
    // With a probed 4-CPU, 4096 MB machine the per-hyperthread memory
    // slice is 1024 MB; 1500 MB of function memory needs 2 vCPUs and
    // 11 full 128 MB slices of CPU share.
    let mut catalog = Configuration::new("rt".to_string(), "app".to_string());
    catalog.insert(func("f", 1500, 1, 1));
    let mut s = Inner::new(
        catalog,
        0,
        "cl".to_string(),
        "k".to_string(),
        false,
        false,
        4,
        4096,
        true,
    );
    assert_eq!(s.one_hyperthread_mem_size, 1024);
    match s.aws_schedule(req("f", 0), 1) {
        ScheduleOutcome::Booted { plan } => {
            assert_eq!(plan.vcpu_count, 2);
            assert_eq!(plan.cpu_share, 704);
        },
        _ => panic!("expected a boot"),
    }
}
