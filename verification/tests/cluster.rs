use firerunner::cluster::mem_total_from_line;
use firerunner::cluster::usable_mem_mb;
use firerunner::cluster::Cluster;

#[test]
fn new_single_machine_cluster() {
    let c = Cluster::new(4, 1024);
    assert_eq!(c.num_hosts, 1);
    assert_eq!(c.host_list.len(), 1);
    assert_eq!(c.total_cpu, 4);
    assert_eq!(c.total_mem, 1024);
    assert_eq!(c.total_free_cpu, 4);
    assert_eq!(c.total_free_mem, 1024);
    assert_eq!(c.host_list[0].total_mem, 1024);
    assert_eq!(c.host_list[0].free_mem, 1024);
}

#[test]
fn find_free_machine_hit_and_miss() {
    let c = Cluster::new(2, 512);
    let hit = c.find_free_machine(512);
    assert!(hit.is_some());
    let (id, m) = hit.unwrap();
    assert_eq!(id, 0);
    assert_eq!(m.free_mem, 512);
    assert!(c.find_free_machine(513).is_none());
}

#[test]
fn allocate_and_free_bookkeeping() {
    let mut c = Cluster::new(2, 512);
    c.allocate(0, 200);
    assert_eq!(c.total_free_mem, 312);
    assert_eq!(c.host_list[0].free_mem, 312);
    assert_eq!(c.free_resources(), (2, 312));
    c.allocate(0, 312);
    assert_eq!(c.total_free_mem, 0);
    assert!(c.find_free_machine(1).is_none());
    c.free(0, 512);
    assert_eq!(c.total_free_mem, 512);
    assert_eq!(c.host_list[0].free_mem, 512);
}

#[test]
fn free_resources_reports_cpu_and_mem() {
    let c = Cluster::new(8, 2048);
    assert_eq!(c.free_resources(), (8, 2048));
}

#[test]
fn mem_total_line_parses_the_kernel_format() {
    assert_eq!(mem_total_from_line(b"MemTotal:       16316620 kB"), Some(16316620));
    assert_eq!(mem_total_from_line(b"MemTotal: 1 kB"), Some(1));
    assert_eq!(mem_total_from_line(b"MemTotal:2048"), Some(2048));
    assert_eq!(mem_total_from_line(b"MemFree:        12345678 kB"), None);
    assert_eq!(mem_total_from_line(b"MemTotal:  kB"), None);
    assert_eq!(mem_total_from_line(b"MemTotal:"), None);
    assert_eq!(mem_total_from_line(b""), None);
    assert_eq!(
        mem_total_from_line(b"MemTotal: 99999999999999999999999999 kB"),
        None,
    );
}

#[test]
fn usable_mem_subtracts_the_host_reserve() {
    assert_eq!(usable_mem_mb(16316620), 11838);
    assert_eq!(usable_mem_mb(4096 * 1024), 0);
}
