use firerunner::metrics::Metrics;

#[test]
fn counters_accumulate() {
    let mut m = Metrics::new();
    assert_eq!(m.num_drop, 0);
    m.drop_req(1);
    m.drop_req(2);
    m.drop_req_resource(1);
    m.drop_req_concurrency(4);
    m.complete_req(5);
    m.evict_vm(1);
    assert_eq!(m.num_drop, 3);
    assert_eq!(m.num_drop_resource, 1);
    assert_eq!(m.num_drop_concurrency, 4);
    assert_eq!(m.num_complete, 5);
    assert_eq!(m.num_evict, 1);
}

#[test]
fn boot_timestamps_append_per_worker() {
    let mut m = Metrics::new();
    m.log_boot_timestamp(7, 100);
    m.log_boot_timestamp(9, 200);
    m.log_boot_timestamp(7, 300);
    assert_eq!(m.boot_timestamp.len(), 2);
    let ts7: &Vec<u64> = m.boot_timestamp.get(7).unwrap();
    assert_eq!(ts7.as_slice(), &[100, 300]);
    let ts9: &Vec<u64> = m.boot_timestamp.get(9).unwrap();
    assert_eq!(ts9.as_slice(), &[200]);
    assert!(m.boot_timestamp.get(8).is_none());
}

#[test]
fn mem_size_recorded_once() {
    let mut m = Metrics::new();
    m.log_vm_mem_size(3, 256);
    m.log_vm_mem_size(3, 999);
    assert_eq!(m.vm_mem_size.len(), 1);
    assert_eq!(m.vm_mem_size.get(3), Some(256));
    assert_eq!(m.vm_mem_size.get(4), None);
}

#[test]
fn request_and_eviction_timestamps() {
    let mut m = Metrics::new();
    m.log_request_timestamp(1, 10);
    m.log_request_timestamp(1, 20);
    m.log_eviction_timestamp(2, 30);
    let rr: &Vec<u64> = m.request_response_timestamp.get(1).unwrap();
    assert_eq!(rr.as_slice(), &[10, 20]);
    let ev: &Vec<u64> = m.eviction_timestamp.get(2).unwrap();
    assert_eq!(ev.as_slice(), &[30]);
}

#[test]
fn clone_copies_everything() {
    let mut m = Metrics::new();
    m.drop_req(2);
    m.log_boot_timestamp(5, 42);
    let c = m.clone();
    assert_eq!(c.num_drop, 2);
    let ts: &Vec<u64> = c.boot_timestamp.get(5).unwrap();
    assert_eq!(ts.as_slice(), &[42]);
}
