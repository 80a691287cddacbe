//! Metrics of the scheduler: monotonic counters for completed, dropped and
//! evicted requests, and append-only per-worker logs of boot, eviction and
//! request/response timestamps and of worker memory sizes.  Written from the
//! decision path, read only for reporting; never relied on for decisions.

use vstd::prelude::*;

verus! {

/// Whether some entry of an association list carries key `k`.
pub open spec fn log_contains<V>(log: Seq<(u32, V)>, k: u32) -> bool {
    exists|i: int| 0 <= i < log.len() && (#[trigger] log[i]).0 == k
}

/// The index of the entry with key `k` (unique when keys are unique).
pub open spec fn log_index<V>(log: Seq<(u32, V)>, k: u32) -> int {
    choose|i: int| 0 <= i < log.len() && (#[trigger] log[i]).0 == k
}

/// The value stored under key `k`.
pub open spec fn log_get<V>(log: Seq<(u32, V)>, k: u32) -> V {
    log[log_index(log, k)].1
}

/// The timestamp log after recording `t` for worker `k`: appended to the
/// worker's list, which is created on first use.
pub open spec fn ts_logged(log: Seq<(u32, Seq<u64>)>, k: u32, t: u64) -> Seq<(u32, Seq<u64>)> {
    if log_contains(log, k) {
        log.update(log_index(log, k), (k, log_get(log, k).push(t)))
    } else {
        log.push((k, seq![t]))
    }
}

/// The memory-size log after recording `m` for worker `k`: unchanged if
/// the worker already has a size recorded.
pub open spec fn mem_logged(log: Seq<(u32, usize)>, k: u32, m: usize) -> Seq<(u32, usize)> {
    if log_contains(log, k) {
        log
    } else {
        log.push((k, m))
    }
}

/// An append-only log of timestamp lists keyed by worker id, in first-use
/// order.  Keys are unique, so the log behaves as a map from worker id to
/// the list of timestamps recorded for it.
pub struct TimestampLog {
    pub entries: Vec<(u32, Vec<u64>)>,
}

impl View for TimestampLog {
    type V = Seq<(u32, Seq<u64>)>;

    open spec fn view(&self) -> Seq<(u32, Seq<u64>)> {
        Seq::new(self.entries@.len(), |i: int| (self.entries@[i].0, self.entries@[i].1@))
    }
}

impl TimestampLog {
    /// Keys are unique.
    pub open spec fn wf(&self) -> bool {
        forall|i: int, j: int| 0 <= i < j < self@.len() ==> self@[i].0 != self@[j].0
    }

    /// An empty log.
    pub fn new() -> (log: TimestampLog)
        ensures
            log.wf(),
            log@ == Seq::<(u32, Seq<u64>)>::empty(),
    {
        let log = TimestampLog { entries: Vec::new() };
        proof {
            assert(log@ =~= Seq::<(u32, Seq<u64>)>::empty());
        }
        log
    }

    /// The index of the entry for this worker, if one exists yet.
    fn find(&self, vm_id: u32) -> (r: Option<usize>)
        ensures
            match r {
                Some(i) => i < self@.len() && self@[i as int].0 == vm_id,
                None => !log_contains(self@, vm_id),
            },
    {
        let n = self.entries.len();
        let mut i: usize = 0;
        while i < n
            invariant
                n == self.entries@.len(),
                self@.len() == self.entries@.len(),
                0 <= i <= n,
                forall|j: int| 0 <= j < i ==> (#[trigger] self@[j]).0 != vm_id,
                forall|j: int|
                    0 <= j < self@.len() ==> (#[trigger] self@[j]) == (
                    self.entries@[j].0,
                    self.entries@[j].1@,
                ),
            decreases n - i,
        {
            if self.entries[i].0 == vm_id {
                return Some(i);
            }
            i = i + 1;
        }
        None
    }

    /// Append a timestamp to this worker's list, creating the list on first
    /// use.
    pub fn log(&mut self, vm_id: u32, tsp: u64)
        requires
            old(self).wf(),
        ensures
            final(self).wf(),
            log_contains(old(self)@, vm_id) ==> final(self)@ == old(self)@.update(
                log_index(old(self)@, vm_id),
                (vm_id, log_get(old(self)@, vm_id).push(tsp)),
            ),
            !log_contains(old(self)@, vm_id) ==> final(self)@ == old(self)@.push(
                (vm_id, seq![tsp]),
            ),
    {
        let ghost pre = self@;
        match self.find(vm_id) {
            Some(i) => {
                proof {
                    let j = log_index(pre, vm_id);
                    assert(pre[j].0 == vm_id);
                    assert(j == i);
                }
                self.entries[i].1.push(tsp);
                proof {
                    assert(final(self)@ =~= pre.update(
                        i as int,
                        (vm_id, pre[i as int].1.push(tsp)),
                    ));
                }
            },
            None => {
                let mut ts: Vec<u64> = Vec::new();
                ts.push(tsp);
                self.entries.push((vm_id, ts));
                proof {
                    assert(final(self)@ =~= pre.push((vm_id, seq![tsp])));
                    assert forall|i: int, j: int| 0 <= i < j < self@.len() implies self@[i].0
                        != self@[j].0 by {
                        if j < pre.len() {
                        } else {
                            assert(self@[j].0 == vm_id);
                            assert(!log_contains(pre, vm_id));
                        }
                    }
                }
            },
        }
    }

    /// How many workers have at least one timestamp recorded.
    pub fn len(&self) -> (r: usize)
        ensures
            r == self@.len(),
    {
        self.entries.len()
    }

    /// The timestamps recorded for this worker, if any.
    pub fn get(&self, vm_id: u32) -> (r: Option<&Vec<u64>>)
        requires
            self.wf(),
        ensures
            match r {
                Some(ts) => log_contains(self@, vm_id) && ts@ == log_get(self@, vm_id),
                None => !log_contains(self@, vm_id),
            },
    {
        match self.find(vm_id) {
            Some(i) => {
                proof {
                    let j = log_index(self@, vm_id);
                    assert(self@[j].0 == vm_id);
                    assert(j == i);
                }
                Some(&self.entries[i].1)
            },
            None => None,
        }
    }
}

impl Clone for TimestampLog {
    fn clone(&self) -> (res: Self)
        ensures
            res@ == self@,
            res.wf() == self.wf(),
    {
        let n = self.entries.len();
        let mut entries: Vec<(u32, Vec<u64>)> = Vec::new();
        let mut i: usize = 0;
        while i < n
            invariant
                n == self.entries@.len(),
                0 <= i <= n,
                entries@.len() == i,
                forall|j: int|
                    0 <= j < i ==> (#[trigger] entries@[j]).0 == self.entries@[j].0
                        && entries@[j].1@ == self.entries@[j].1@,
            decreases n - i,
        {
            let (k, ts) = &self.entries[i];
            let mut ts2: Vec<u64> = Vec::new();
            let m = ts.len();
            let mut p: usize = 0;
            while p < m
                invariant
                    m == ts@.len(),
                    0 <= p <= m,
                    ts2@.len() == p,
                    forall|q: int| 0 <= q < p ==> ts2@[q] == ts@[q],
                decreases m - p,
            {
                ts2.push(ts[p]);
                p = p + 1;
            }
            proof {
                assert(ts2@ =~= ts@);
            }
            entries.push((*k, ts2));
            i = i + 1;
        }
        let res = TimestampLog { entries };
        proof {
            assert(res@ =~= self@);
        }
        res
    }
}

/// The memory size (MB) each worker was booted with, keyed by worker id.
/// The size is recorded once at boot and never overwritten.
pub struct MemSizeLog {
    pub entries: Vec<(u32, usize)>,
}

impl View for MemSizeLog {
    type V = Seq<(u32, usize)>;

    open spec fn view(&self) -> Seq<(u32, usize)> {
        self.entries@
    }
}

impl MemSizeLog {
    /// Keys are unique.
    pub open spec fn wf(&self) -> bool {
        forall|i: int, j: int| 0 <= i < j < self@.len() ==> self@[i].0 != self@[j].0
    }

    /// An empty log.
    pub fn new() -> (log: MemSizeLog)
        ensures
            log.wf(),
            log@ == Seq::<(u32, usize)>::empty(),
    {
        MemSizeLog { entries: Vec::new() }
    }

    /// The index of the entry for this worker, if one exists.
    fn find(&self, vm_id: u32) -> (r: Option<usize>)
        ensures
            match r {
                Some(i) => i < self@.len() && self@[i as int].0 == vm_id,
                None => !log_contains(self@, vm_id),
            },
    {
        let n = self.entries.len();
        let mut i: usize = 0;
        while i < n
            invariant
                n == self.entries@.len(),
                0 <= i <= n,
                forall|j: int| 0 <= j < i ==> (#[trigger] self@[j]).0 != vm_id,
            decreases n - i,
        {
            if self.entries[i].0 == vm_id {
                return Some(i);
            }
            i = i + 1;
        }
        None
    }

    /// Record this worker's memory size, unless one is already recorded.
    pub fn log_once(&mut self, vm_id: u32, mem: usize)
        requires
            old(self).wf(),
        ensures
            final(self).wf(),
            log_contains(old(self)@, vm_id) ==> final(self)@ == old(self)@,
            !log_contains(old(self)@, vm_id) ==> final(self)@ == old(self)@.push((vm_id, mem)),
    {
        match self.find(vm_id) {
            Some(_) => {},
            None => {
                self.entries.push((vm_id, mem));
            },
        }
    }

    /// How many workers have a memory size recorded.
    pub fn len(&self) -> (r: usize)
        ensures
            r == self@.len(),
    {
        self.entries.len()
    }

    /// The memory size recorded for this worker, if any.
    pub fn get(&self, vm_id: u32) -> (r: Option<usize>)
        requires
            self.wf(),
        ensures
            match r {
                Some(mem) => log_contains(self@, vm_id) && mem == log_get(self@, vm_id),
                None => !log_contains(self@, vm_id),
            },
    {
        match self.find(vm_id) {
            Some(i) => {
                proof {
                    let j = log_index(self@, vm_id);
                    assert(self@[j].0 == vm_id);
                    assert(j == i);
                }
                Some(self.entries[i].1)
            },
            None => None,
        }
    }
}

impl Clone for MemSizeLog {
    fn clone(&self) -> (res: Self)
        ensures
            res@ == self@,
    {
        let n = self.entries.len();
        let mut entries: Vec<(u32, usize)> = Vec::new();
        let mut i: usize = 0;
        while i < n
            invariant
                n == self.entries@.len(),
                0 <= i <= n,
                entries@.len() == i,
                forall|j: int| 0 <= j < i ==> entries@[j] == self.entries@[j],
            decreases n - i,
        {
            entries.push(self.entries[i]);
            i = i + 1;
        }
        let res = MemSizeLog { entries };
        proof {
            assert(res@ =~= self@);
        }
        res
    }
}

/// The abstract value of a `Metrics` record: the counters and the logs'
/// views.
#[verifier::ext_equal]
pub ghost struct MetricsView {
    pub num_drop: u32,
    pub num_drop_resource: u32,
    pub num_drop_concurrency: u32,
    pub num_complete: u32,
    pub num_evict: u32,
    pub vm_mem_size: Seq<(u32, usize)>,
    pub boot_timestamp: Seq<(u32, Seq<u64>)>,
    pub eviction_timestamp: Seq<(u32, Seq<u64>)>,
    pub request_response_timestamp: Seq<(u32, Seq<u64>)>,
}

/// The value of a fresh metrics record: all counters zero, all logs
/// empty.
pub open spec fn empty_metrics_view() -> MetricsView {
    MetricsView {
        num_drop: 0,
        num_drop_resource: 0,
        num_drop_concurrency: 0,
        num_complete: 0,
        num_evict: 0,
        vm_mem_size: Seq::empty(),
        boot_timestamp: Seq::empty(),
        eviction_timestamp: Seq::empty(),
        request_response_timestamp: Seq::empty(),
    }
}

/// The metrics record itself.
pub struct Metrics {
    pub num_drop: u32,
    pub num_drop_resource: u32,
    pub num_drop_concurrency: u32,
    pub num_complete: u32,
    pub num_evict: u32,
    pub vm_mem_size: MemSizeLog,
    pub boot_timestamp: TimestampLog,
    pub eviction_timestamp: TimestampLog,
    pub request_response_timestamp: TimestampLog,
}

impl View for Metrics {
    type V = MetricsView;

    open spec fn view(&self) -> MetricsView {
        MetricsView {
            num_drop: self.num_drop,
            num_drop_resource: self.num_drop_resource,
            num_drop_concurrency: self.num_drop_concurrency,
            num_complete: self.num_complete,
            num_evict: self.num_evict,
            vm_mem_size: self.vm_mem_size@,
            boot_timestamp: self.boot_timestamp@,
            eviction_timestamp: self.eviction_timestamp@,
            request_response_timestamp: self.request_response_timestamp@,
        }
    }
}

impl Metrics {
    /// All logs have unique keys.
    pub open spec fn wf(&self) -> bool {
        &&& self.vm_mem_size.wf()
        &&& self.boot_timestamp.wf()
        &&& self.eviction_timestamp.wf()
        &&& self.request_response_timestamp.wf()
    }

    /// A fresh record: all counters zero, all logs empty.
    pub fn new() -> (m: Metrics)
        ensures
            m.wf(),
            m@ == empty_metrics_view(),
    {
        Metrics {
            num_drop: 0,
            num_drop_resource: 0,
            num_drop_concurrency: 0,
            num_complete: 0,
            num_evict: 0,
            vm_mem_size: MemSizeLog::new(),
            boot_timestamp: TimestampLog::new(),
            eviction_timestamp: TimestampLog::new(),
            request_response_timestamp: TimestampLog::new(),
        }
    }

    /// Count `num` more dropped requests.
    pub fn drop_req(&mut self, num: u32)
        requires
            old(self).num_drop + num <= u32::MAX,
        ensures
            final(self)@ == (MetricsView {
                num_drop: (old(self).num_drop + num) as u32,
                ..old(self)@
            }),
            final(self).wf() == old(self).wf(),
    {
        self.num_drop = self.num_drop + num;
    }

    /// Count `num` more requests dropped for lack of resources.
    pub fn drop_req_resource(&mut self, num: u32)
        requires
            old(self).num_drop_resource + num <= u32::MAX,
        ensures
            final(self)@ == (MetricsView {
                num_drop_resource: (old(self).num_drop_resource + num) as u32,
                ..old(self)@
            }),
            final(self).wf() == old(self).wf(),
    {
        self.num_drop_resource = self.num_drop_resource + num;
    }

    /// Count `num` more requests dropped by the concurrency limit.
    pub fn drop_req_concurrency(&mut self, num: u32)
        requires
            old(self).num_drop_concurrency + num <= u32::MAX,
        ensures
            final(self)@ == (MetricsView {
                num_drop_concurrency: (old(self).num_drop_concurrency + num) as u32,
                ..old(self)@
            }),
            final(self).wf() == old(self).wf(),
    {
        self.num_drop_concurrency = self.num_drop_concurrency + num;
    }

    /// Count `num` more completed requests.
    pub fn complete_req(&mut self, num: u32)
        requires
            old(self).num_complete + num <= u32::MAX,
        ensures
            final(self)@ == (MetricsView {
                num_complete: (old(self).num_complete + num) as u32,
                ..old(self)@
            }),
            final(self).wf() == old(self).wf(),
    {
        self.num_complete = self.num_complete + num;
    }

    /// Count `num` more evicted workers.
    pub fn evict_vm(&mut self, num: u32)
        requires
            old(self).num_evict + num <= u32::MAX,
        ensures
            final(self)@ == (MetricsView {
                num_evict: (old(self).num_evict + num) as u32,
                ..old(self)@
            }),
            final(self).wf() == old(self).wf(),
    {
        self.num_evict = self.num_evict + num;
    }

    /// Record a boot timestamp for this worker.
    pub fn log_boot_timestamp(&mut self, vm_id: u32, tsp: u64)
        requires
            old(self).wf(),
        ensures
            final(self).wf(),
            final(self)@ == (MetricsView {
                boot_timestamp: final(self)@.boot_timestamp,
                ..old(self)@
            }),
            log_contains(old(self)@.boot_timestamp, vm_id) ==> final(self)@.boot_timestamp == old(
                self,
            )@.boot_timestamp.update(
                log_index(old(self)@.boot_timestamp, vm_id),
                (vm_id, log_get(old(self)@.boot_timestamp, vm_id).push(tsp)),
            ),
            !log_contains(old(self)@.boot_timestamp, vm_id) ==> final(self)@.boot_timestamp == old(
                self,
            )@.boot_timestamp.push((vm_id, seq![tsp])),
    {
        self.boot_timestamp.log(vm_id, tsp);
    }

    /// Record the memory size this worker was booted with.
    pub fn log_vm_mem_size(&mut self, vm_id: u32, mem: usize)
        requires
            old(self).wf(),
        ensures
            final(self).wf(),
            final(self)@ == (MetricsView { vm_mem_size: final(self)@.vm_mem_size, ..old(self)@ }),
            log_contains(old(self)@.vm_mem_size, vm_id) ==> final(self)@.vm_mem_size == old(
                self,
            )@.vm_mem_size,
            !log_contains(old(self)@.vm_mem_size, vm_id) ==> final(self)@.vm_mem_size == old(
                self,
            )@.vm_mem_size.push((vm_id, mem)),
    {
        self.vm_mem_size.log_once(vm_id, mem);
    }

    /// Record a request or response timestamp for this worker.
    pub fn log_request_timestamp(&mut self, vm_id: u32, tsp: u64)
        requires
            old(self).wf(),
        ensures
            final(self).wf(),
            final(self)@ == (MetricsView {
                request_response_timestamp: final(self)@.request_response_timestamp,
                ..old(self)@
            }),
            log_contains(old(self)@.request_response_timestamp, vm_id) ==> final(self)@.request_response_timestamp == old(self)@.request_response_timestamp.update(
                log_index(old(self)@.request_response_timestamp, vm_id),
                (vm_id, log_get(old(self)@.request_response_timestamp, vm_id).push(tsp)),
            ),
            !log_contains(old(self)@.request_response_timestamp, vm_id) ==> final(self)@.request_response_timestamp == old(self)@.request_response_timestamp.push(
                (vm_id, seq![tsp]),
            ),
    {
        self.request_response_timestamp.log(vm_id, tsp);
    }

    /// Record an eviction timestamp for this worker.
    pub fn log_eviction_timestamp(&mut self, vm_id: u32, tsp: u64)
        requires
            old(self).wf(),
        ensures
            final(self).wf(),
            final(self)@ == (MetricsView {
                eviction_timestamp: final(self)@.eviction_timestamp,
                ..old(self)@
            }),
            log_contains(old(self)@.eviction_timestamp, vm_id) ==> final(self)@.eviction_timestamp
                == old(self)@.eviction_timestamp.update(
                log_index(old(self)@.eviction_timestamp, vm_id),
                (vm_id, log_get(old(self)@.eviction_timestamp, vm_id).push(tsp)),
            ),
            !log_contains(old(self)@.eviction_timestamp, vm_id) ==> final(self)@.eviction_timestamp == old(self)@.eviction_timestamp.push((vm_id, seq![tsp])),
    {
        self.eviction_timestamp.log(vm_id, tsp);
    }
}

impl Clone for Metrics {
    fn clone(&self) -> (res: Self)
        ensures
            res@ == self@,
            res.wf() == self.wf(),
    {
        Metrics {
            num_drop: self.num_drop,
            num_drop_resource: self.num_drop_resource,
            num_drop_concurrency: self.num_drop_concurrency,
            num_complete: self.num_complete,
            num_evict: self.num_evict,
            vm_mem_size: self.vm_mem_size.clone(),
            boot_timestamp: self.boot_timestamp.clone(),
            eviction_timestamp: self.eviction_timestamp.clone(),
            request_response_timestamp: self.request_response_timestamp.clone(),
        }
    }
}

} // verus!
