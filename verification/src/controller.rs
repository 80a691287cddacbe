//! The scheduler core.  `Inner` owns the cluster resource ledger, the
//! idle and running worker pools, the function catalog, the worker-id
//! counter and the metrics, and makes every placement decision: reuse an
//! idle worker, boot a new one, evict another function's idle worker, or
//! drop the request.
//!
//! `Inner` is pure state and decisions.  The surrounding process wraps it
//! in a mutex, performs the outside work a decision calls for (forwarding
//! a request on a worker's channel, booting or killing a worker process)
//! and reports outcomes back through `send_failed`, `boot_failed` and
//! `process_response`.  Timestamps are taken by the caller and handed in
//! as plain values.

use vstd::prelude::*;
use crate::cluster::Cluster;
use crate::cluster::MachineInfo;
use crate::config::Configuration;
use crate::config::FunctionConfig;
use crate::metrics::Metrics;
use crate::metrics::MetricsView;
use crate::metrics::empty_metrics_view;
use crate::metrics::ts_logged;
use crate::metrics::mem_logged;
use crate::pool::Vm;
use crate::pool::pool_view;
use crate::pool::lists_view;
use crate::pool::seq_count_id;
use crate::pool::pool_count_id;
use crate::pool::lists_size;
use crate::pool::pool_size;
use crate::pool::pool_mem;
use crate::request::Request;

verus! {

/// Worker memory is granted in slices of this many MB ...
pub const VM_SIZE_INCREMENT: usize = 128;

/// ... and each slice comes with this many CPU shares, so that a worker's
/// CPU weight is proportional to its memory size.
pub const CPU_SHARE_INCREMENT: usize = 64;

/// Everything the process around the scheduler needs in order to boot the
/// worker that a decision called for: the new worker's id and channel
/// registration keys, and the configuration of the underlying micro-VM.
pub struct BootPlan {
    pub vm_id: u32,
    pub function: String,
    pub user_id: u32,
    pub instance_id: String,
    pub kernel: String,
    pub rootfs: String,
    pub appfs: String,
    pub cmd_line: String,
    pub seccomp_level: u32,
    pub cpu_share: u64,
    pub vcpu_count: u64,
    pub mem_size_mib: usize,
    pub load_dir: Option<String>,
    pub debug: bool,
}

/// What `aws_schedule` decided, and what the caller still has to do:
/// forward the request to the chosen worker and, for `BootedAfterEviction`,
/// kill the victim's process first.
pub enum ScheduleOutcome {
    /// An idle worker was reused; forward the request to it.
    Reused { vm_id: u32 },
    /// Free resources were claimed and a new worker registered; boot it and
    /// forward the request.
    Booted { plan: BootPlan },
    /// An idle worker of another function (or tenant) was evicted to make
    /// room; kill its process, then boot the new worker and forward the
    /// request.
    BootedAfterEviction { victim_id: u32, plan: BootPlan },
    /// The request was dropped: the function is at its concurrency limit.
    DroppedConcurrency,
    /// The request was dropped: no free resources and no eviction victim.
    DroppedResource,
}

/// A lifecycle invariant violation reported by the scheduler.  These are
/// programming errors, not operational errors; the caller must surface
/// them loudly (abort), since continuing would corrupt the pool
/// invariants every future decision depends on.
#[derive(Clone, Copy, Debug, PartialEq, Eq, Structural)]
pub enum SchedulerError {
    /// A completion (or send failure) named a worker that is not running
    /// under the given function and user: a duplicate completion or a
    /// bookkeeping bug.
    NotRunning,
}

/// Whether some worker in the list carries this id.
pub open spec fn has_vm_id(s: Seq<Vm>, id: u32) -> bool {
    exists|i: int| 0 <= i < s.len() && (#[trigger] s[i]).id == id
}

/// The position of the worker with this id (unique within a well-formed
/// scheduler).
pub open spec fn idx_of_id(s: Seq<Vm>, id: u32) -> int {
    choose|i: int| 0 <= i < s.len() && (#[trigger] s[i]).id == id
}

/// The scheduler state: ledger, pools, catalog, id counter, metrics, and
/// the boot parameters shared by all workers.
pub struct Inner {
    pub cluster: Cluster,
    pub running_functions: Vec<Vec<Vec<Vm>>>,
    pub idle_functions: Vec<Vec<Vec<Vm>>>,
    pub vm_id_counter: usize,
    pub function_configs: Configuration,
    pub seccomp_level: u32,
    pub cmd_line: String,
    pub kernel: String,
    pub stat: Metrics,
    pub debug: bool,
    pub snapshot: bool,
    pub one_hyperthread_mem_size: usize,
}

impl Inner {
    /// The catalog's records.
    pub open spec fn configs(&self) -> Seq<FunctionConfig> {
        self.function_configs.configs@
    }

    /// The abstract idle pool structure: function index, user id, list.
    pub open spec fn idle(&self) -> Seq<Seq<Seq<Vm>>> {
        pool_view(self.idle_functions@)
    }

    /// The abstract running pool structure.
    pub open spec fn running(&self) -> Seq<Seq<Seq<Vm>>> {
        pool_view(self.running_functions@)
    }

    /// The catalog index of a function name.
    pub open spec fn fidx(&self, name: Seq<char>) -> int {
        self.function_configs.index_of(name)
    }

    /// The idle workers of function f and user u, most recently parked
    /// last.
    pub open spec fn idle_at(&self, f: int, u: int) -> Seq<Vm> {
        self.idle()[f][u]
    }

    /// The running workers of function f and user u.
    pub open spec fn running_at(&self, f: int, u: int) -> Seq<Vm> {
        self.running()[f][u]
    }

    /// How often a worker id occurs across both pool structures.
    pub open spec fn count_id(&self, id: u32) -> int {
        pool_count_id(self.idle(), id) + pool_count_id(self.running(), id)
    }

    /// The ledger memory the pooled workers account for.
    pub open spec fn pooled_mem(&self) -> int {
        pool_mem(self.idle(), self.configs()) + pool_mem(self.running(), self.configs())
    }

    /// How many workers are pooled in total.
    pub open spec fn pooled_size(&self) -> int {
        pool_size(self.idle()) + pool_size(self.running())
    }

    /// Both pool structures are indexed exactly like the catalog: one entry
    /// per function, with one list per user of that function.
    pub open spec fn pools_structured(&self) -> bool {
        &&& self.idle().len() == self.configs().len()
        &&& self.running().len() == self.configs().len()
        &&& forall|f: int|
            0 <= f < self.configs().len() ==> (#[trigger] self.idle()[f]).len()
                == self.configs()[f].users
        &&& forall|f: int|
            0 <= f < self.configs().len() ==> (#[trigger] self.running()[f]).len()
                == self.configs()[f].users
    }

    /// A function's idle and running workers together never exceed its
    /// concurrency limit, per user.
    pub open spec fn concurrency_ok(&self) -> bool {
        forall|f: int, u: int|
            #![trigger self.idle_at(f, u), self.running_at(f, u)]
            0 <= f < self.configs().len() && 0 <= u < self.configs()[f].users ==> self.idle_at(
                f,
                u,
            ).len() + self.running_at(f, u).len() <= self.configs()[f].concurrency_limit
    }

    /// Free ledger memory plus the memory accounted to pooled workers
    /// never exceeds the cluster's capacity.  Free memory shrinks exactly
    /// when a worker is booted and grows exactly when one is evicted.
    pub open spec fn accounting_ok(&self) -> bool {
        self.cluster.total_free_mem + self.pooled_mem() <= self.cluster.total_mem
    }

    /// A worker id occurs at most once across both pool structures: a
    /// worker is never in two pools, nor twice in one.
    pub open spec fn ids_unique(&self) -> bool {
        forall|id: u32| #![trigger self.count_id(id)] self.count_id(id) <= 1
    }

    /// Every pooled worker's id was assigned by the monotonic counter, and
    /// there are no more pooled workers than assigned ids.
    pub open spec fn ids_bounded(&self) -> bool {
        &&& forall|id: u32| #![trigger self.count_id(id)]
            self.count_id(id) > 0 ==> id < self.vm_id_counter
        &&& self.pooled_size() <= self.vm_id_counter
    }

    /// The ledger describes exactly one host, and the aggregate counts
    /// mirror that host's.
    pub open spec fn single_host(&self) -> bool {
        &&& self.cluster.host_list@.len() == 1
        &&& self.cluster.num_hosts == 1
        &&& self.cluster.total_free_mem == self.cluster.host_list@[0].free_mem
        &&& self.cluster.total_mem == self.cluster.host_list@[0].total_mem
    }

    /// The scheduler's invariant: all of the above, a well-formed catalog,
    /// ledger and metrics, and bounds that keep the arithmetic of
    /// scheduling itself exact.
    pub open spec fn wf(&self) -> bool {
        &&& self.function_configs.wf()
        &&& self.cluster.wf()
        &&& self.single_host()
        &&& self.pools_structured()
        &&& self.concurrency_ok()
        &&& self.accounting_ok()
        &&& self.ids_unique()
        &&& self.ids_bounded()
        &&& self.vm_id_counter <= u32::MAX
        &&& self.stat.wf()
        &&& 1 <= self.one_hyperthread_mem_size
        &&& self.cluster.total_mem + self.one_hyperthread_mem_size <= usize::MAX
    }

    /// A fresh scheduler over the given catalog: a single-host ledger with
    /// everything free, one empty idle and running list per function and
    /// user, the id counter at its initial value, and zeroed metrics.
    ///
    /// `total_cpu` and `total_mem` are the host's capacity, as probed or
    /// configured by the caller; `probed` says which, and decides whether
    /// the per-hyperthread memory slice is derived from the machine
    /// (`total_mem / total_cpu`) or left at its default.
    pub fn new(
        function_configs: Configuration,
        seccomp_level: u32,
        cmd_line: String,
        kernel: String,
        debug: bool,
        snapshot: bool,
        total_cpu: u64,
        total_mem: usize,
        probed: bool,
    ) -> (inner: Inner)
        requires
            function_configs.wf(),
            1 <= total_cpu,
            total_cpu <= usize::MAX as u64,
            total_mem <= usize::MAX / 2,
            probed ==> total_cpu <= total_mem as u64,
        ensures
            inner.wf(),
            inner.function_configs == function_configs,
            inner.cluster.total_cpu == total_cpu,
            inner.cluster.total_mem == total_mem,
            inner.cluster.total_free_cpu == total_cpu,
            inner.cluster.total_free_mem == total_mem,
            inner.vm_id_counter == 3,
            inner.seccomp_level == seccomp_level,
            inner.cmd_line == cmd_line,
            inner.kernel == kernel,
            inner.debug == debug,
            inner.snapshot == snapshot,
            probed ==> inner.one_hyperthread_mem_size == total_mem as int / total_cpu as int,
            !probed ==> inner.one_hyperthread_mem_size == 1024,
            inner.idle().len() == inner.configs().len(),
            inner.running().len() == inner.configs().len(),
            forall|f: int, u: int|
                #![trigger inner.idle_at(f, u)]
                0 <= f < inner.configs().len() && 0 <= u < inner.configs()[f].users
                    ==> inner.idle_at(f, u).len() == 0,
            forall|f: int, u: int|
                #![trigger inner.running_at(f, u)]
                0 <= f < inner.configs().len() && 0 <= u < inner.configs()[f].users
                    ==> inner.running_at(f, u).len() == 0,
            inner.stat@ == empty_metrics_view(),
            inner.pooled_size() == 0,
            inner.pooled_mem() == 0,
    {
        let n = function_configs.num_func();
        let mut idle_functions: Vec<Vec<Vec<Vm>>> = Vec::new();
        let mut running_functions: Vec<Vec<Vec<Vm>>> = Vec::new();
        let mut f: usize = 0;
        while f < n
            invariant
                n == function_configs.configs@.len(),
                0 <= f <= n,
                idle_functions@.len() == f,
                running_functions@.len() == f,
                forall|i: int|
                    0 <= i < f ==> (#[trigger] idle_functions@[i])@.len()
                        == function_configs.configs@[i].users,
                forall|i: int|
                    0 <= i < f ==> (#[trigger] running_functions@[i])@.len()
                        == function_configs.configs@[i].users,
                forall|i: int, u: int|
                    0 <= i < f && 0 <= u < idle_functions@[i]@.len() ==> (
                    #[trigger] idle_functions@[i]@[u])@.len() == 0,
                forall|i: int, u: int|
                    0 <= i < f && 0 <= u < running_functions@[i]@.len() ==> (
                    #[trigger] running_functions@[i]@[u])@.len() == 0,
            decreases n - f,
        {
            let num_users = function_configs.configs[f].users;
            let mut user_idle: Vec<Vec<Vm>> = Vec::new();
            let mut user_running: Vec<Vec<Vm>> = Vec::new();
            let mut u: u32 = 0;
            while u < num_users
                invariant
                    0 <= u <= num_users,
                    user_idle@.len() == u,
                    user_running@.len() == u,
                    forall|j: int| 0 <= j < u ==> (#[trigger] user_idle@[j])@.len() == 0,
                    forall|j: int| 0 <= j < u ==> (#[trigger] user_running@[j])@.len() == 0,
                decreases num_users - u,
            {
                user_idle.push(Vec::new());
                user_running.push(Vec::new());
                u = u + 1;
            }
            idle_functions.push(user_idle);
            running_functions.push(user_running);
            f = f + 1;
        }

        let my_cluster = Cluster::new(total_cpu, total_mem);
        let one_hyperthread_mem_size: usize = if probed {
            total_mem / (total_cpu as usize)
        } else {
            1024
        };

        let inner = Inner {
            cluster: my_cluster,
            running_functions,
            idle_functions,
            vm_id_counter: 3,
            function_configs,
            seccomp_level,
            cmd_line,
            kernel,
            stat: Metrics::new(),
            debug,
            snapshot,
            one_hyperthread_mem_size,
        };
        proof {
            assert forall|id: u32| #![trigger inner.count_id(id)] inner.count_id(id) == 0 by {
                crate::pool::lemma_pool_all_empty(inner.idle(), inner.configs(), id);
                crate::pool::lemma_pool_all_empty(inner.running(), inner.configs(), id);
            }
            crate::pool::lemma_pool_all_empty(inner.idle(), inner.configs(), 0);
            crate::pool::lemma_pool_all_empty(inner.running(), inner.configs(), 0);
            if probed {
                assert(total_mem as int / total_cpu as int >= 1) by (nonlinear_arith)
                    requires
                        1 <= total_cpu as int <= total_mem as int,
                ;
                assert(total_mem as int / total_cpu as int <= total_mem as int) by (
                nonlinear_arith)
                    requires
                        1 <= total_cpu as int,
                        0 <= total_mem as int,
                ;
            }
        }
        inner
    }

    /// How many workers of function `req.function` and user `req.user_id`
    /// are currently pooled, idle and running together.
    pub fn get_current_concurrency(&self, req: &Request) -> (r: usize)
        requires
            self.wf(),
            self.function_configs.contains_name(req.function@),
            req.user_id < self.configs()[self.fidx(req.function@)].users,
        ensures
            r == self.idle_at(self.fidx(req.function@), req.user_id as int).len() + self.running_at(
                self.fidx(req.function@),
                req.user_id as int,
            ).len(),
    {
        let f = match self.function_configs.find(&req.function) {
            Some(f) => f,
            None => {
                return unreached();
            },
        };
        proof {
            let j = self.fidx(req.function@);
            assert(self.configs()[j].name@ == req.function@);
            assert(j == f);
        }
        let u = req.user_id as usize;
        proof {
            assert(self.running()[f as int] == lists_view(self.running_functions@[f as int]@));
            assert(self.idle()[f as int] == lists_view(self.idle_functions@[f as int]@));
            assert(self.running_at(f as int, u as int) == self.running_functions@[f as int]@[u as int]@);
            assert(self.idle_at(f as int, u as int) == self.idle_functions@[f as int]@[u as int]@);
        }
        self.running_functions[f][u].len() + self.idle_functions[f][u].len()
    }

    /// Whether this request must be dropped because its function and user
    /// are at the configured concurrency limit.
    pub fn check_concurrency(&self, req: &Request) -> (r: bool)
        requires
            self.wf(),
            self.function_configs.contains_name(req.function@),
            req.user_id < self.configs()[self.fidx(req.function@)].users,
        ensures
            r == (self.idle_at(self.fidx(req.function@), req.user_id as int).len()
                + self.running_at(self.fidx(req.function@), req.user_id as int).len()
                >= self.configs()[self.fidx(req.function@)].concurrency_limit),
    {
        let curr_concur = self.get_current_concurrency(req);
        let config = match self.function_configs.get(&req.function) {
            Some(c) => c,
            None => {
                return unreached();
            },
        };
        curr_concur >= config.concurrency_limit
    }

    /// The CPU shares granted to a worker of `mem` MB: proportional to its
    /// memory, in slices of `VM_SIZE_INCREMENT`.
    pub fn cpu_share(&self, mem: usize) -> (r: u64)
        ensures
            r == (mem as int / VM_SIZE_INCREMENT as int) * CPU_SHARE_INCREMENT as int,
    {
        ((mem / VM_SIZE_INCREMENT) * CPU_SHARE_INCREMENT) as u64
    }

    /// The vCPU count granted to a worker of `mem` MB: the memory divided
    /// by the per-hyperthread memory slice, rounded up.
    pub fn vcpu_count(&self, mem: usize) -> (r: u64)
        requires
            self.one_hyperthread_mem_size >= 1,
            mem + self.one_hyperthread_mem_size <= usize::MAX,
        ensures
            r == (mem + self.one_hyperthread_mem_size - 1) as int
                / self.one_hyperthread_mem_size as int,
    {
        let count = (mem + self.one_hyperthread_mem_size - 1) / self.one_hyperthread_mem_size;
        count as u64
    }

    /// How many workers are currently running, over all functions and
    /// users.
    pub fn check_running(&self) -> (r: u64)
        requires
            self.wf(),
        ensures
            r == pool_size(self.running()),
    {
        let n = self.running_functions.len();
        let mut num_running: u64 = 0;
        let mut f: usize = 0;
        proof {
            assert(self.running().subrange(0, 0) =~= Seq::<Seq<Seq<Vm>>>::empty());
            crate::pool::lemma_pool_size_member(self.idle(), -1);
        }
        while f < n
            invariant
                self.wf(),
                n == self.running().len(),
                0 <= f <= n,
                num_running == pool_size(self.running().subrange(0, f as int)),
                pool_size(self.running()) <= u32::MAX,
            decreases n - f,
        {
            let users = self.running_functions[f].len();
            let mut u: usize = 0;
            proof {
                assert(self.running()[f as int].subrange(0, 0) =~= Seq::<Seq<Vm>>::empty());
            }
            while u < users
                invariant
                    self.wf(),
                    n == self.running().len(),
                    0 <= f < n,
                    users == self.running()[f as int].len(),
                    0 <= u <= users,
                    num_running == pool_size(self.running().subrange(0, f as int)) + lists_size(
                        self.running()[f as int].subrange(0, u as int),
                    ),
                    pool_size(self.running()) <= u32::MAX,
                decreases users - u,
            {
                proof {
                    crate::pool::lemma_pool_size_prefix(self.running(), f as int);
                    crate::pool::lemma_pool_size_prefix(self.running(), f as int + 1);
                    crate::pool::lemma_pool_size_prefix_step(self.running(), f as int);
                    crate::pool::lemma_lists_size_prefix(self.running()[f as int], u as int);
                    crate::pool::lemma_lists_size_prefix(self.running()[f as int], u as int + 1);
                    crate::pool::lemma_lists_size_prefix_step(self.running()[f as int], u as int);
                }
                num_running = num_running + self.running_functions[f][u].len() as u64;
                u = u + 1;
            }
            proof {
                assert(self.running()[f as int].subrange(0, users as int) =~= self.running()[f
                    as int]);
                crate::pool::lemma_pool_size_prefix_step(self.running(), f as int);
            }
            f = f + 1;
        }
        proof {
            assert(self.running().subrange(0, n as int) =~= self.running());
        }
        num_running
    }

    /// Acquire an idle worker for this request's function and user, if one
    /// is parked: the most recently idled worker is reused first (the pool
    /// is a stack), favouring warm state.  The worker leaves the idle pool
    /// and is owned by the caller, who either dispatches it with
    /// `send_request` or parks it again.
    pub fn get_idle_vm(&mut self, req: &Request) -> (r: Option<Vm>)
        requires
            old(self).wf(),
        ensures
            final(self).wf(),
            *final(self) == (Inner { idle_functions: final(self).idle_functions, ..*old(self) }),
            match r {
                Some(vm) => {
                    let f = old(self).fidx(req.function@);
                    let u = req.user_id as int;
                    &&& old(self).function_configs.contains_name(req.function@)
                    &&& req.user_id < old(self).configs()[f].users
                    &&& old(self).idle_at(f, u).len() > 0
                    &&& vm == old(self).idle_at(f, u).last()
                    &&& final(self).idle() == old(self).idle().update(
                        f,
                        old(self).idle()[f].update(u, old(self).idle_at(f, u).drop_last()),
                    )
                    &&& final(self).running() == old(self).running()
                    &&& final(self).count_id(vm.id) == 0
                    &&& vm.id < old(self).vm_id_counter
                    &&& final(self).pooled_mem() == old(self).pooled_mem() - old(self).configs()[
                        f
                    ].memory
                    &&& final(self).pooled_size() == old(self).pooled_size() - 1
                },
                None => {
                    &&& *final(self) == *old(self)
                    &&& (!old(self).function_configs.contains_name(req.function@)
                        || req.user_id >= old(self).configs()[old(self).fidx(req.function@)].users
                        || old(self).idle_at(
                        old(self).fidx(req.function@),
                        req.user_id as int,
                    ).len() == 0)
                },
            },
    {
        let f = match self.function_configs.find(&req.function) {
            Some(f) => f,
            None => {
                return None;
            },
        };
        proof {
            let j = self.fidx(req.function@);
            assert(self.configs()[j].name@ == req.function@);
            assert(j == f);
        }
        let u = req.user_id as usize;
        if u >= self.idle_functions[f].len() {
            proof {
                assert(self.idle()[f as int] == lists_view(self.idle_functions@[f as int]@));
            }
            return None;
        }
        proof {
            assert(self.idle()[f as int] == lists_view(self.idle_functions@[f as int]@));
            assert(self.idle_at(f as int, u as int) == self.idle_functions@[f as int]@[u as int]@);
        }
        if self.idle_functions[f][u].len() == 0 {
            return None;
        }
        let ghost pre = *self;
        let vm = pool_pop(&mut self.idle_functions, f, u);
        proof {
            self.lemma_after_pool_pop(pre, f as int, u as int, vm);
        }
        Some(vm)
    }

    /// The well-formedness bookkeeping after popping the last idle worker
    /// of function f, user u.
    proof fn lemma_after_pool_pop(&self, pre: Inner, f: int, u: int, vm: Vm)
        requires
            pre.wf(),
            0 <= f < pre.configs().len(),
            0 <= u < pre.configs()[f].users,
            pre.idle_at(f, u).len() > 0,
            vm == pre.idle_at(f, u).last(),
            self.idle() == pre.idle().update(
                f,
                pre.idle()[f].update(u, pre.idle_at(f, u).drop_last()),
            ),
            *self == (Inner { idle_functions: self.idle_functions, ..pre }),
        ensures
            self.wf(),
            self.count_id(vm.id) == 0,
            vm.id < pre.vm_id_counter,
            self.pooled_mem() == pre.pooled_mem() - pre.configs()[f].memory,
            self.pooled_size() == pre.pooled_size() - 1,
    {
        let p = pre.idle();
        let ol = p[f][u];
        let nl = ol.drop_last();
        crate::pool::lemma_pool_replace(p, pre.configs(), f, u, nl);
        assert(self.running() == pre.running());
        assert(ol =~= nl.push(vm));
        crate::pool::lemma_pool_count_occurrence(p, f, u, ol.len() - 1, vm.id);
        crate::pool::lemma_pool_count_nonneg(pre.running(), vm.id);
        assert(pre.count_id(vm.id) <= 1);
        assert forall|id: u32| #![trigger self.count_id(id)]
            self.count_id(id) == pre.count_id(id) - (if vm.id == id { 1int } else { 0int }) by {
            crate::pool::lemma_seq_count_push(nl, vm, id);
            assert(pool_count_id(self.idle(), id) == pool_count_id(p, id) - seq_count_id(ol, id)
                + seq_count_id(nl, id));
        }
        assert forall|id: u32| #![trigger self.count_id(id)]
            self.count_id(id) <= 1 && (self.count_id(id) > 0 ==> id < self.vm_id_counter) by {
            assert(pre.count_id(id) <= 1);
            assert(pre.count_id(id) > 0 ==> id < pre.vm_id_counter);
            crate::pool::lemma_seq_count_nonneg(nl, id);
            crate::pool::lemma_seq_count_nonneg(ol, id);
        }
        assert(self.count_id(vm.id) == 0);
        assert(vm.id < pre.vm_id_counter);
        let cfgmem = pre.configs()[f].memory as int;
        assert(cfgmem * nl.len() == cfgmem * ol.len() - cfgmem) by (nonlinear_arith)
            requires
                nl.len() == ol.len() - 1,
                cfgmem == pre.configs()[f].memory as int,
        ;
        assert(self.pooled_mem() == pre.pooled_mem() - cfgmem);
        assert forall|f2: int, u2: int|
            #![trigger self.idle_at(f2, u2), self.running_at(f2, u2)]
            0 <= f2 < self.configs().len() && 0 <= u2 < self.configs()[f2].users
                implies self.idle_at(f2, u2).len() + self.running_at(f2, u2).len()
                <= self.configs()[f2].concurrency_limit by {
            assert(pre.idle_at(f2, u2).len() + pre.running_at(f2, u2).len() <= pre.configs()[
                f2
            ].concurrency_limit);
            if f2 == f && u2 == u {
                assert(self.idle_at(f2, u2) == nl);
            } else {
                assert(self.idle_at(f2, u2) == pre.idle_at(f2, u2));
            }
        }
    }

    /// Record the dispatch of `req` to `vm`: the worker enters the running
    /// pool of the request's function and user.  The transmission itself
    /// happens outside the library; if it fails, the caller reports that
    /// with `send_failed`, which parks the worker as idle again.
    ///
    /// The caller owns `vm` (it is in neither pool) and has already made
    /// room: one slot under the concurrency limit, and the worker's memory
    /// accounted for in the ledger.
    pub fn send_request(&mut self, req: &Request, vm: Vm)
        requires
            old(self).wf(),
            old(self).function_configs.contains_name(req.function@),
            req.user_id < old(self).configs()[old(self).fidx(req.function@)].users,
            old(self).idle_at(old(self).fidx(req.function@), req.user_id as int).len() + old(
                self,
            ).running_at(old(self).fidx(req.function@), req.user_id as int).len() < old(
                self,
            ).configs()[old(self).fidx(req.function@)].concurrency_limit,
            old(self).count_id(vm.id) == 0,
            vm.id < old(self).vm_id_counter,
            old(self).cluster.total_free_mem + old(self).pooled_mem() + old(self).configs()[old(
                self,
            ).fidx(req.function@)].memory <= old(self).cluster.total_mem,
            old(self).pooled_size() < old(self).vm_id_counter,
        ensures
            final(self).wf(),
            *final(self) == (Inner { running_functions: final(self).running_functions, ..*old(self) }),
            final(self).idle() == old(self).idle(),
            final(self).running() == old(self).running().update(
                old(self).fidx(req.function@),
                old(self).running()[old(self).fidx(req.function@)].update(
                    req.user_id as int,
                    old(self).running_at(old(self).fidx(req.function@), req.user_id as int).push(
                        vm,
                    ),
                ),
            ),
            final(self).count_id(vm.id) == 1,
            final(self).pooled_mem() == old(self).pooled_mem() + old(self).configs()[old(
                self,
            ).fidx(req.function@)].memory,
            final(self).pooled_size() == old(self).pooled_size() + 1,
    {
        let f = match self.function_configs.find(&req.function) {
            Some(f) => f,
            None => {
                return unreached();
            },
        };
        proof {
            let j = self.fidx(req.function@);
            assert(self.configs()[j].name@ == req.function@);
            assert(j == f);
            assert(self.running()[f as int] == lists_view(self.running_functions@[f as int]@));
        }
        let u = req.user_id as usize;
        let ghost pre = *self;
        pool_push(&mut self.running_functions, f, u, vm);
        proof {
            self.lemma_after_pool_push(pre, f as int, u as int, vm);
        }
    }

    /// The well-formedness bookkeeping after pushing a worker that was in
    /// neither pool into the running pool of function f, user u.
    proof fn lemma_after_pool_push(&self, pre: Inner, f: int, u: int, vm: Vm)
        requires
            pre.wf(),
            0 <= f < pre.configs().len(),
            0 <= u < pre.configs()[f].users,
            pre.idle_at(f, u).len() + pre.running_at(f, u).len() < pre.configs()[
                f
            ].concurrency_limit,
            pre.count_id(vm.id) == 0,
            vm.id < pre.vm_id_counter,
            pre.cluster.total_free_mem + pre.pooled_mem() + pre.configs()[f].memory
                <= pre.cluster.total_mem,
            pre.pooled_size() < pre.vm_id_counter,
            self.running() == pre.running().update(
                f,
                pre.running()[f].update(u, pre.running_at(f, u).push(vm)),
            ),
            *self == (Inner { running_functions: self.running_functions, ..pre }),
        ensures
            self.wf(),
            self.count_id(vm.id) == 1,
            self.pooled_mem() == pre.pooled_mem() + pre.configs()[f].memory,
            self.pooled_size() == pre.pooled_size() + 1,
    {
        let p = pre.running();
        let ol = p[f][u];
        let nl = ol.push(vm);
        crate::pool::lemma_pool_replace(p, pre.configs(), f, u, nl);
        assert(self.idle() == pre.idle());
        assert forall|id: u32| #![trigger self.count_id(id)]
            self.count_id(id) == pre.count_id(id) + (if vm.id == id { 1int } else { 0int }) by {
            crate::pool::lemma_seq_count_push(ol, vm, id);
            assert(pool_count_id(self.running(), id) == pool_count_id(p, id) - seq_count_id(
                ol,
                id,
            ) + seq_count_id(nl, id));
        }
        assert forall|id: u32| #![trigger self.count_id(id)]
            self.count_id(id) <= 1 && (self.count_id(id) > 0 ==> id < self.vm_id_counter) by {
            assert(pre.count_id(id) <= 1);
            assert(pre.count_id(id) > 0 ==> id < pre.vm_id_counter);
            if id == vm.id {
                assert(pre.count_id(id) == 0);
            }
        }
        assert(self.count_id(vm.id) == 1);
        let cfgmem = pre.configs()[f].memory as int;
        assert(cfgmem * nl.len() == cfgmem * ol.len() + cfgmem) by (nonlinear_arith)
            requires
                nl.len() == ol.len() + 1,
                cfgmem == pre.configs()[f].memory as int,
        ;
        assert(self.pooled_mem() == pre.pooled_mem() + cfgmem);
        assert forall|f2: int, u2: int|
            #![trigger self.idle_at(f2, u2), self.running_at(f2, u2)]
            0 <= f2 < self.configs().len() && 0 <= u2 < self.configs()[f2].users
                implies self.idle_at(f2, u2).len() + self.running_at(f2, u2).len()
                <= self.configs()[f2].concurrency_limit by {
            assert(pre.idle_at(f2, u2).len() + pre.running_at(f2, u2).len() <= pre.configs()[
                f2
            ].concurrency_limit);
            if f2 == f && u2 == u {
                assert(self.running_at(f2, u2) == nl);
            } else {
                assert(self.running_at(f2, u2) == pre.running_at(f2, u2));
            }
        }
    }

    /// Remove the running worker with this id under the given function and
    /// user, if it is there.
    pub fn find_and_remove_running_vm(
        &mut self,
        function_name: &String,
        user_id: &u32,
        vm_id: u32,
    ) -> (r: Option<Vm>)
        requires
            old(self).wf(),
            old(self).function_configs.contains_name(function_name@),
            *user_id < old(self).configs()[old(self).fidx(function_name@)].users,
        ensures
            final(self).wf(),
            *final(self) == (Inner { running_functions: final(self).running_functions, ..*old(self) }),
            match r {
                Some(vm) => {
                    let f = old(self).fidx(function_name@);
                    let u = *user_id as int;
                    let rl = old(self).running_at(f, u);
                    &&& has_vm_id(rl, vm_id)
                    &&& vm.id == vm_id
                    &&& vm == rl[idx_of_id(rl, vm_id)]
                    &&& final(self).running() == old(self).running().update(
                        f,
                        old(self).running()[f].update(u, rl.remove(idx_of_id(rl, vm_id))),
                    )
                    &&& final(self).idle() == old(self).idle()
                    &&& final(self).count_id(vm_id) == 0
                    &&& vm.id < old(self).vm_id_counter
                    &&& final(self).pooled_mem() == old(self).pooled_mem() - old(self).configs()[
                        f
                    ].memory
                    &&& final(self).pooled_size() == old(self).pooled_size() - 1
                },
                None => {
                    &&& *final(self) == *old(self)
                    &&& !has_vm_id(
                        old(self).running_at(old(self).fidx(function_name@), *user_id as int),
                        vm_id,
                    )
                },
            },
    {
        let f = match self.function_configs.find(function_name) {
            Some(f) => f,
            None => {
                return unreached();
            },
        };
        proof {
            let j = self.fidx(function_name@);
            assert(self.configs()[j].name@ == function_name@);
            assert(j == f);
            assert(self.running()[f as int] == lists_view(self.running_functions@[f as int]@));
            assert(self.running_at(f as int, *user_id as int) == self.running_functions@[f
                as int]@[*user_id as int]@);
        }
        let u = *user_id as usize;
        let len = self.running_functions[f][u].len();
        let mut idx: usize = 0;
        while idx < len
            invariant
                *self == *old(self),
                self.function_configs.contains_name(function_name@),
                f as int == self.fidx(function_name@),
                u == *user_id as usize,
                len == self.running_at(f as int, u as int).len(),
                0 <= idx <= len,
                forall|j: int|
                    0 <= j < idx ==> (#[trigger] self.running_at(f as int, u as int)[j]).id
                        != vm_id,
                self.wf(),
                0 <= f < self.configs().len(),
                u < self.configs()[f as int].users,
                u < self.running_functions@[f as int]@.len(),
                self.running_at(f as int, u as int) == self.running_functions@[f as int]@[u
                    as int]@,
            decreases len - idx,
        {
            if self.running_functions[f][u][idx].id == vm_id {
                let ghost pre = *self;
                let vm = pool_remove(&mut self.running_functions, f, u, idx);
                proof {
                    let rl = pre.running_at(f as int, u as int);
                    assert(rl[idx as int].id == vm_id);
                    assert(has_vm_id(rl, vm_id));
                    let k = idx_of_id(rl, vm_id);
                    assert(rl[k].id == vm_id);
                    pre.lemma_unique_index_running(f as int, u as int, idx as int, k, vm_id);
                    self.lemma_after_running_remove(pre, f as int, u as int, idx as int, vm);
                }
                return Some(vm);
            }
            idx = idx + 1;
        }
        proof {
            if has_vm_id(self.running_at(f as int, u as int), vm_id) {
                let k = idx_of_id(self.running_at(f as int, u as int), vm_id);
                assert(self.running_at(f as int, u as int)[k].id == vm_id);
            }
        }
        None
    }

    /// Within one running list, an id picks out at most one position.
    proof fn lemma_unique_index_running(&self, f: int, u: int, i: int, j: int, id: u32)
        requires
            self.wf(),
            0 <= f < self.running().len(),
            0 <= u < self.running()[f].len(),
            0 <= i < self.running_at(f, u).len(),
            0 <= j < self.running_at(f, u).len(),
            self.running_at(f, u)[i].id == id,
            self.running_at(f, u)[j].id == id,
        ensures
            i == j,
    {
        if i != j {
            crate::pool::lemma_seq_count_at_least_two(self.running_at(f, u), i, j, id);
            crate::pool::lemma_lists_count_member(self.running()[f], u, id);
            crate::pool::lemma_pool_count_member(self.running(), f, id);
            crate::pool::lemma_pool_count_nonneg(self.idle(), id);
            assert(self.count_id(id) <= 1);
            assert(false);
        }
    }

    /// The well-formedness bookkeeping after removing the worker at index i
    /// of the running list of function f, user u.
    proof fn lemma_after_running_remove(&self, pre: Inner, f: int, u: int, i: int, vm: Vm)
        requires
            pre.wf(),
            0 <= f < pre.configs().len(),
            0 <= u < pre.configs()[f].users,
            0 <= i < pre.running_at(f, u).len(),
            vm == pre.running_at(f, u)[i],
            self.running() == pre.running().update(
                f,
                pre.running()[f].update(u, pre.running_at(f, u).remove(i)),
            ),
            *self == (Inner { running_functions: self.running_functions, ..pre }),
        ensures
            self.wf(),
            self.count_id(vm.id) == 0,
            vm.id < pre.vm_id_counter,
            self.pooled_mem() == pre.pooled_mem() - pre.configs()[f].memory,
            self.pooled_size() == pre.pooled_size() - 1,
    {
        let p = pre.running();
        let ol = p[f][u];
        let nl = ol.remove(i);
        crate::pool::lemma_pool_replace(p, pre.configs(), f, u, nl);
        assert(self.idle() == pre.idle());
        crate::pool::lemma_pool_count_occurrence(p, f, u, i, vm.id);
        crate::pool::lemma_pool_count_nonneg(pre.idle(), vm.id);
        assert(pre.count_id(vm.id) <= 1);
        assert forall|id: u32| #![trigger self.count_id(id)]
            self.count_id(id) == pre.count_id(id) - (if vm.id == id { 1int } else { 0int }) by {
            crate::pool::lemma_seq_count_remove(ol, i, id);
        }
        assert forall|id: u32| #![trigger self.count_id(id)]
            self.count_id(id) <= 1 && (self.count_id(id) > 0 ==> id < self.vm_id_counter) by {
            assert(pre.count_id(id) <= 1);
            assert(pre.count_id(id) > 0 ==> id < pre.vm_id_counter);
            crate::pool::lemma_seq_count_remove(ol, i, id);
            crate::pool::lemma_seq_count_nonneg(nl, id);
        }
        assert(self.count_id(vm.id) == 0);
        assert(vm.id < pre.vm_id_counter);
        let cfgmem = pre.configs()[f].memory as int;
        assert(cfgmem * nl.len() == cfgmem * ol.len() - cfgmem) by (nonlinear_arith)
            requires
                nl.len() == ol.len() - 1,
                cfgmem == pre.configs()[f].memory as int,
        ;
        assert(self.pooled_mem() == pre.pooled_mem() - cfgmem);
        assert forall|f2: int, u2: int|
            #![trigger self.idle_at(f2, u2), self.running_at(f2, u2)]
            0 <= f2 < self.configs().len() && 0 <= u2 < self.configs()[f2].users
                implies self.idle_at(f2, u2).len() + self.running_at(f2, u2).len()
                <= self.configs()[f2].concurrency_limit by {
            assert(pre.idle_at(f2, u2).len() + pre.running_at(f2, u2).len() <= pre.configs()[
                f2
            ].concurrency_limit);
            if f2 == f && u2 == u {
                assert(self.running_at(f2, u2) == nl);
            } else {
                assert(self.running_at(f2, u2) == pre.running_at(f2, u2));
            }
        }
    }


    /// Whether the idle worker stack of function vf, user vu can yield an
    /// eviction victim for a request of function reqf, user requ: another
    /// function's worker whose memory requirement covers the request's, or
    /// a worker of the same function under a different user.  The
    /// requesting function's own same-user idle workers are never eviction
    /// material: those are for reuse.
    pub open spec fn evict_eligible(&self, vf: int, vu: int, reqf: int, requ: int) -> bool {
        &&& 0 <= vf < self.configs().len()
        &&& 0 <= vu < self.configs()[vf].users
        &&& self.idle_at(vf, vu).len() > 0
        &&& if vf != reqf {
            self.configs()[vf].memory >= self.configs()[reqf].memory
        } else {
            vu != requ
        }
    }

    /// The first eligible user of function vf, scanning user ids upward
    /// from vu.
    pub open spec fn victim_user_from(&self, vf: int, reqf: int, requ: int, vu: int) -> Option<int>
        decreases self.configs()[vf].users - vu,
    {
        if vu >= self.configs()[vf].users {
            None
        } else if self.evict_eligible(vf, vu, reqf, requ) {
            Some(vu)
        } else {
            self.victim_user_from(vf, reqf, requ, vu + 1)
        }
    }

    /// The first eligible (function, user) pair, scanning functions in
    /// catalog order from vf and users upward within each function.
    pub open spec fn victim_from(&self, reqf: int, requ: int, vf: int) -> Option<(int, int)>
        decreases self.configs().len() - vf,
    {
        if vf >= self.configs().len() {
            None
        } else {
            match self.victim_user_from(vf, reqf, requ, 0) {
                Some(vu) => Some((vf, vu)),
                None => self.victim_from(reqf, requ, vf + 1),
            }
        }
    }

    /// The eviction victim for a request of function reqf, user requ: the
    /// first idle worker meeting the resource test, in catalog order.
    pub open spec fn victim_choice(&self, reqf: int, requ: int) -> Option<(int, int)> {
        self.victim_from(reqf, requ, 0)
    }

    /// Pick and remove an eviction victim for this request: the most
    /// recently parked idle worker of the first eligible (function, user)
    /// pair, together with that worker's memory size, which is at least
    /// the requesting function's requirement.  No attempt at optimal
    /// bin-packing is made: the first fit bounds decision latency.
    pub fn get_evictable_vm(&mut self, req: &Request) -> (r: Option<(Vm, usize)>)
        requires
            old(self).wf(),
            old(self).function_configs.contains_name(req.function@),
        ensures
            final(self).wf(),
            *final(self) == (Inner { idle_functions: final(self).idle_functions, ..*old(self) }),
            match r {
                Some(pair) => {
                    let f = old(self).fidx(req.function@);
                    let requ = req.user_id as int;
                    let choice = old(self).victim_choice(f, requ);
                    let vf = choice->Some_0.0;
                    let vu = choice->Some_0.1;
                    &&& choice.is_some()
                    &&& old(self).evict_eligible(vf, vu, f, requ)
                    &&& pair.0 == old(self).idle_at(vf, vu).last()
                    &&& pair.1 == old(self).configs()[vf].memory
                    &&& pair.1 >= old(self).configs()[f].memory
                    &&& (vf != f || vu != requ)
                    &&& final(self).idle() == old(self).idle().update(
                        vf,
                        old(self).idle()[vf].update(vu, old(self).idle_at(vf, vu).drop_last()),
                    )
                    &&& final(self).running() == old(self).running()
                    &&& final(self).count_id(pair.0.id) == 0
                    &&& pair.0.id < old(self).vm_id_counter
                    &&& final(self).pooled_mem() == old(self).pooled_mem() - pair.1
                    &&& final(self).pooled_size() == old(self).pooled_size() - 1
                },
                None => {
                    &&& *final(self) == *old(self)
                    &&& old(self).victim_choice(
                        old(self).fidx(req.function@),
                        req.user_id as int,
                    ).is_none()
                },
            },
    {
        let f = match self.function_configs.find(&req.function) {
            Some(f) => f,
            None => {
                return unreached();
            },
        };
        proof {
            let j = self.fidx(req.function@);
            assert(self.configs()[j].name@ == req.function@);
            assert(j == f);
        }
        let req_mem: usize = match self.function_configs.resource_req(&req.function) {
            Some((_, m)) => m,
            None => {
                return unreached();
            },
        };
        let user_id = req.user_id;
        let ghost requ = req.user_id as int;
        let n = self.idle_functions.len();
        let mut vf: usize = 0;
        while vf < n
            invariant
                *self == *old(self),
                self.wf(),
                self.function_configs.contains_name(req.function@),
                f as int == self.fidx(req.function@),
                f < self.configs().len(),
                req_mem == self.configs()[f as int].memory,
                user_id == req.user_id,
                requ == req.user_id as int,
                n == self.idle_functions@.len(),
                n == self.configs().len(),
                0 <= vf <= n,
                self.victim_choice(f as int, requ) == self.victim_from(f as int, requ, vf as int),
            decreases n - vf,
        {
            let users = self.idle_functions[vf].len();
            proof {
                assert(self.idle()[vf as int] == lists_view(self.idle_functions@[vf as int]@));
                assert(self.idle()[vf as int].len() == self.configs()[vf as int].users);
            }
            let mut vu: usize = 0;
            while vu < users
                invariant
                    *self == *old(self),
                    self.wf(),
                    self.function_configs.contains_name(req.function@),
                    f as int == self.fidx(req.function@),
                    f < self.configs().len(),
                    req_mem == self.configs()[f as int].memory,
                    user_id == req.user_id,
                    requ == req.user_id as int,
                    n == self.idle_functions@.len(),
                    n == self.configs().len(),
                    0 <= vf < n,
                    users == self.configs()[vf as int].users,
                    users == self.idle_functions@[vf as int]@.len(),
                    0 <= vu <= users,
                    self.victim_choice(f as int, requ) == (match self.victim_user_from(
                        vf as int,
                        f as int,
                        requ,
                        vu as int,
                    ) {
                        Some(vu2) => Some((vf as int, vu2)),
                        None => self.victim_from(f as int, requ, vf as int + 1),
                    }),
                decreases users - vu,
            {
                proof {
                    assert(self.idle()[vf as int] == lists_view(self.idle_functions@[vf
                        as int]@));
                    assert(self.idle_at(vf as int, vu as int) == self.idle_functions@[vf
                        as int]@[vu as int]@);
                }
                let list_len = self.idle_functions[vf][vu].len();
                let eligible: bool = if vf != f {
                    let evict_mem = self.function_configs.configs[vf].memory;
                    evict_mem >= req_mem && list_len > 0
                } else {
                    vu != user_id as usize && list_len > 0
                };
                if eligible {
                    proof {
                        assert(self.evict_eligible(vf as int, vu as int, f as int, requ));
                        assert(self.victim_user_from(vf as int, f as int, requ, vu as int)
                            == Some(vu as int));
                        assert(self.victim_choice(f as int, requ) == Some((vf as int, vu as int)));
                    }
                    let evict_mem = self.function_configs.configs[vf].memory;
                    let ghost pre = *self;
                    let vm = pool_pop(&mut self.idle_functions, vf, vu);
                    proof {
                        self.lemma_after_pool_pop(pre, vf as int, vu as int, vm);
                    }
                    return Some((vm, evict_mem));
                }
                proof {
                    assert(!self.evict_eligible(vf as int, vu as int, f as int, requ));
                    assert(self.victim_user_from(vf as int, f as int, requ, vu as int)
                        == self.victim_user_from(vf as int, f as int, requ, vu as int + 1));
                }
                vu = vu + 1;
            }
            proof {
                assert(self.victim_user_from(vf as int, f as int, requ, users as int).is_none());
                assert(self.victim_from(f as int, requ, vf as int) == self.victim_from(
                    f as int,
                    requ,
                    vf as int + 1,
                ));
            }
            vf = vf + 1;
        }
        proof {
            assert(self.victim_from(f as int, requ, n as int).is_none());
        }
        None
    }

    /// Evict this idle worker: the scheduler gives up its record.  The
    /// caller kills the underlying process (which happens automatically
    /// when the process handle tied to this id is dropped) and credits the
    /// ledger with the worker's memory.
    pub fn evict(&self, evict_vm: Vm) {
    }


    /// The relation between a scheduler state, a request, and the boot
    /// plan built for a new worker with this id: every plan field is
    /// determined by the request's function configuration and the
    /// scheduler's shared boot parameters.
    pub open spec fn plan_for(&self, req: Request, plan: BootPlan, id: u32) -> bool {
        let cfg = self.configs()[self.fidx(req.function@)];
        &&& plan.vm_id == id
        &&& plan.function@ == req.function@
        &&& plan.user_id == req.user_id
        &&& plan.instance_id@ == cfg.name@
        &&& plan.kernel@ == self.kernel@
        &&& plan.rootfs@ == self.function_configs.runtimefs_dir@ + seq!['/'] + cfg.runtimefs@
        &&& plan.appfs@ == self.function_configs.appfs_dir@ + seq!['/'] + cfg.appfs@
        &&& plan.cmd_line@ == self.cmd_line@
        &&& plan.seccomp_level == self.seccomp_level
        &&& plan.cpu_share == (cfg.memory as int / VM_SIZE_INCREMENT as int)
            * CPU_SHARE_INCREMENT as int
        &&& plan.vcpu_count == (cfg.memory + self.one_hyperthread_mem_size - 1)
            / (self.one_hyperthread_mem_size as int)
        &&& plan.mem_size_mib == cfg.memory
        &&& plan.load_dir == (if self.snapshot {
            cfg.load_dir
        } else {
            None::<String>
        })
        &&& plan.debug == self.debug
    }

    /// Register a new worker for this request: assign it the next id,
    /// record its boot timestamp and memory size, and build the boot plan
    /// the caller uses to spawn the isolated worker process.  The worker is
    /// in neither pool yet; the caller dispatches it with `send_request`.
    /// The ledger memory for the worker must already be allocated.
    pub fn launch_new_vm(&mut self, req: &Request, now: u64) -> (r: (Vm, BootPlan))
        requires
            old(self).wf(),
            old(self).function_configs.contains_name(req.function@),
            old(self).vm_id_counter < u32::MAX as usize,
            old(self).configs()[old(self).fidx(req.function@)].memory <= old(
                self,
            ).cluster.total_mem,
        ensures
            final(self).wf(),
            *final(self) == (Inner {
                vm_id_counter: final(self).vm_id_counter,
                stat: final(self).stat,
                ..*old(self)
            }),
            final(self).vm_id_counter == old(self).vm_id_counter + 1,
            r.0.id == old(self).vm_id_counter as u32,
            old(self).plan_for(*req, r.1, r.0.id),
            final(self).stat@ == (MetricsView {
                boot_timestamp: ts_logged(old(self).stat@.boot_timestamp, r.0.id, now),
                vm_mem_size: mem_logged(
                    old(self).stat@.vm_mem_size,
                    r.0.id,
                    old(self).configs()[old(self).fidx(req.function@)].memory,
                ),
                ..old(self).stat@
            }),
            old(self).count_id(r.0.id) == 0,
    {
        let config = match self.function_configs.get(&req.function) {
            Some(c) => c,
            None => {
                return unreached();
            },
        };
        proof {
            let j = self.fidx(req.function@);
            assert(self.configs()[j].name@ == req.function@);
        }
        let id = self.vm_id_counter as u32;
        self.vm_id_counter = self.vm_id_counter + 1;

        let mut load_dir: Option<String> = None;
        if self.snapshot {
            load_dir = config.load_dir;
        }

        let mem = config.memory;
        let cpu_share = self.cpu_share(mem);
        let vcpu_count = self.vcpu_count(mem);

        let ghost pre = *self;
        self.stat.log_boot_timestamp(id, now);
        self.stat.log_vm_mem_size(id, mem);
        proof {
            Self::lemma_wf_stat_change(*old(self), *self);
            crate::pool::lemma_pool_count_nonneg(old(self).idle(), id);
            crate::pool::lemma_pool_count_nonneg(old(self).running(), id);
            assert(old(self).count_id(id) <= 1);
            if old(self).count_id(id) > 0 {
                assert(id < old(self).vm_id_counter);
            }
        }

        let plan = BootPlan {
            vm_id: id,
            function: req.function.clone(),
            user_id: req.user_id,
            instance_id: config.name,
            kernel: self.kernel.clone(),
            rootfs: config.runtimefs,
            appfs: config.appfs,
            cmd_line: self.cmd_line.clone(),
            seccomp_level: self.seccomp_level,
            cpu_share,
            vcpu_count,
            mem_size_mib: mem,
            load_dir,
            debug: self.debug,
        };
        (Vm { id }, plan)
    }

    /// Evict the given idle worker to make room, then register a new
    /// worker for this request exactly as `launch_new_vm` does.  The two
    /// eviction instants bracketing the kill are handed in by the caller
    /// and logged for the victim; the second one also serves as the new
    /// worker's boot timestamp.  The ledger exchange (credit the victim's
    /// memory, debit the request's) is the caller's step, as is killing
    /// the victim's process.
    pub fn evict_and_swap(&mut self, req: &Request, evict_vm: Vm, t0: u64, t1: u64) -> (r: (
        Vm,
        BootPlan,
    ))
        requires
            old(self).wf(),
            old(self).function_configs.contains_name(req.function@),
            old(self).vm_id_counter < u32::MAX as usize,
            old(self).configs()[old(self).fidx(req.function@)].memory <= old(
                self,
            ).cluster.total_mem,
        ensures
            final(self).wf(),
            *final(self) == (Inner {
                vm_id_counter: final(self).vm_id_counter,
                stat: final(self).stat,
                ..*old(self)
            }),
            final(self).vm_id_counter == old(self).vm_id_counter + 1,
            r.0.id == old(self).vm_id_counter as u32,
            old(self).plan_for(*req, r.1, r.0.id),
            final(self).stat@ == (MetricsView {
                eviction_timestamp: ts_logged(
                    ts_logged(old(self).stat@.eviction_timestamp, evict_vm.id, t0),
                    evict_vm.id,
                    t1,
                ),
                boot_timestamp: ts_logged(old(self).stat@.boot_timestamp, r.0.id, t1),
                vm_mem_size: mem_logged(
                    old(self).stat@.vm_mem_size,
                    r.0.id,
                    old(self).configs()[old(self).fidx(req.function@)].memory,
                ),
                ..old(self).stat@
            }),
            old(self).count_id(r.0.id) == 0,
    {
        let id = evict_vm.id;
        self.evict(evict_vm);
        let ghost pre = *self;
        self.stat.log_eviction_timestamp(id, t0);
        self.stat.log_eviction_timestamp(id, t1);
        proof {
            Self::lemma_wf_stat_change(pre, *self);
        }
        self.launch_new_vm(req, t1)
    }



    /// Place an incoming request: reuse an idle worker of its function and
    /// user if one is parked; otherwise drop the request if the function
    /// is at its concurrency limit; otherwise boot a new worker from free
    /// resources; otherwise evict another function's idle worker and boot
    /// in its place; otherwise drop the request.  All ledger, pool,
    /// counter and metrics bookkeeping happens here; the returned outcome
    /// tells the caller what remains to be done outside (kill, boot,
    /// forward), keyed by worker id.  `now` is the caller's clock reading,
    /// used for the boot and eviction timestamps of this decision.
    pub fn aws_schedule(&mut self, req: Request, now: u64) -> (r: ScheduleOutcome)
        requires
            old(self).wf(),
            old(self).function_configs.contains_name(req.function@),
            req.user_id < old(self).configs()[old(self).fidx(req.function@)].users,
            old(self).vm_id_counter < u32::MAX as usize,
            old(self).stat.num_drop < u32::MAX,
            old(self).stat.num_drop_concurrency < u32::MAX,
            old(self).stat.num_drop_resource < u32::MAX,
            old(self).stat.num_evict < u32::MAX,
        ensures
            final(self).wf(),
            ({
                let pre = *old(self);
                let post = *final(self);
                let f = pre.fidx(req.function@);
                let u = req.user_id as int;
                let mem = pre.configs()[f].memory;
                let il = pre.idle_at(f, u);
                let sum = il.len() + pre.running_at(f, u).len();
                match r {
                    ScheduleOutcome::Reused { vm_id } => {
                        &&& il.len() > 0
                        &&& vm_id == il.last().id
                        &&& post == (Inner {
                            idle_functions: post.idle_functions,
                            running_functions: post.running_functions,
                            ..pre
                        })
                        &&& post.idle() == pre.idle().update(
                            f,
                            pre.idle()[f].update(u, il.drop_last()),
                        )
                        &&& post.running() == pre.running().update(
                            f,
                            pre.running()[f].update(u, pre.running_at(f, u).push(il.last())),
                        )
                    },
                    ScheduleOutcome::DroppedConcurrency => {
                        &&& il.len() == 0
                        &&& sum >= pre.configs()[f].concurrency_limit
                        &&& post == (Inner { stat: post.stat, ..pre })
                        &&& post.stat@ == (MetricsView {
                            num_drop: (pre.stat@.num_drop + 1) as u32,
                            num_drop_concurrency: (pre.stat@.num_drop_concurrency + 1) as u32,
                            ..pre.stat@
                        })
                    },
                    ScheduleOutcome::Booted { plan } => {
                        &&& il.len() == 0
                        &&& sum < pre.configs()[f].concurrency_limit
                        &&& pre.cluster.host_list@[0].free_mem >= mem
                        &&& pre.plan_for(req, plan, pre.vm_id_counter as u32)
                        &&& post == (Inner {
                            running_functions: post.running_functions,
                            cluster: post.cluster,
                            vm_id_counter: post.vm_id_counter,
                            stat: post.stat,
                            ..pre
                        })
                        &&& post.vm_id_counter == pre.vm_id_counter + 1
                        &&& post.cluster == (Cluster {
                            host_list: post.cluster.host_list,
                            total_free_mem: (pre.cluster.total_free_mem - mem) as usize,
                            ..pre.cluster
                        })
                        &&& post.cluster.host_list@ == pre.cluster.host_list@.update(
                            0,
                            MachineInfo {
                                free_mem: (pre.cluster.host_list@[0].free_mem - mem) as usize,
                                ..pre.cluster.host_list@[0]
                            },
                        )
                        &&& post.idle() == pre.idle()
                        &&& post.running() == pre.running().update(
                            f,
                            pre.running()[f].update(
                                u,
                                pre.running_at(f, u).push(Vm { id: pre.vm_id_counter as u32 }),
                            ),
                        )
                        &&& post.stat@ == (MetricsView {
                            boot_timestamp: ts_logged(
                                pre.stat@.boot_timestamp,
                                pre.vm_id_counter as u32,
                                now,
                            ),
                            vm_mem_size: mem_logged(
                                pre.stat@.vm_mem_size,
                                pre.vm_id_counter as u32,
                                mem,
                            ),
                            ..pre.stat@
                        })
                        &&& post.function_configs == pre.function_configs
                    },
                    ScheduleOutcome::BootedAfterEviction { victim_id, plan } => {
                        let choice = pre.victim_choice(f, u);
                        let vf = choice->Some_0.0;
                        let vu = choice->Some_0.1;
                        let emem = pre.configs()[vf].memory;
                        &&& il.len() == 0
                        &&& sum < pre.configs()[f].concurrency_limit
                        &&& pre.cluster.host_list@[0].free_mem < mem
                        &&& choice.is_some()
                        &&& victim_id == pre.idle_at(vf, vu).last().id
                        &&& emem >= mem
                        &&& pre.plan_for(req, plan, pre.vm_id_counter as u32)
                        &&& post == (Inner {
                            idle_functions: post.idle_functions,
                            running_functions: post.running_functions,
                            cluster: post.cluster,
                            vm_id_counter: post.vm_id_counter,
                            stat: post.stat,
                            ..pre
                        })
                        &&& post.vm_id_counter == pre.vm_id_counter + 1
                        &&& post.cluster == (Cluster {
                            host_list: post.cluster.host_list,
                            total_free_mem: (pre.cluster.total_free_mem + emem - mem) as usize,
                            ..pre.cluster
                        })
                        &&& post.cluster.host_list@ == pre.cluster.host_list@.update(
                            0,
                            MachineInfo {
                                free_mem: (pre.cluster.host_list@[0].free_mem + emem
                                    - mem) as usize,
                                ..pre.cluster.host_list@[0]
                            },
                        )
                        &&& post.idle() == pre.idle().update(
                            vf,
                            pre.idle()[vf].update(vu, pre.idle_at(vf, vu).drop_last()),
                        )
                        &&& post.running() == pre.running().update(
                            f,
                            pre.running()[f].update(
                                u,
                                pre.running_at(f, u).push(Vm { id: pre.vm_id_counter as u32 }),
                            ),
                        )
                        &&& post.stat@ == (MetricsView {
                            num_evict: (pre.stat@.num_evict + 1) as u32,
                            eviction_timestamp: ts_logged(
                                ts_logged(pre.stat@.eviction_timestamp, victim_id, now),
                                victim_id,
                                now,
                            ),
                            boot_timestamp: ts_logged(
                                pre.stat@.boot_timestamp,
                                pre.vm_id_counter as u32,
                                now,
                            ),
                            vm_mem_size: mem_logged(
                                pre.stat@.vm_mem_size,
                                pre.vm_id_counter as u32,
                                mem,
                            ),
                            ..pre.stat@
                        })
                        &&& post.function_configs == pre.function_configs
                    },
                    ScheduleOutcome::DroppedResource => {
                        &&& il.len() == 0
                        &&& sum < pre.configs()[f].concurrency_limit
                        &&& pre.cluster.host_list@[0].free_mem < mem
                        &&& pre.victim_choice(f, u).is_none()
                        &&& post == (Inner { stat: post.stat, ..pre })
                        &&& post.stat@ == (MetricsView {
                            num_drop: (pre.stat@.num_drop + 1) as u32,
                            num_drop_resource: (pre.stat@.num_drop_resource + 1) as u32,
                            ..pre.stat@
                        })
                    },
                }
            }),
    {
        let ghost pre = *old(self);
        let ghost f_g = pre.fidx(req.function@);
        let ghost u_g = req.user_id as int;
        match self.get_idle_vm(&req) {
            Some(vm) => {
                proof {
                    assert(pre.idle_at(f_g, u_g).len() + pre.running_at(f_g, u_g).len()
                        <= pre.configs()[f_g].concurrency_limit);
                }
                self.send_request(&req, vm);
                ScheduleOutcome::Reused { vm_id: vm.id }
            },
            None => {
                if self.check_concurrency(&req) {
                    let ghost mid = *self;
                    self.stat.drop_req_concurrency(1);
                    self.stat.drop_req(1);
                    proof {
                        Self::lemma_wf_stat_change(mid, *self);
                    }
                    return ScheduleOutcome::DroppedConcurrency;
                }
                let req_mem: usize = match self.function_configs.resource_req(&req.function) {
                    Some((_, m)) => m,
                    None => {
                        return unreached();
                    },
                };
                proof {
                    crate::pool::lemma_pool_mem_member(self.idle(), self.configs(), f_g);
                    crate::pool::lemma_pool_mem_member(self.running(), self.configs(), f_g);
                }
                match self.cluster.find_free_machine(req_mem) {
                    Some((host_id, _)) => {
                        let ghost mid0 = *self;
                        self.cluster.allocate(host_id, req_mem);
                        proof {
                            Self::lemma_wf_frame(mid0, *self);
                        }
                        let (new_vm, plan) = self.launch_new_vm(&req, now);
                        proof {
                            crate::pool::lemma_pool_count_nonneg(self.idle(), new_vm.id);
                            crate::pool::lemma_pool_count_nonneg(self.running(), new_vm.id);
                        }
                        self.send_request(&req, new_vm);
                        ScheduleOutcome::Booted { plan }
                    },
                    None => {
                        match self.get_evictable_vm(&req) {
                            Some((evict_vm, evict_mem)) => {
                                let victim_id = evict_vm.id;
                                let ghost mid1 = *self;
                                self.stat.evict_vm(1);
                                proof {
                                    Self::lemma_wf_stat_change(mid1, *self);
                                }
                                proof {
                                    crate::pool::lemma_pool_mem_member(
                                        self.idle(),
                                        self.configs(),
                                        0,
                                    );
                                    crate::pool::lemma_pool_mem_member(
                                        self.running(),
                                        self.configs(),
                                        0,
                                    );
                                }
                                let (new_vm, plan) = self.evict_and_swap(
                                    &req,
                                    evict_vm,
                                    now,
                                    now,
                                );
                                let ghost mid2 = *self;
                                proof {
                                    crate::pool::lemma_pool_mem_member(
                                        self.idle(),
                                        self.configs(),
                                        0,
                                    );
                                    crate::pool::lemma_pool_mem_member(
                                        self.running(),
                                        self.configs(),
                                        0,
                                    );
                                }
                                self.cluster.free(0, evict_mem);
                                let req_mem2: usize = match self.function_configs.resource_req(
                                    &req.function,
                                ) {
                                    Some((_, m)) => m,
                                    None => {
                                        return unreached();
                                    },
                                };
                                self.cluster.allocate(0, req_mem2);
                                proof {
                                    Self::lemma_wf_frame(mid2, *self);
                                    crate::pool::lemma_pool_count_nonneg(
                                        self.idle(),
                                        new_vm.id,
                                    );
                                    crate::pool::lemma_pool_count_nonneg(
                                        self.running(),
                                        new_vm.id,
                                    );
                                }
                                self.send_request(&req, new_vm);
                                ScheduleOutcome::BootedAfterEviction { victim_id, plan }
                            },
                            None => {
                                let ghost mid3 = *self;
                                self.stat.drop_req_resource(1);
                                self.stat.drop_req(1);
                                proof {
                                    Self::lemma_wf_stat_change(mid3, *self);
                                }
                                ScheduleOutcome::DroppedResource
                            },
                        }
                    },
                }
            },
        }
    }

    /// Roll back a worker whose process failed to spawn: the worker leaves
    /// the running pool, its reserved memory returns to the ledger, and
    /// the request it was booted for is counted as dropped.  A boot
    /// failure is fatal only to that scheduling attempt.
    pub fn boot_failed(&mut self, req: &Request, vm_id: u32) -> (r: Result<(), SchedulerError>)
        requires
            old(self).wf(),
            old(self).stat.num_drop < u32::MAX,
        ensures
            final(self).wf(),
            r.is_ok() <==> {
                let pre = *old(self);
                &&& pre.function_configs.contains_name(req.function@)
                &&& req.user_id < pre.configs()[pre.fidx(req.function@)].users
                &&& has_vm_id(pre.running_at(pre.fidx(req.function@), req.user_id as int), vm_id)
            },
            r.is_ok() ==> ({
                let pre = *old(self);
                let post = *final(self);
                let f = pre.fidx(req.function@);
                let u = req.user_id as int;
                let rl = pre.running_at(f, u);
                &&& post.running() == pre.running().update(
                    f,
                    pre.running()[f].update(u, rl.remove(idx_of_id(rl, vm_id))),
                )
                &&& post.idle() == pre.idle()
                &&& post.cluster.total_free_mem == pre.cluster.total_free_mem + pre.configs()[
                    f
                ].memory
                &&& post.cluster.total_mem == pre.cluster.total_mem
                &&& post.stat@ == (MetricsView {
                    num_drop: (pre.stat@.num_drop + 1) as u32,
                    ..pre.stat@
                })
                &&& post == (Inner {
                    running_functions: post.running_functions,
                    cluster: post.cluster,
                    stat: post.stat,
                    ..pre
                })
            }),
            !r.is_ok() ==> *final(self) == *old(self),
    {
        let f = match self.function_configs.find(&req.function) {
            Some(f) => f,
            None => {
                return Err(SchedulerError::NotRunning);
            },
        };
        proof {
            let j = self.fidx(req.function@);
            assert(self.configs()[j].name@ == req.function@);
            assert(j == f);
        }
        if req.user_id >= self.function_configs.configs[f].users {
            return Err(SchedulerError::NotRunning);
        }
        let mem = self.function_configs.configs[f].memory;
        match self.find_and_remove_running_vm(&req.function, &req.user_id, vm_id) {
            Some(_vm) => {
                let ghost mid = *self;
                proof {
                    crate::pool::lemma_pool_mem_member(self.idle(), self.configs(), 0);
                    crate::pool::lemma_pool_mem_member(self.running(), self.configs(), 0);
                }
                self.cluster.free(0, mem);
                let ghost mid2 = *self;
                proof {
                    Self::lemma_wf_frame(mid, *self);
                }
                self.stat.drop_req(1);
                proof {
                    Self::lemma_wf_stat_change(mid2, *self);
                }
                Ok(())
            },
            None => Err(SchedulerError::NotRunning),
        }
    }

    /// Changing only the ledger, the metrics and the id counter -- with
    /// the single-host shape kept, the capacity unchanged, and the free
    /// memory still covered by the accounting bound -- preserves the
    /// scheduler invariant.
    proof fn lemma_wf_frame(pre: Inner, post: Inner)
        requires
            pre.wf(),
            post == (Inner {
                cluster: post.cluster,
                stat: post.stat,
                vm_id_counter: post.vm_id_counter,
                ..pre
            }),
            post.cluster.wf(),
            post.cluster.host_list@.len() == 1,
            post.cluster.num_hosts == 1,
            post.cluster.total_free_mem == post.cluster.host_list@[0].free_mem,
            post.cluster.total_mem == post.cluster.host_list@[0].total_mem,
            post.cluster.total_mem == pre.cluster.total_mem,
            post.cluster.total_free_mem + pre.pooled_mem() <= post.cluster.total_mem,
            post.stat.wf(),
            pre.vm_id_counter <= post.vm_id_counter <= u32::MAX,
        ensures
            post.wf(),
    {
        assert(post.idle() == pre.idle());
        assert(post.running() == pre.running());
        assert(post.pooled_mem() == pre.pooled_mem());
        assert forall|f2: int, u2: int|
            #![trigger post.idle_at(f2, u2), post.running_at(f2, u2)]
            0 <= f2 < post.configs().len() && 0 <= u2 < post.configs()[f2].users
                implies post.idle_at(f2, u2).len() + post.running_at(f2, u2).len()
                <= post.configs()[f2].concurrency_limit by {
            assert(pre.idle_at(f2, u2).len() + pre.running_at(f2, u2).len() <= pre.configs()[
                f2
            ].concurrency_limit);
        }
        assert forall|id: u32| #![trigger post.count_id(id)]
            post.count_id(id) <= 1 && (post.count_id(id) > 0 ==> id < post.vm_id_counter) by {
            assert(pre.count_id(id) <= 1);
            assert(pre.count_id(id) > 0 ==> id < pre.vm_id_counter);
        }
    }

    /// Changing only the metrics, and possibly advancing the id counter,
    /// preserves the scheduler invariant.
    proof fn lemma_wf_stat_change(pre: Inner, post: Inner)
        requires
            pre.wf(),
            post.stat.wf(),
            post == (Inner { stat: post.stat, vm_id_counter: post.vm_id_counter, ..pre }),
            pre.vm_id_counter <= post.vm_id_counter <= u32::MAX,
        ensures
            post.wf(),
    {
        assert(post.idle() == pre.idle());
        assert(post.running() == pre.running());
        assert forall|f2: int, u2: int|
            #![trigger post.idle_at(f2, u2), post.running_at(f2, u2)]
            0 <= f2 < post.configs().len() && 0 <= u2 < post.configs()[f2].users
                implies post.idle_at(f2, u2).len() + post.running_at(f2, u2).len()
                <= post.configs()[f2].concurrency_limit by {
            assert(pre.idle_at(f2, u2).len() + pre.running_at(f2, u2).len() <= pre.configs()[
                f2
            ].concurrency_limit);
        }
        assert forall|id: u32| #![trigger post.count_id(id)]
            post.count_id(id) <= 1 && (post.count_id(id) > 0 ==> id < post.vm_id_counter) by {
            assert(pre.count_id(id) <= 1);
            assert(pre.count_id(id) > 0 ==> id < pre.vm_id_counter);
        }
    }

    /// The well-formedness bookkeeping after pushing a worker that was in
    /// neither pool into the idle pool of function f, user u.
    proof fn lemma_after_idle_push(&self, pre: Inner, f: int, u: int, vm: Vm)
        requires
            pre.wf(),
            0 <= f < pre.configs().len(),
            0 <= u < pre.configs()[f].users,
            pre.idle_at(f, u).len() + pre.running_at(f, u).len() < pre.configs()[
                f
            ].concurrency_limit,
            pre.count_id(vm.id) == 0,
            vm.id < pre.vm_id_counter,
            pre.cluster.total_free_mem + pre.pooled_mem() + pre.configs()[f].memory
                <= pre.cluster.total_mem,
            pre.pooled_size() < pre.vm_id_counter,
            self.idle() == pre.idle().update(
                f,
                pre.idle()[f].update(u, pre.idle_at(f, u).push(vm)),
            ),
            *self == (Inner { idle_functions: self.idle_functions, ..pre }),
        ensures
            self.wf(),
            self.count_id(vm.id) == 1,
            self.pooled_mem() == pre.pooled_mem() + pre.configs()[f].memory,
            self.pooled_size() == pre.pooled_size() + 1,
    {
        let p = pre.idle();
        let ol = p[f][u];
        let nl = ol.push(vm);
        crate::pool::lemma_pool_replace(p, pre.configs(), f, u, nl);
        assert(self.running() == pre.running());
        assert forall|id: u32| #![trigger self.count_id(id)]
            self.count_id(id) == pre.count_id(id) + (if vm.id == id { 1int } else { 0int }) by {
            crate::pool::lemma_seq_count_push(ol, vm, id);
        }
        assert forall|id: u32| #![trigger self.count_id(id)]
            self.count_id(id) <= 1 && (self.count_id(id) > 0 ==> id < self.vm_id_counter) by {
            assert(pre.count_id(id) <= 1);
            assert(pre.count_id(id) > 0 ==> id < pre.vm_id_counter);
            if id == vm.id {
                assert(pre.count_id(id) == 0);
            }
        }
        assert(self.count_id(vm.id) == 1);
        let cfgmem = pre.configs()[f].memory as int;
        assert(cfgmem * nl.len() == cfgmem * ol.len() + cfgmem) by (nonlinear_arith)
            requires
                nl.len() == ol.len() + 1,
                cfgmem == pre.configs()[f].memory as int,
        ;
        assert(self.pooled_mem() == pre.pooled_mem() + cfgmem);
        assert forall|f2: int, u2: int|
            #![trigger self.idle_at(f2, u2), self.running_at(f2, u2)]
            0 <= f2 < self.configs().len() && 0 <= u2 < self.configs()[f2].users
                implies self.idle_at(f2, u2).len() + self.running_at(f2, u2).len()
                <= self.configs()[f2].concurrency_limit by {
            assert(pre.idle_at(f2, u2).len() + pre.running_at(f2, u2).len() <= pre.configs()[
                f2
            ].concurrency_limit);
            if f2 == f && u2 == u {
                assert(self.idle_at(f2, u2) == nl);
            } else {
                assert(self.idle_at(f2, u2) == pre.idle_at(f2, u2));
            }
        }
    }

    /// Consume a worker's asynchronous completion: move the worker with
    /// this id from the running pool back to the idle pool of its function
    /// and user, and count the completed request.
    ///
    /// A completion for a worker that is not running there is a protocol
    /// violation -- a duplicate completion or a bookkeeping bug -- and is
    /// rejected with an error, never silently ignored; the state is left
    /// untouched.  The caller must abort on it.
    pub fn process_response(&mut self, response: (u32, u32, String, Vec<u8>)) -> (r: Result<
        (),
        SchedulerError,
    >)
        requires
            old(self).wf(),
            old(self).stat.num_complete < u32::MAX,
        ensures
            final(self).wf(),
            r.is_ok() <==> {
                let pre = *old(self);
                &&& pre.function_configs.contains_name(response.2@)
                &&& response.1 < pre.configs()[pre.fidx(response.2@)].users
                &&& has_vm_id(
                    pre.running_at(pre.fidx(response.2@), response.1 as int),
                    response.0,
                )
            },
            r.is_ok() ==> completed(
                *old(self),
                *final(self),
                response.2@,
                response.1,
                response.0,
            ),
            !r.is_ok() ==> *final(self) == *old(self),
    {
        let (id, user_id, function, _response_payload) = response;
        let f = match self.function_configs.find(&function) {
            Some(f) => f,
            None => {
                return Err(SchedulerError::NotRunning);
            },
        };
        proof {
            let j = self.fidx(function@);
            assert(self.configs()[j].name@ == function@);
            assert(j == f);
        }
        if user_id >= self.function_configs.configs[f].users {
            return Err(SchedulerError::NotRunning);
        }
        let ghost pre = *self;
        match self.find_and_remove_running_vm(&function, &user_id, id) {
            Some(vm) => {
                let ghost mid = *self;
                proof {
                    assert(self.idle()[f as int] == lists_view(self.idle_functions@[f as int]@));
                }
                let u = user_id as usize;
                pool_push(&mut self.idle_functions, f, u, vm);
                proof {
                    let fi = pre.fidx(function@);
                    let ui = user_id as int;
                    assert(pre.idle_at(fi, ui).len() + pre.running_at(fi, ui).len() <= pre.configs()[
                        fi
                    ].concurrency_limit);
                    assert(mid.idle_at(fi, ui) == pre.idle_at(fi, ui));
                    assert(mid.running_at(fi, ui).len() == pre.running_at(fi, ui).len() - 1);
                    self.lemma_after_idle_push(mid, fi, ui, vm);
                }
                let ghost mid2 = *self;
                self.stat.complete_req(1);
                proof {
                    Self::lemma_wf_stat_change(mid2, *self);
                    assert(self.idle() == mid.idle().update(
                        pre.fidx(function@),
                        mid.idle()[pre.fidx(function@)].update(
                            user_id as int,
                            pre.idle_at(pre.fidx(function@), user_id as int).push(vm),
                        ),
                    ));
                }
                Ok(())
            },
            None => Err(SchedulerError::NotRunning),
        }
    }

    /// Report that forwarding a request to this worker failed (its channel
    /// is gone: the worker died).  The worker is parked back in the idle
    /// pool -- to be reaped naturally when a future reuse attempt finds the
    /// dead channel -- and the request is counted as dropped; it is not
    /// retried.
    pub fn send_failed(&mut self, req: &Request, vm_id: u32) -> (r: Result<(), SchedulerError>)
        requires
            old(self).wf(),
            old(self).stat.num_drop < u32::MAX,
        ensures
            final(self).wf(),
            r.is_ok() <==> {
                let pre = *old(self);
                &&& pre.function_configs.contains_name(req.function@)
                &&& req.user_id < pre.configs()[pre.fidx(req.function@)].users
                &&& has_vm_id(pre.running_at(pre.fidx(req.function@), req.user_id as int), vm_id)
            },
            r.is_ok() ==> moved_to_idle(*old(self), *final(self), req.function@, req.user_id, vm_id)
                && final(self).stat@ == (MetricsView {
                num_drop: (old(self).stat@.num_drop + 1) as u32,
                ..old(self).stat@
            }),
            !r.is_ok() ==> *final(self) == *old(self),
    {
        let f = match self.function_configs.find(&req.function) {
            Some(f) => f,
            None => {
                return Err(SchedulerError::NotRunning);
            },
        };
        proof {
            let j = self.fidx(req.function@);
            assert(self.configs()[j].name@ == req.function@);
            assert(j == f);
        }
        if req.user_id >= self.function_configs.configs[f].users {
            return Err(SchedulerError::NotRunning);
        }
        let ghost pre = *self;
        match self.find_and_remove_running_vm(&req.function, &req.user_id, vm_id) {
            Some(vm) => {
                let ghost mid = *self;
                proof {
                    assert(self.idle()[f as int] == lists_view(self.idle_functions@[f as int]@));
                }
                let u = req.user_id as usize;
                pool_push(&mut self.idle_functions, f, u, vm);
                proof {
                    let fi = pre.fidx(req.function@);
                    let ui = req.user_id as int;
                    assert(pre.idle_at(fi, ui).len() + pre.running_at(fi, ui).len() <= pre.configs()[
                        fi
                    ].concurrency_limit);
                    assert(mid.idle_at(fi, ui) == pre.idle_at(fi, ui));
                    self.lemma_after_idle_push(mid, fi, ui, vm);
                }
                let ghost mid2 = *self;
                self.stat.drop_req(1);
                proof {
                    Self::lemma_wf_stat_change(mid2, *self);
                    assert(self.idle() == mid.idle().update(
                        pre.fidx(req.function@),
                        mid.idle()[pre.fidx(req.function@)].update(
                            req.user_id as int,
                            pre.idle_at(pre.fidx(req.function@), req.user_id as int).push(vm),
                        ),
                    ));
                }
                Ok(())
            },
            None => Err(SchedulerError::NotRunning),
        }
    }

    /// Drop every pooled worker, idle and running alike.  This is the
    /// shutdown path: the caller kills the worker processes; the ledger is
    /// not credited, as the whole scheduler is going away.
    pub fn kill_all(&mut self)
        requires
            old(self).wf(),
        ensures
            final(self).wf(),
            *final(self) == (Inner {
                idle_functions: final(self).idle_functions,
                running_functions: final(self).running_functions,
                ..*old(self)
            }),
            final(self).idle().len() == old(self).idle().len(),
            final(self).running().len() == old(self).running().len(),
            forall|f: int|
                0 <= f < final(self).idle().len() ==> (#[trigger] final(self).idle()[f]).len()
                    == old(self).idle()[f].len(),
            forall|f: int|
                0 <= f < final(self).running().len() ==> (#[trigger] final(self).running()[
                    f
                ]).len() == old(self).running()[f].len(),
            forall|f: int, u: int|
                #![trigger final(self).idle_at(f, u)]
                0 <= f < final(self).idle().len() && 0 <= u < final(self).idle()[f].len()
                    ==> final(self).idle_at(f, u).len() == 0,
            forall|f: int, u: int|
                #![trigger final(self).running_at(f, u)]
                0 <= f < final(self).running().len() && 0 <= u < final(self).running()[f].len()
                    ==> final(self).running_at(f, u).len() == 0,
            final(self).pooled_size() == 0,
            final(self).pooled_mem() == 0,
    {
        let ghost pre = *self;
        let n = self.idle_functions.len();
        let mut f: usize = 0;
        while f < n
            invariant
                *self == (Inner { idle_functions: self.idle_functions, ..*old(self) }),
                n == self.idle_functions@.len(),
                n == old(self).idle_functions@.len(),
                0 <= f <= n,
                forall|i: int|
                    0 <= i < n ==> (#[trigger] self.idle_functions@[i])@.len() == old(
                        self,
                    ).idle_functions@[i]@.len(),
                forall|i: int, u: int|
                    0 <= i < f && 0 <= u < self.idle_functions@[i]@.len() ==> (
                    #[trigger] self.idle_functions@[i]@[u])@.len() == 0,
                forall|i: int|
                    f <= i < n ==> (#[trigger] self.idle_functions@[i]) == old(
                        self,
                    ).idle_functions@[i],
            decreases n - f,
        {
            let lists = &mut self.idle_functions[f];
            let ghost lists0 = lists@;
            let users = lists.len();
            let mut u: usize = 0;
            while u < users
                invariant
                    users == lists@.len(),
                    lists@.len() == lists0.len(),
                    0 <= u <= users,
                    forall|j: int| 0 <= j < u ==> (#[trigger] lists@[j])@.len() == 0,
                    forall|j: int| u <= j < users ==> (#[trigger] lists@[j]) == lists0[j],
                decreases users - u,
            {
                lists[u].clear();
                u = u + 1;
            }
            f = f + 1;
        }
        let n2 = self.running_functions.len();
        let mut f2: usize = 0;
        while f2 < n2
            invariant
                *self == (Inner {
                    idle_functions: self.idle_functions,
                    running_functions: self.running_functions,
                    ..*old(self)
                }),
                self.idle_functions@.len() == old(self).idle_functions@.len(),
                forall|i: int|
                    0 <= i < self.idle_functions@.len() ==> (
                    #[trigger] self.idle_functions@[i])@.len() == old(self).idle_functions@[
                        i
                    ]@.len(),
                forall|i: int, u: int|
                    0 <= i < self.idle_functions@.len() && 0 <= u
                        < self.idle_functions@[i]@.len() ==> (
                    #[trigger] self.idle_functions@[i]@[u])@.len() == 0,
                n2 == self.running_functions@.len(),
                n2 == old(self).running_functions@.len(),
                0 <= f2 <= n2,
                forall|i: int|
                    0 <= i < n2 ==> (#[trigger] self.running_functions@[i])@.len() == old(
                        self,
                    ).running_functions@[i]@.len(),
                forall|i: int, u: int|
                    0 <= i < f2 && 0 <= u < self.running_functions@[i]@.len() ==> (
                    #[trigger] self.running_functions@[i]@[u])@.len() == 0,
                forall|i: int|
                    f2 <= i < n2 ==> (#[trigger] self.running_functions@[i]) == old(
                        self,
                    ).running_functions@[i],
            decreases n2 - f2,
        {
            let lists = &mut self.running_functions[f2];
            let ghost lists0 = lists@;
            let users = lists.len();
            let mut u: usize = 0;
            while u < users
                invariant
                    users == lists@.len(),
                    lists@.len() == lists0.len(),
                    0 <= u <= users,
                    forall|j: int| 0 <= j < u ==> (#[trigger] lists@[j])@.len() == 0,
                    forall|j: int| u <= j < users ==> (#[trigger] lists@[j]) == lists0[j],
                decreases users - u,
            {
                lists[u].clear();
                u = u + 1;
            }
            f2 = f2 + 1;
        }
        proof {
            assert forall|id: u32| #![trigger self.count_id(id)] self.count_id(id) == 0 by {
                crate::pool::lemma_pool_all_empty(self.idle(), self.configs(), id);
                crate::pool::lemma_pool_all_empty(self.running(), self.configs(), id);
            }
            crate::pool::lemma_pool_all_empty(self.idle(), self.configs(), 0);
            crate::pool::lemma_pool_all_empty(self.running(), self.configs(), 0);
            assert forall|f3: int|
                #![trigger self.idle()[f3]]
                #![trigger self.running()[f3]]
                0 <= f3 < self.configs().len() implies self.idle()[f3].len() == self.configs()[
                f3
            ].users && self.running()[f3].len() == self.configs()[f3].users by {
                assert(old(self).idle()[f3].len() == old(self).configs()[f3].users);
                assert(old(self).running()[f3].len() == old(self).configs()[f3].users);
                assert(self.idle_functions@[f3]@.len() == old(self).idle_functions@[f3]@.len());
                assert(self.running_functions@[f3]@.len() == old(self).running_functions@[
                    f3
                ]@.len());
            }
            assert forall|f3: int, u3: int|
                #![trigger self.idle_at(f3, u3), self.running_at(f3, u3)]
                0 <= f3 < self.configs().len() && 0 <= u3 < self.configs()[f3].users
                    implies self.idle_at(f3, u3).len() + self.running_at(f3, u3).len()
                    <= self.configs()[f3].concurrency_limit by {
                assert(old(self).idle()[f3].len() == old(self).configs()[f3].users);
                assert(old(self).running()[f3].len() == old(self).configs()[f3].users);
                assert(self.idle_functions@[f3]@.len() == old(self).idle_functions@[f3]@.len());
                assert(self.running_functions@[f3]@.len() == old(self).running_functions@[
                    f3
                ]@.len());
                assert(self.idle_at(f3, u3) == self.idle_functions@[f3]@[u3]@);
                assert(self.running_at(f3, u3) == self.running_functions@[f3]@[u3]@);
                assert(self.idle_at(f3, u3).len() == 0);
                assert(self.running_at(f3, u3).len() == 0);
            }
        }
    }

    /// A snapshot of the cluster ledger.
    pub fn get_cluster_info(&self) -> (r: Cluster)
        ensures
            r.num_hosts == self.cluster.num_hosts,
            r.host_list@ == self.cluster.host_list@,
            r.total_cpu == self.cluster.total_cpu,
            r.total_mem == self.cluster.total_mem,
            r.total_free_cpu == self.cluster.total_free_cpu,
            r.total_free_mem == self.cluster.total_free_mem,
    {
        self.cluster.clone()
    }

    /// A snapshot of the metrics.
    pub fn get_stat(&self) -> (r: Metrics)
        ensures
            r@ == self.stat@,
            r.wf() == self.stat.wf(),
    {
        self.stat.clone()
    }

}


/// The transition of a worker from running back to idle, as performed by
/// `process_response` (on completion) and `send_failed` (on a dead
/// channel): the worker with this id leaves the running pool of the given
/// function and user and is pushed onto the same idle pool.  Everything
/// but the pools and the metrics stays.
pub open spec fn moved_to_idle(
    pre: Inner,
    post: Inner,
    function: Seq<char>,
    user_id: u32,
    id: u32,
) -> bool {
    let f = pre.fidx(function);
    let u = user_id as int;
    let rl = pre.running_at(f, u);
    &&& pre.function_configs.contains_name(function)
    &&& user_id < pre.configs()[f].users
    &&& has_vm_id(rl, id)
    &&& post.running() == pre.running().update(
        f,
        pre.running()[f].update(u, rl.remove(idx_of_id(rl, id))),
    )
    &&& post.idle() == pre.idle().update(
        f,
        pre.idle()[f].update(u, pre.idle_at(f, u).push(rl[idx_of_id(rl, id)])),
    )
    &&& post == (Inner {
        running_functions: post.running_functions,
        idle_functions: post.idle_functions,
        stat: post.stat,
        ..pre
    })
}

/// The full completion transition: `moved_to_idle`, and exactly one more
/// completed request counted.
pub open spec fn completed(
    pre: Inner,
    post: Inner,
    function: Seq<char>,
    user_id: u32,
    id: u32,
) -> bool {
    &&& moved_to_idle(pre, post, function, user_id, id)
    &&& post.stat@ == (MetricsView {
        num_complete: (pre.stat@.num_complete + 1) as u32,
        ..pre.stat@
    })
}

/// In every well-formed scheduler state the free memory of the cluster is
/// within its total memory.  `Inner::new` establishes well-formedness and
/// every scheduler operation preserves it, so this holds after every
/// sequence of operations.
pub proof fn lemma_free_within_total(s: &Inner)
    requires
        s.wf(),
    ensures
        s.cluster.total_free_mem <= s.cluster.total_mem,
{
}

/// In every well-formed scheduler state, each function's idle and running
/// workers together stay within its concurrency limit, for each user.
pub proof fn lemma_concurrency_within_limit(s: &Inner, f: int, u: int)
    requires
        s.wf(),
        0 <= f < s.configs().len(),
        0 <= u < s.configs()[f].users,
    ensures
        s.idle_at(f, u).len() + s.running_at(f, u).len() <= s.configs()[f].concurrency_limit,
{
    assert(s.idle_at(f, u).len() + s.running_at(f, u).len() <= s.configs()[f].concurrency_limit);
}

/// In every well-formed scheduler state a worker id occurs at most once
/// over both pool structures together: a worker is in the idle pool, in
/// the running pool, or (terminated) in neither -- never in both, and
/// never twice.
pub proof fn lemma_worker_id_unique(s: &Inner, id: u32)
    requires
        s.wf(),
    ensures
        pool_count_id(s.idle(), id) + pool_count_id(s.running(), id) <= 1,
{
    assert(s.count_id(id) <= 1);
}

/// A worker id found in some idle list is in no running list, wherever in
/// the pool structures the two positions lie: a worker is never in both
/// pools at once.
pub proof fn lemma_never_in_both_pools(
    s: &Inner,
    f1: int,
    u1: int,
    i1: int,
    f2: int,
    u2: int,
    id: u32,
)
    requires
        s.wf(),
        0 <= f1 < s.idle().len(),
        0 <= u1 < s.idle()[f1].len(),
        0 <= i1 < s.idle_at(f1, u1).len(),
        s.idle_at(f1, u1)[i1].id == id,
        0 <= f2 < s.running().len(),
        0 <= u2 < s.running()[f2].len(),
    ensures
        !has_vm_id(s.running_at(f2, u2), id),
{
    crate::pool::lemma_pool_count_occurrence(s.idle(), f1, u1, i1, id);
    if has_vm_id(s.running_at(f2, u2), id) {
        let i2 = idx_of_id(s.running_at(f2, u2), id);
        assert(s.running_at(f2, u2)[i2].id == id);
        crate::pool::lemma_pool_count_occurrence(s.running(), f2, u2, i2, id);
        assert(s.count_id(id) <= 1);
    }
}

/// Completing a worker takes it out of the running pool, so a second
/// completion with the same id under the same function and user finds no
/// running worker and is rejected: completion is never a silent no-op to
/// repeat.
pub proof fn lemma_completion_not_repeatable(
    pre: Inner,
    post: Inner,
    function: Seq<char>,
    user_id: u32,
    id: u32,
)
    requires
        pre.wf(),
        moved_to_idle(pre, post, function, user_id, id),
    ensures
        !has_vm_id(post.running_at(post.fidx(function), user_id as int), id),
{
    let f = pre.fidx(function);
    let u = user_id as int;
    let rl = pre.running_at(f, u);
    let k = idx_of_id(rl, id);
    assert(rl[k].id == id);
    assert(post.function_configs == pre.function_configs);
    assert(post.fidx(function) == f);
    assert(post.running_at(f, u) == rl.remove(k));
    crate::pool::lemma_seq_count_remove(rl, k, id);
    crate::pool::lemma_pool_count_occurrence(pre.running(), f, u, k, id);
    crate::pool::lemma_lists_count_member(pre.running()[f], u, id);
    crate::pool::lemma_pool_count_member(pre.running(), f, id);
    crate::pool::lemma_pool_count_nonneg(pre.idle(), id);
    assert(pre.count_id(id) <= 1);
    assert(seq_count_id(rl, id) <= 1) by {
        crate::pool::lemma_seq_count_nonneg(rl, id);
        if seq_count_id(rl, id) >= 2 {
            crate::pool::lemma_lists_count_member(pre.running()[f], u, id);
        }
    }
    if has_vm_id(post.running_at(f, u), id) {
        let j = idx_of_id(rl.remove(k), id);
        assert(rl.remove(k)[j].id == id);
        crate::pool::lemma_seq_count_at_least_one(rl.remove(k), j, id);
        assert(false);
    }
}

/// Pop the last worker/// Pop the last worker of function f, user u out of a pool structure.
fn pool_pop(p: &mut Vec<Vec<Vec<Vm>>>, f: usize, u: usize) -> (vm: Vm)
    requires
        f < old(p)@.len(),
        u < old(p)@[f as int]@.len(),
        old(p)@[f as int]@[u as int]@.len() > 0,
    ensures
        vm == pool_view(old(p)@)[f as int][u as int].last(),
        pool_view(final(p)@) == pool_view(old(p)@).update(
            f as int,
            pool_view(old(p)@)[f as int].update(
                u as int,
                pool_view(old(p)@)[f as int][u as int].drop_last(),
            ),
        ),
{
    let ghost p0 = p@;
    let lists = &mut p[f];
    let list = &mut lists[u];
    let vm_opt = list.pop();
    let vm = match vm_opt {
        Some(vm) => vm,
        None => unreached(),
    };
    proof {
        assert(pool_view(p0)[f as int] == lists_view(p0[f as int]@));
        assert(pool_view(p0)[f as int][u as int] == p0[f as int]@[u as int]@);
        assert(final(list)@ =~= p0[f as int]@[u as int]@.drop_last());
        assert(pool_view(p@) =~~= pool_view(p0).update(
            f as int,
            pool_view(p0)[f as int].update(u as int, p0[f as int]@[u as int]@.drop_last()),
        ));
    }
    vm
}

/// Push a worker onto the list of function f, user u of a pool structure.
fn pool_push(p: &mut Vec<Vec<Vec<Vm>>>, f: usize, u: usize, vm: Vm)
    requires
        f < old(p)@.len(),
        u < old(p)@[f as int]@.len(),
    ensures
        pool_view(final(p)@) == pool_view(old(p)@).update(
            f as int,
            pool_view(old(p)@)[f as int].update(
                u as int,
                pool_view(old(p)@)[f as int][u as int].push(vm),
            ),
        ),
{
    let ghost p0 = p@;
    let lists = &mut p[f];
    let list = &mut lists[u];
    list.push(vm);
    proof {
        assert(pool_view(p0)[f as int] == lists_view(p0[f as int]@));
        assert(pool_view(p0)[f as int][u as int] == p0[f as int]@[u as int]@);
        assert(pool_view(p@) =~~= pool_view(p0).update(
            f as int,
            pool_view(p0)[f as int].update(u as int, p0[f as int]@[u as int]@.push(vm)),
        ));
    }
}

/// Remove the worker at index i of the list of function f, user u.
fn pool_remove(p: &mut Vec<Vec<Vec<Vm>>>, f: usize, u: usize, i: usize) -> (vm: Vm)
    requires
        f < old(p)@.len(),
        u < old(p)@[f as int]@.len(),
        i < old(p)@[f as int]@[u as int]@.len(),
    ensures
        vm == pool_view(old(p)@)[f as int][u as int][i as int],
        pool_view(final(p)@) == pool_view(old(p)@).update(
            f as int,
            pool_view(old(p)@)[f as int].update(
                u as int,
                pool_view(old(p)@)[f as int][u as int].remove(i as int),
            ),
        ),
{
    let ghost p0 = p@;
    let lists = &mut p[f];
    let list = &mut lists[u];
    let vm = list.remove(i);
    proof {
        assert(pool_view(p0)[f as int] == lists_view(p0[f as int]@));
        assert(pool_view(p0)[f as int][u as int] == p0[f as int]@[u as int]@);
        assert(pool_view(p@) =~~= pool_view(p0).update(
            f as int,
            pool_view(p0)[f as int].update(u as int, p0[f as int]@[u as int]@.remove(i as int)),
        ));
    }
    vm
}

} // verus!
