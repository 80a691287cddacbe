//! The cluster resource ledger: total and free CPU and memory across the
//! hosts of the (currently single-host) cluster.  Admission control is done
//! on memory alone; the ledger answers "is there a free slot" and performs
//! the allocate/free bookkeeping.

use vstd::prelude::*;

verus! {

/// Physical resources of one host: identifier, total capacity and what is
/// currently free.  Invariant: free never exceeds total.
pub struct MachineInfo {
    pub id: String,
    pub total_cpu: u64,
    pub total_mem: usize,
    pub free_cpu: u64,
    pub free_mem: usize,
}

impl MachineInfo {
    /// Free resources never exceed the host's capacity.
    pub open spec fn wf(&self) -> bool {
        self.free_cpu <= self.total_cpu && self.free_mem <= self.total_mem
    }

    /// Take `req_mem` MB out of this host's free memory.  The caller must
    /// already have checked that the memory is available; violating that is
    /// a programming error, ruled out here by precondition.
    pub fn allocate(&mut self, req_mem: usize)
        requires
            req_mem <= old(self).free_mem,
        ensures
            *final(self) == (MachineInfo { free_mem: (old(self).free_mem - req_mem) as usize, ..*old(self) }),
    {
        self.free_mem = self.free_mem - req_mem;
    }

    /// Return `req_mem` MB to this host's free memory.  Each allocation must
    /// be freed exactly once; freeing memory that was never allocated would
    /// corrupt the `free <= total` invariant and is ruled out by
    /// precondition.
    pub fn free(&mut self, req_mem: usize)
        requires
            old(self).free_mem + req_mem <= old(self).total_mem,
        ensures
            *final(self) == (MachineInfo { free_mem: (old(self).free_mem + req_mem) as usize, ..*old(self) }),
    {
        self.free_mem = self.free_mem + req_mem;
    }
}

impl Clone for MachineInfo {
    fn clone(&self) -> (res: Self)
        ensures
            res == *self,
    {
        MachineInfo {
            id: self.id.clone(),
            total_cpu: self.total_cpu,
            total_mem: self.total_mem,
            free_cpu: self.free_cpu,
            free_mem: self.free_mem,
        }
    }
}

/// The ledger for the whole cluster: the per-host records plus aggregate
/// totals.  `total_free_mem` mirrors the sum of the hosts' free memory; for
/// the single-host clusters built by `Cluster::new` it equals host 0's.
pub struct Cluster {
    pub num_hosts: u32,
    pub host_list: Vec<MachineInfo>,
    pub total_cpu: u64,
    pub total_mem: usize,
    pub total_free_cpu: u64,
    pub total_free_mem: usize,
}

impl Cluster {
    /// Every host is well formed and the aggregate free counts never exceed
    /// the aggregate totals.
    pub open spec fn wf(&self) -> bool {
        &&& self.num_hosts == self.host_list@.len()
        &&& forall|i: int| 0 <= i < self.host_list@.len() ==> (#[trigger] self.host_list@[i]).wf()
        &&& self.total_free_cpu <= self.total_cpu
        &&& self.total_free_mem <= self.total_mem
    }

    /// The cluster consists of exactly one host carrying the given capacity,
    /// with everything free.  The capacity values come from a resource probe
    /// of the machine (or from configuration) and are handed in as plain
    /// numbers.
    pub fn new(total_cpu: u64, total_mem: usize) -> (c: Cluster)
        ensures
            c.wf(),
            c.host_list@.len() == 1,
            c.num_hosts == 1,
            c.total_cpu == total_cpu,
            c.total_mem == total_mem,
            c.total_free_cpu == total_cpu,
            c.total_free_mem == total_mem,
            c.host_list@[0].total_cpu == total_cpu,
            c.host_list@[0].total_mem == total_mem,
            c.host_list@[0].free_cpu == total_cpu,
            c.host_list@[0].free_mem == total_mem,
    {
        let mc = MachineInfo {
            id: "1".to_owned(),
            total_cpu,
            total_mem,
            free_cpu: total_cpu,
            free_mem: total_mem,
        };
        let mut host_list: Vec<MachineInfo> = Vec::new();
        host_list.push(mc);
        Cluster {
            num_hosts: 1,
            host_list,
            total_cpu,
            total_mem,
            total_free_cpu: total_cpu,
            total_free_mem: total_mem,
        }
    }

    /// Find a host with enough free memory to boot a new worker for a
    /// function.  Returns the first qualifying host (linear scan) together
    /// with its record, or none when the cluster is saturated.
    pub fn find_free_machine(&self, req_mem: usize) -> (r: Option<(u32, &MachineInfo)>)
        requires
            self.host_list@.len() <= u32::MAX,
        ensures
            match r {
                Some((i, m)) => {
                    &&& 0 <= i < self.host_list@.len()
                    &&& self.host_list@[i as int].free_mem >= req_mem
                    &&& forall|j: int| 0 <= j < i ==> (#[trigger] self.host_list@[j]).free_mem < req_mem
                    &&& *m == self.host_list@[i as int]
                },
                None => forall|j: int|
                    0 <= j < self.host_list@.len() ==> (#[trigger] self.host_list@[j]).free_mem < req_mem,
            },
    {
        let n = self.host_list.len();
        let mut i: usize = 0;
        while i < n
            invariant
                n == self.host_list@.len(),
                n <= u32::MAX,
                0 <= i <= n,
                forall|j: int| 0 <= j < i ==> (#[trigger] self.host_list@[j]).free_mem < req_mem,
            decreases n - i,
        {
            if self.host_list[i].free_mem >= req_mem {
                return Some((i as u32, &self.host_list[i]));
            }
            i = i + 1;
        }
        None
    }

    /// Deduct `req_mem` MB from host `id` and from the aggregate free
    /// memory.  The caller must already have verified sufficient free
    /// memory (for instance via `find_free_machine`); there is no internal
    /// check.
    pub fn allocate(&mut self, id: u32, req_mem: usize)
        requires
            id < old(self).host_list@.len(),
            req_mem <= old(self).host_list@[id as int].free_mem,
            req_mem <= old(self).total_free_mem,
        ensures
            final(self).host_list@ == old(self).host_list@.update(
                id as int,
                MachineInfo {
                    free_mem: (old(self).host_list@[id as int].free_mem - req_mem) as usize,
                    ..old(self).host_list@[id as int]
                },
            ),
            final(self).total_free_mem == old(self).total_free_mem - req_mem,
            final(self).num_hosts == old(self).num_hosts,
            final(self).total_cpu == old(self).total_cpu,
            final(self).total_mem == old(self).total_mem,
            final(self).total_free_cpu == old(self).total_free_cpu,
            old(self).wf() ==> final(self).wf(),
    {
        self.total_free_mem = self.total_free_mem - req_mem;
        let host = &mut self.host_list[id as usize];
        host.allocate(req_mem);
    }

    /// The aggregate free CPU and memory of the cluster.
    pub fn free_resources(&self) -> (r: (u64, usize))
        ensures
            r == (self.total_free_cpu, self.total_free_mem),
    {
        (self.total_free_cpu, self.total_free_mem)
    }

    /// Credit `mem` MB back to host `id` and to the aggregate free memory,
    /// symmetrically to `allocate`.  Freeing memory that was not previously
    /// allocated would break `free <= total` and is excluded by
    /// precondition: each allocation is freed exactly once, which the worker
    /// lifecycle guarantees by construction.
    pub fn free(&mut self, id: u32, mem: usize)
        requires
            id < old(self).host_list@.len(),
            old(self).host_list@[id as int].free_mem + mem
                <= old(self).host_list@[id as int].total_mem,
            old(self).total_free_mem + mem <= old(self).total_mem,
        ensures
            final(self).host_list@ == old(self).host_list@.update(
                id as int,
                MachineInfo {
                    free_mem: (old(self).host_list@[id as int].free_mem + mem) as usize,
                    ..old(self).host_list@[id as int]
                },
            ),
            final(self).total_free_mem == old(self).total_free_mem + mem,
            final(self).num_hosts == old(self).num_hosts,
            final(self).total_cpu == old(self).total_cpu,
            final(self).total_mem == old(self).total_mem,
            final(self).total_free_cpu == old(self).total_free_cpu,
            old(self).wf() ==> final(self).wf(),
    {
        self.total_free_mem = self.total_free_mem + mem;
        let host = &mut self.host_list[id as usize];
        host.free(mem);
    }
}


impl Clone for Cluster {
    fn clone(&self) -> (res: Self)
        ensures
            res.num_hosts == self.num_hosts,
            res.host_list@ == self.host_list@,
            res.total_cpu == self.total_cpu,
            res.total_mem == self.total_mem,
            res.total_free_cpu == self.total_free_cpu,
            res.total_free_mem == self.total_free_mem,
            res.wf() == self.wf(),
    {
        let n = self.host_list.len();
        let mut host_list: Vec<MachineInfo> = Vec::new();
        let mut i: usize = 0;
        while i < n
            invariant
                n == self.host_list@.len(),
                0 <= i <= n,
                host_list@.len() == i,
                forall|j: int| 0 <= j < i ==> host_list@[j] == self.host_list@[j],
            decreases n - i,
        {
            host_list.push(self.host_list[i].clone());
            i = i + 1;
        }
        proof {
            assert(host_list@ =~= self.host_list@);
        }
        Cluster {
            num_hosts: self.num_hosts,
            host_list,
            total_cpu: self.total_cpu,
            total_mem: self.total_mem,
            total_free_cpu: self.total_free_cpu,
            total_free_mem: self.total_free_mem,
        }
    }
}

/// Whether a byte is an ASCII decimal digit.
pub open spec fn is_digit_byte(b: u8) -> bool {
    0x30 <= b <= 0x39
}

/// The bytes of the key "MemTotal:" that opens the total-memory line of
/// the kernel's memory report.
pub open spec fn mem_total_key() -> Seq<u8> {
    seq![0x4du8, 0x65u8, 0x6du8, 0x54u8, 0x6fu8, 0x74u8, 0x61u8, 0x6cu8, 0x3au8]
}

/// The first position at or after i that does not hold a space or tab.
pub open spec fn spaces_end(s: Seq<u8>, i: int) -> int
    decreases s.len() - i,
{
    if i < 0 || i >= s.len() || !(s[i] == 0x20 || s[i] == 0x09) {
        i
    } else {
        spaces_end(s, i + 1)
    }
}

/// The first position at or after i that does not hold a digit.
pub open spec fn digits_end(s: Seq<u8>, i: int) -> int
    decreases s.len() - i,
{
    if i < 0 || i >= s.len() || !is_digit_byte(s[i]) {
        i
    } else {
        digits_end(s, i + 1)
    }
}

/// The number the digits s[i..j] spell in decimal.
pub open spec fn digit_run_value(s: Seq<u8>, i: int, j: int) -> int
    decreases j - i,
{
    if j <= i {
        0
    } else {
        digit_run_value(s, i, j - 1) * 10 + (s[j - 1] - 0x30)
    }
}

/// What a line of the kernel's memory report says the total memory is:
/// the decimal number after the "MemTotal:" key and any blanks, or
/// nothing if the line is not the total-memory line or carries no number.
pub open spec fn line_mem_total_kb(s: Seq<u8>) -> Option<int> {
    if s.len() < 9 || s.subrange(0, 9) != mem_total_key() {
        None
    } else {
        let i = spaces_end(s, 9);
        let j = digits_end(s, i);
        if j <= i {
            None
        } else {
            Some(digit_run_value(s, i, j))
        }
    }
}

/// Whether every byte of s[i..j] is a digit (vacuously, when the range
/// is empty).
pub open spec fn all_digits(s: Seq<u8>, i: int, j: int) -> bool
    decreases j - i,
{
    j <= i || (0 <= j - 1 < s.len() && is_digit_byte(s[j - 1]) && all_digits(s, i, j - 1))
}

/// A nonempty digit range starts with a digit, and the rest is digits.
proof fn lemma_all_digits_first(s: Seq<u8>, i: int, j: int)
    requires
        all_digits(s, i, j),
        i < j,
    ensures
        0 <= i < s.len(),
        is_digit_byte(s[i]),
        all_digits(s, i + 1, j),
    decreases j - i,
{
    if i + 1 < j {
        lemma_all_digits_first(s, i, j - 1);
    }
}

/// A digit range stays one when its start moves forward.
proof fn lemma_all_digits_from(s: Seq<u8>, i: int, i2: int, j: int)
    requires
        all_digits(s, i, j),
        i <= i2,
    ensures
        all_digits(s, i2, j),
    decreases j - i,
{
    if i < i2 && i < j {
        lemma_all_digits_first(s, i, j);
        lemma_all_digits_from(s, i + 1, i2, j);
    }
}

/// A digit range grows by one digit at its start.
proof fn lemma_all_digits_extend_lower(s: Seq<u8>, i: int, j: int)
    requires
        0 <= i < s.len(),
        is_digit_byte(s[i]),
        all_digits(s, i + 1, j),
    ensures
        all_digits(s, i, j),
    decreases j - i,
{
    if j <= i {
    } else if j == i + 1 {
        assert(all_digits(s, i, i));
    } else {
        lemma_all_digits_extend_lower(s, i, j - 1);
    }
}

/// The end of a digit run never lies before its start.
proof fn lemma_digits_end_ge(s: Seq<u8>, i: int)
    ensures
        digits_end(s, i) >= i,
    decreases s.len() - i,
{
    if 0 <= i < s.len() && is_digit_byte(s[i]) {
        lemma_digits_end_ge(s, i + 1);
    }
}

/// Everything from a position to the end of its digit run is digits.
proof fn lemma_all_digits_of_end(s: Seq<u8>, i: int)
    ensures
        all_digits(s, i, digits_end(s, i)),
    decreases s.len() - i,
{
    if 0 <= i < s.len() && is_digit_byte(s[i]) {
        lemma_all_digits_of_end(s, i + 1);
        lemma_digits_end_ge(s, i + 1);
        lemma_all_digits_extend_lower(s, i, digits_end(s, i + 1));
    }
}

/// A digit run extends past any digit position reached over digits.
proof fn lemma_digits_end_past(s: Seq<u8>, i: int, j: int)
    requires
        0 <= i <= j < s.len(),
        all_digits(s, i, j),
        is_digit_byte(s[j]),
    ensures
        digits_end(s, i) >= j + 1,
    decreases j - i,
{
    if i < j {
        lemma_all_digits_first(s, i, j);
        lemma_digits_end_past(s, i + 1, j);
    } else {
        lemma_digits_end_ge(s, i + 1);
    }
}

/// A digit range bounded by a non-digit (or the end of the bytes) is
/// exactly a digit run.
proof fn lemma_digits_end_exact(s: Seq<u8>, i: int, j: int)
    requires
        0 <= i <= j <= s.len(),
        all_digits(s, i, j),
        j == s.len() || !is_digit_byte(s[j]),
    ensures
        digits_end(s, i) == j,
    decreases j - i,
{
    if i < j {
        lemma_all_digits_first(s, i, j);
        lemma_digits_end_exact(s, i + 1, j);
    }
}

/// Digit runs spell nonnegative numbers.
proof fn lemma_digit_run_value_nonneg(s: Seq<u8>, i: int, j: int)
    requires
        all_digits(s, i, j),
    ensures
        digit_run_value(s, i, j) >= 0,
    decreases j - i,
{
    if j > i {
        lemma_digit_run_value_nonneg(s, i, j - 1);
        assert(digit_run_value(s, i, j - 1) * 10 >= 0) by (nonlinear_arith)
            requires
                digit_run_value(s, i, j - 1) >= 0,
        ;
    }
}

/// A longer digit run never spells a smaller number.
proof fn lemma_digit_run_value_monotone(s: Seq<u8>, i: int, j1: int, j2: int)
    requires
        i <= j1 <= j2,
        all_digits(s, j1, j2),
        digit_run_value(s, i, j1) >= 0,
    ensures
        digit_run_value(s, i, j2) >= digit_run_value(s, i, j1),
    decreases j2 - j1,
{
    if j1 < j2 {
        lemma_digit_run_value_monotone(s, i, j1, j2 - 1);
        assert(digit_run_value(s, i, j2 - 1) * 10 >= digit_run_value(s, i, j2 - 1)) by (
        nonlinear_arith)
            requires
                digit_run_value(s, i, j2 - 1) >= 0,
        ;
    }
}

/// Read the total-memory amount (in kB) out of one line of the kernel's
/// memory report, as `line_mem_total_kb` describes it; a number too large
/// for u64 -- no real report carries one -- is treated as absent.
pub fn mem_total_from_line(line: &[u8]) -> (r: Option<u64>)
    ensures
        match r {
            Some(v) => line_mem_total_kb(line@) == Some(v as int),
            None => line_mem_total_kb(line@).is_none() || line_mem_total_kb(line@)->Some_0
                > u64::MAX,
        },
{
    let n = line.len();
    if n < 9 {
        return None;
    }
    if !(line[0] == 0x4d && line[1] == 0x65 && line[2] == 0x6d && line[3] == 0x54 && line[4]
        == 0x6f && line[5] == 0x74 && line[6] == 0x61 && line[7] == 0x6c && line[8] == 0x3a) {
        proof {
            if line@.subrange(0, 9) == mem_total_key() {
                assert(line@[0] == line@.subrange(0, 9)[0]);
                assert(line@[1] == line@.subrange(0, 9)[1]);
                assert(line@[2] == line@.subrange(0, 9)[2]);
                assert(line@[3] == line@.subrange(0, 9)[3]);
                assert(line@[4] == line@.subrange(0, 9)[4]);
                assert(line@[5] == line@.subrange(0, 9)[5]);
                assert(line@[6] == line@.subrange(0, 9)[6]);
                assert(line@[7] == line@.subrange(0, 9)[7]);
                assert(line@[8] == line@.subrange(0, 9)[8]);
            }
        }
        return None;
    }
    proof {
        assert(line@.subrange(0, 9) =~= mem_total_key());
    }
    let mut i: usize = 9;
    while i < n && (line[i] == 0x20 || line[i] == 0x09)
        invariant
            n == line@.len(),
            n >= 9,
            line@.subrange(0, 9) == mem_total_key(),
            9 <= i <= n,
            spaces_end(line@, 9) == spaces_end(line@, i as int),
        decreases n - i,
    {
        i = i + 1;
    }
    proof {
        assert(spaces_end(line@, i as int) == i as int);
    }
    let start = i;
    let mut v: u64 = 0;
    let mut j = i;
    while j < n && 0x30 <= line[j] && line[j] <= 0x39
        invariant
            n == line@.len(),
            n >= 9,
            line@.subrange(0, 9) == mem_total_key(),
            9 <= start <= n,
            start == spaces_end(line@, 9),
            start <= j <= n,
            all_digits(line@, start as int, j as int),
            v == digit_run_value(line@, start as int, j as int),
        decreases n - j,
    {
        let d = line[j] - 0x30;
        if v > (u64::MAX - d as u64) / 10 {
            proof {
                let sq = line@;
                let st = start as int;
                let ji = j as int;
                lemma_digits_end_past(sq, st, ji);
                let dend = digits_end(sq, st);
                lemma_all_digits_of_end(sq, st);
                lemma_all_digits_from(sq, st, ji + 1, dend);
                lemma_digit_run_value_nonneg(sq, st, ji);
                assert(v * 10 + d > u64::MAX) by (nonlinear_arith)
                    requires
                        v > (u64::MAX - d as u64) / 10,
                        0 <= d <= 9,
                        v >= 0,
                ;
                assert(digit_run_value(sq, st, ji + 1) == v * 10 + d);
                lemma_digit_run_value_monotone(sq, st, ji + 1, dend);
                assert(line_mem_total_kb(sq) == Some(digit_run_value(sq, st, dend)));
            }
            return None;
        }
        v = v * 10 + d as u64;
        j = j + 1;
    }
    proof {
        lemma_digits_end_exact(line@, start as int, j as int);
    }
    if j == start {
        return None;
    }
    Some(v)
}

/// The memory workers may use, from the probed total: the total in MB
/// less a fixed reserve of 4096 MB kept for the host itself.
pub fn usable_mem_mb(mem_total_kb: u64) -> (r: usize)
    requires
        mem_total_kb / 1024 >= 4096,
        mem_total_kb / 1024 - 4096 <= usize::MAX,
    ensures
        r == mem_total_kb / 1024 - 4096,
{
    ((mem_total_kb / 1024) - 4096) as usize
}


} // verus!
