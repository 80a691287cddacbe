//! The worker pools: for each function, and for each user of that function,
//! a list of workers.  The scheduler keeps two such structures, `idle` and
//! `running`.  This module defines the abstract view of a pool structure and
//! the measures the scheduler's invariants are stated over: how often a
//! worker id occurs anywhere in a pool structure, how many workers a
//! function has pooled, and how much ledger memory a pool structure
//! accounts for.

use vstd::prelude::*;
use crate::config::FunctionConfig;

verus! {

/// A scheduled worker as the control plane sees it: its unique id.  The
/// transport channel and the process handle that belong to this id live
/// outside the library, keyed by the id.
#[derive(Clone, Copy, PartialEq, Eq, Structural, Debug)]
pub struct Vm {
    pub id: u32,
}

/// The abstract value of the per-user lists of one function.
pub open spec fn lists_view(s: Seq<Vec<Vm>>) -> Seq<Seq<Vm>> {
    Seq::new(s.len(), |u: int| s[u]@)
}

/// The abstract value of a whole pool structure: function index, then user
/// id, then the list of workers.
pub open spec fn pool_view(p: Seq<Vec<Vec<Vm>>>) -> Seq<Seq<Seq<Vm>>> {
    Seq::new(p.len(), |f: int| lists_view(p[f]@))
}

/// How often id occurs in one worker list.
pub open spec fn seq_count_id(s: Seq<Vm>, id: u32) -> int
    decreases s.len(),
{
    if s.len() == 0 {
        0
    } else {
        seq_count_id(s.drop_last(), id) + if s.last().id == id {
            1int
        } else {
            0int
        }
    }
}

/// How often id occurs across the per-user lists of one function.
pub open spec fn lists_count_id(s: Seq<Seq<Vm>>, id: u32) -> int
    decreases s.len(),
{
    if s.len() == 0 {
        0
    } else {
        lists_count_id(s.drop_last(), id) + seq_count_id(s.last(), id)
    }
}

/// How often id occurs anywhere in a pool structure.
pub open spec fn pool_count_id(p: Seq<Seq<Seq<Vm>>>, id: u32) -> int
    decreases p.len(),
{
    if p.len() == 0 {
        0
    } else {
        pool_count_id(p.drop_last(), id) + lists_count_id(p.last(), id)
    }
}

/// How many workers one function has pooled, over all its users.
pub open spec fn lists_size(s: Seq<Seq<Vm>>) -> int
    decreases s.len(),
{
    if s.len() == 0 {
        0
    } else {
        lists_size(s.drop_last()) + s.last().len()
    }
}

/// How much ledger memory the workers of a pool structure account for:
/// each pooled worker of function f stands for `configs[f].memory` MB.
/// Measured from function index `from` on.
pub open spec fn pool_mem_from(p: Seq<Seq<Seq<Vm>>>, configs: Seq<FunctionConfig>, from: int) -> int
    decreases p.len() - from,
{
    if from < 0 || from >= p.len() {
        0
    } else {
        configs[from].memory * lists_size(p[from]) + pool_mem_from(p, configs, from + 1)
    }
}

/// The memory accounted for by a whole pool structure.
pub open spec fn pool_mem(p: Seq<Seq<Seq<Vm>>>, configs: Seq<FunctionConfig>) -> int {
    pool_mem_from(p, configs, 0)
}

/// How many workers a whole pool structure holds.
pub open spec fn pool_size(p: Seq<Seq<Seq<Vm>>>) -> int
    decreases p.len(),
{
    if p.len() == 0 {
        0
    } else {
        pool_size(p.drop_last()) + lists_size(p.last())
    }
}

/// Updating one function's lists changes the pool size by the size
/// difference.
pub proof fn lemma_pool_size_update(p: Seq<Seq<Seq<Vm>>>, f: int, nf: Seq<Seq<Vm>>)
    requires
        0 <= f < p.len(),
    ensures
        pool_size(p.update(f, nf)) == pool_size(p) - lists_size(p[f]) + lists_size(nf),
    decreases p.len(),
{
    if f == p.len() - 1 {
        assert(p.update(f, nf).drop_last() =~= p.drop_last());
        assert(p.update(f, nf).last() == nf);
    } else {
        assert(p.update(f, nf).drop_last() =~= p.drop_last().update(f, nf));
        assert(p.update(f, nf).last() == p.last());
        lemma_pool_size_update(p.drop_last(), f, nf);
    }
}

/// A function's size contributes to the pool size.
pub proof fn lemma_pool_size_member(p: Seq<Seq<Seq<Vm>>>, f: int)
    ensures
        pool_size(p) >= 0,
        0 <= f < p.len() ==> pool_size(p) >= lists_size(p[f]),
    decreases p.len(),
{
    if p.len() > 0 {
        lemma_lists_size_nonneg(p.last());
        if f == p.len() - 1 {
            lemma_pool_size_member(p.drop_last(), -1);
        } else {
            lemma_pool_size_member(p.drop_last(), f);
        }
    }
}

/// A prefix of the per-user lists never holds more workers than the whole.
pub proof fn lemma_lists_size_prefix(s: Seq<Seq<Vm>>, k: int)
    requires
        0 <= k <= s.len(),
    ensures
        0 <= lists_size(s.subrange(0, k)) <= lists_size(s),
    decreases s.len() - k,
{
    if k == s.len() {
        assert(s.subrange(0, k) =~= s);
        lemma_lists_size_nonneg(s);
    } else {
        assert(s.subrange(0, k + 1).drop_last() =~= s.subrange(0, k));
        assert(s.subrange(0, k + 1).last() == s[k]);
        lemma_lists_size_nonneg(s.subrange(0, k));
        lemma_lists_size_prefix(s, k + 1);
    }
}

/// Extending a prefix of the per-user lists by one adds that list's length.
pub proof fn lemma_lists_size_prefix_step(s: Seq<Seq<Vm>>, k: int)
    requires
        0 <= k < s.len(),
    ensures
        lists_size(s.subrange(0, k + 1)) == lists_size(s.subrange(0, k)) + s[k].len(),
{
    assert(s.subrange(0, k + 1).drop_last() =~= s.subrange(0, k));
    assert(s.subrange(0, k + 1).last() == s[k]);
}

/// A prefix of a pool structure never holds more workers than the whole.
pub proof fn lemma_pool_size_prefix(p: Seq<Seq<Seq<Vm>>>, k: int)
    requires
        0 <= k <= p.len(),
    ensures
        0 <= pool_size(p.subrange(0, k)) <= pool_size(p),
    decreases p.len() - k,
{
    if k == p.len() {
        assert(p.subrange(0, k) =~= p);
        lemma_pool_size_member(p, -1);
    } else {
        assert(p.subrange(0, k + 1).drop_last() =~= p.subrange(0, k));
        assert(p.subrange(0, k + 1).last() == p[k]);
        lemma_lists_size_nonneg(p[k]);
        lemma_pool_size_nonneg_prefix(p, k);
        lemma_pool_size_prefix(p, k + 1);
    }
}

proof fn lemma_pool_size_nonneg_prefix(p: Seq<Seq<Seq<Vm>>>, k: int)
    requires
        0 <= k <= p.len(),
    ensures
        pool_size(p.subrange(0, k)) >= 0,
    decreases k,
{
    if k > 0 {
        assert(p.subrange(0, k).drop_last() =~= p.subrange(0, k - 1));
        assert(p.subrange(0, k).last() == p[k - 1]);
        lemma_lists_size_nonneg(p[k - 1]);
        lemma_pool_size_nonneg_prefix(p, k - 1);
    }
}

/// Extending a prefix of a pool structure by one function adds that
/// function's size.
pub proof fn lemma_pool_size_prefix_step(p: Seq<Seq<Seq<Vm>>>, k: int)
    requires
        0 <= k < p.len(),
    ensures
        pool_size(p.subrange(0, k + 1)) == pool_size(p.subrange(0, k)) + lists_size(p[k]),
{
    assert(p.subrange(0, k + 1).drop_last() =~= p.subrange(0, k));
    assert(p.subrange(0, k + 1).last() == p[k]);
}

/// A pool structure whose lists are all empty holds no workers, counts no
/// id, and accounts for no memory.
pub proof fn lemma_lists_all_empty(s: Seq<Seq<Vm>>, id: u32)
    requires
        forall|u: int| 0 <= u < s.len() ==> (#[trigger] s[u]).len() == 0,
    ensures
        lists_count_id(s, id) == 0,
        lists_size(s) == 0,
    decreases s.len(),
{
    if s.len() > 0 {
        assert(s.last().len() == 0);
        assert(forall|u: int| 0 <= u < s.drop_last().len() ==> (#[trigger] s.drop_last()[u]).len()
            == 0);
        lemma_lists_all_empty(s.drop_last(), id);
    }
}

/// See `lemma_lists_all_empty`, lifted to a whole pool structure.
pub proof fn lemma_pool_all_empty(p: Seq<Seq<Seq<Vm>>>, configs: Seq<FunctionConfig>, id: u32)
    requires
        forall|f: int, u: int|
            0 <= f < p.len() && 0 <= u < p[f].len() ==> (#[trigger] p[f][u]).len() == 0,
    ensures
        pool_count_id(p, id) == 0,
        pool_size(p) == 0,
        pool_mem(p, configs) == 0,
{
    lemma_pool_all_empty_count(p, id);
    lemma_pool_all_empty_mem_from(p, configs, 0);
}

proof fn lemma_pool_all_empty_count(p: Seq<Seq<Seq<Vm>>>, id: u32)
    requires
        forall|f: int, u: int|
            0 <= f < p.len() && 0 <= u < p[f].len() ==> (#[trigger] p[f][u]).len() == 0,
    ensures
        pool_count_id(p, id) == 0,
        pool_size(p) == 0,
    decreases p.len(),
{
    if p.len() > 0 {
        lemma_lists_all_empty(p.last(), id);
        assert(forall|f: int, u: int|
            0 <= f < p.drop_last().len() && 0 <= u < p.drop_last()[f].len() ==> (
            #[trigger] p.drop_last()[f][u]).len() == 0);
        lemma_pool_all_empty_count(p.drop_last(), id);
    }
}

proof fn lemma_pool_all_empty_mem_from(p: Seq<Seq<Seq<Vm>>>, configs: Seq<FunctionConfig>, from: int)
    requires
        forall|f: int, u: int|
            0 <= f < p.len() && 0 <= u < p[f].len() ==> (#[trigger] p[f][u]).len() == 0,
    ensures
        pool_mem_from(p, configs, from) == 0,
    decreases p.len() - from,
{
    if 0 <= from < p.len() {
        lemma_lists_all_empty(p[from], 0);
        lemma_pool_all_empty_mem_from(p, configs, from + 1);
    }
}

/// Occurrence counts are never negative.
pub proof fn lemma_seq_count_nonneg(s: Seq<Vm>, id: u32)
    ensures
        seq_count_id(s, id) >= 0,
    decreases s.len(),
{
    if s.len() > 0 {
        lemma_seq_count_nonneg(s.drop_last(), id);
    }
}

pub proof fn lemma_lists_count_nonneg(s: Seq<Seq<Vm>>, id: u32)
    ensures
        lists_count_id(s, id) >= 0,
    decreases s.len(),
{
    if s.len() > 0 {
        lemma_lists_count_nonneg(s.drop_last(), id);
        lemma_seq_count_nonneg(s.last(), id);
    }
}

pub proof fn lemma_pool_count_nonneg(p: Seq<Seq<Seq<Vm>>>, id: u32)
    ensures
        pool_count_id(p, id) >= 0,
    decreases p.len(),
{
    if p.len() > 0 {
        lemma_pool_count_nonneg(p.drop_last(), id);
        lemma_lists_count_nonneg(p.last(), id);
    }
}

/// Appending one worker adds one occurrence of its id.
pub proof fn lemma_seq_count_push(s: Seq<Vm>, v: Vm, id: u32)
    ensures
        seq_count_id(s.push(v), id) == seq_count_id(s, id) + if v.id == id {
            1int
        } else {
            0int
        },
{
    assert(s.push(v).drop_last() =~= s);
}

/// Removing the element at index i removes one occurrence of its id.
pub proof fn lemma_seq_count_remove(s: Seq<Vm>, i: int, id: u32)
    requires
        0 <= i < s.len(),
    ensures
        seq_count_id(s.remove(i), id) == seq_count_id(s, id) - if s[i].id == id {
            1int
        } else {
            0int
        },
    decreases s.len(),
{
    if i == s.len() - 1 {
        assert(s.remove(i) =~= s.drop_last());
    } else {
        assert(s.remove(i).drop_last() =~= s.drop_last().remove(i));
        assert(s.remove(i).last() == s.last());
        lemma_seq_count_remove(s.drop_last(), i, id);
    }
}

/// An element present at index i contributes an occurrence.
pub proof fn lemma_seq_count_at_least_one(s: Seq<Vm>, i: int, id: u32)
    requires
        0 <= i < s.len(),
        s[i].id == id,
    ensures
        seq_count_id(s, id) >= 1,
    decreases s.len(),
{
    if i == s.len() - 1 {
        lemma_seq_count_nonneg(s.drop_last(), id);
    } else {
        lemma_seq_count_at_least_one(s.drop_last(), i, id);
    }
}

/// Two occurrences at distinct indices contribute a count of at least two.
pub proof fn lemma_seq_count_at_least_two(s: Seq<Vm>, i: int, j: int, id: u32)
    requires
        0 <= i < s.len(),
        0 <= j < s.len(),
        i != j,
        s[i].id == id,
        s[j].id == id,
    ensures
        seq_count_id(s, id) >= 2,
    decreases s.len(),
{
    if i == s.len() - 1 {
        lemma_seq_count_at_least_one(s.drop_last(), j, id);
    } else if j == s.len() - 1 {
        lemma_seq_count_at_least_one(s.drop_last(), i, id);
    } else {
        lemma_seq_count_at_least_two(s.drop_last(), i, j, id);
    }
}

/// Updating one user's list changes the function's count by the difference
/// of the two lists' counts, and its size by the difference of the lengths.
pub proof fn lemma_lists_update(s: Seq<Seq<Vm>>, u: int, nl: Seq<Vm>, id: u32)
    requires
        0 <= u < s.len(),
    ensures
        lists_count_id(s.update(u, nl), id) == lists_count_id(s, id) - seq_count_id(s[u], id)
            + seq_count_id(nl, id),
        lists_size(s.update(u, nl)) == lists_size(s) - s[u].len() + nl.len(),
    decreases s.len(),
{
    if u == s.len() - 1 {
        assert(s.update(u, nl).drop_last() =~= s.drop_last());
        assert(s.update(u, nl).last() == nl);
    } else {
        assert(s.update(u, nl).drop_last() =~= s.drop_last().update(u, nl));
        assert(s.update(u, nl).last() == s.last());
        lemma_lists_update(s.drop_last(), u, nl, id);
    }
}

/// A user's list contributes its count to the function's count.
pub proof fn lemma_lists_count_member(s: Seq<Seq<Vm>>, u: int, id: u32)
    requires
        0 <= u < s.len(),
    ensures
        lists_count_id(s, id) >= seq_count_id(s[u], id),
    decreases s.len(),
{
    if u == s.len() - 1 {
        lemma_lists_count_nonneg(s.drop_last(), id);
        lemma_seq_count_nonneg(s.last(), id);
    } else {
        lemma_lists_count_member(s.drop_last(), u, id);
        lemma_seq_count_nonneg(s.last(), id);
    }
}

/// Sizes are never negative.
pub proof fn lemma_lists_size_nonneg(s: Seq<Seq<Vm>>)
    ensures
        lists_size(s) >= 0,
    decreases s.len(),
{
    if s.len() > 0 {
        lemma_lists_size_nonneg(s.drop_last());
    }
}

/// Updating one function's per-user lists changes the pool count by the
/// difference of the function counts.
pub proof fn lemma_pool_count_update(p: Seq<Seq<Seq<Vm>>>, f: int, nf: Seq<Seq<Vm>>, id: u32)
    requires
        0 <= f < p.len(),
    ensures
        pool_count_id(p.update(f, nf), id) == pool_count_id(p, id) - lists_count_id(p[f], id)
            + lists_count_id(nf, id),
    decreases p.len(),
{
    if f == p.len() - 1 {
        assert(p.update(f, nf).drop_last() =~= p.drop_last());
        assert(p.update(f, nf).last() == nf);
    } else {
        assert(p.update(f, nf).drop_last() =~= p.drop_last().update(f, nf));
        assert(p.update(f, nf).last() == p.last());
        lemma_pool_count_update(p.drop_last(), f, nf, id);
    }
}

/// A function's count contributes to the pool count.
pub proof fn lemma_pool_count_member(p: Seq<Seq<Seq<Vm>>>, f: int, id: u32)
    requires
        0 <= f < p.len(),
    ensures
        pool_count_id(p, id) >= lists_count_id(p[f], id),
    decreases p.len(),
{
    if f == p.len() - 1 {
        lemma_pool_count_nonneg(p.drop_last(), id);
        lemma_lists_count_nonneg(p.last(), id);
    } else {
        lemma_pool_count_member(p.drop_last(), f, id);
        lemma_lists_count_nonneg(p.last(), id);
    }
}

/// Updating one function's lists changes the accounted memory by that
/// function's memory requirement times the size difference.  The suffix
/// sums from any starting point relate in the same way.
pub proof fn lemma_pool_mem_update_from(
    p: Seq<Seq<Seq<Vm>>>,
    configs: Seq<FunctionConfig>,
    f: int,
    nf: Seq<Seq<Vm>>,
    from: int,
)
    requires
        0 <= f < p.len(),
        0 <= from,
    ensures
        from <= f ==> pool_mem_from(p.update(f, nf), configs, from) == pool_mem_from(
            p,
            configs,
            from,
        ) - configs[f].memory * lists_size(p[f]) + configs[f].memory * lists_size(nf),
        from > f ==> pool_mem_from(p.update(f, nf), configs, from) == pool_mem_from(
            p,
            configs,
            from,
        ),
    decreases p.len() - from,
{
    if from < 0 || from >= p.len() {
    } else {
        lemma_pool_mem_update_from(p, configs, f, nf, from + 1);
    }
}

/// Updating one function's lists changes the accounted memory by that
/// function's memory requirement times the size difference.
pub proof fn lemma_pool_mem_update(
    p: Seq<Seq<Seq<Vm>>>,
    configs: Seq<FunctionConfig>,
    f: int,
    nf: Seq<Seq<Vm>>,
)
    requires
        0 <= f < p.len(),
    ensures
        pool_mem(p.update(f, nf), configs) == pool_mem(p, configs) - configs[f].memory
            * lists_size(p[f]) + configs[f].memory * lists_size(nf),
{
    lemma_pool_mem_update_from(p, configs, f, nf, 0);
}

/// Every suffix of the accounted memory is at least one function's share,
/// and never negative.
pub proof fn lemma_pool_mem_member_from(
    p: Seq<Seq<Seq<Vm>>>,
    configs: Seq<FunctionConfig>,
    f: int,
    from: int,
)
    requires
        0 <= from,
    ensures
        pool_mem_from(p, configs, from) >= 0,
        from <= f < p.len() ==> pool_mem_from(p, configs, from) >= configs[f].memory * lists_size(
            p[f],
        ),
    decreases p.len() - from,
{
    if from >= p.len() {
    } else {
        lemma_pool_mem_member_from(p, configs, f, from + 1);
        lemma_lists_size_nonneg(p[from]);
        assert(configs[from].memory * lists_size(p[from]) >= 0) by (nonlinear_arith)
            requires
                lists_size(p[from]) >= 0,
                configs[from].memory >= 0,
        ;
    }
}

/// The accounted memory is at least one function's share, and never
/// negative.
pub proof fn lemma_pool_mem_member(p: Seq<Seq<Seq<Vm>>>, configs: Seq<FunctionConfig>, f: int)
    ensures
        pool_mem(p, configs) >= 0,
        0 <= f < p.len() ==> pool_mem(p, configs) >= configs[f].memory * lists_size(p[f]),
{
    lemma_pool_mem_member_from(p, configs, f, 0);
}


/// The effect of replacing the list of function f, user u by `nl`: every
/// id count, the pool size and the accounted memory change by the
/// difference between the old and the new list; everything else stays.
pub proof fn lemma_pool_replace(
    p: Seq<Seq<Seq<Vm>>>,
    configs: Seq<FunctionConfig>,
    f: int,
    u: int,
    nl: Seq<Vm>,
)
    requires
        0 <= f < p.len(),
        0 <= u < p[f].len(),
    ensures
        forall|id: u32|
            #![trigger pool_count_id(p.update(f, p[f].update(u, nl)), id)]
            pool_count_id(p.update(f, p[f].update(u, nl)), id) == pool_count_id(p, id)
                - seq_count_id(p[f][u], id) + seq_count_id(nl, id),
        pool_size(p.update(f, p[f].update(u, nl))) == pool_size(p) - p[f][u].len() + nl.len(),
        pool_mem(p.update(f, p[f].update(u, nl)), configs) == pool_mem(p, configs) - configs[f].memory
            * p[f][u].len() + configs[f].memory * nl.len(),
{
    let nf = p[f].update(u, nl);
    let p2 = p.update(f, nf);
    assert forall|id: u32|
        #![trigger pool_count_id(p2, id)]
        pool_count_id(p2, id) == pool_count_id(p, id) - seq_count_id(p[f][u], id) + seq_count_id(
            nl,
            id,
        ) by {
        lemma_lists_update(p[f], u, nl, id);
        lemma_pool_count_update(p, f, nf, id);
    }
    lemma_lists_update(p[f], u, nl, 0);
    lemma_pool_size_update(p, f, nf);
    lemma_pool_mem_update(p, configs, f, nf);
    assert(configs[f].memory * lists_size(nf) == configs[f].memory * lists_size(p[f]) - configs[f].memory
        * p[f][u].len() + configs[f].memory * nl.len()) by (nonlinear_arith)
        requires
            lists_size(nf) == lists_size(p[f]) - p[f][u].len() + nl.len(),
    ;
}

/// A worker at a valid position contributes an occurrence of its id to the
/// pool count.
pub proof fn lemma_pool_count_occurrence(p: Seq<Seq<Seq<Vm>>>, f: int, u: int, i: int, id: u32)
    requires
        0 <= f < p.len(),
        0 <= u < p[f].len(),
        0 <= i < p[f][u].len(),
        p[f][u][i].id == id,
    ensures
        pool_count_id(p, id) >= 1,
{
    lemma_seq_count_at_least_one(p[f][u], i, id);
    lemma_lists_count_member(p[f], u, id);
    lemma_pool_count_member(p, f, id);
}


} // verus!
