//! The operation scheduler: operations are grouped into one FIFO queue per
//! module, and whole queues are handed out for execution under two rules —
//! never more modules in flight than the parallelism limit, and never a
//! module that is already executing.  Same-module operations therefore run
//! strictly in submission order; distinct modules may overlap.
//!
//! `begin_next_module` / `finish_module` are the decision steps a concurrent
//! driver serializes around its own lock; `run_with` is the built-in
//! sequential driver, used directly and by `wait_for_completion`.

use vstd::prelude::*;
use crate::errors::SolarboatError;
use crate::operations::{
    process_single_operation, OperationResult, TerraformOperation, TerraformRunner,
};
use crate::text::strs;

verus! {

/// First-match lookup of a module's group index, from `i` on.
pub open spec fn grp_lookup_from(
    gs: Seq<(String, Vec<TerraformOperation>)>,
    i: int,
    m: Seq<char>,
) -> Option<int>
    decreases gs.len() - i
        when 0 <= i <= gs.len()
{
    if i < 0 || i >= gs.len() {
        None::<int>
    } else if gs[i].0@ == m {
        Some(i)
    } else {
        grp_lookup_from(gs, i + 1, m)
    }
}

pub open spec fn grp_lookup(gs: Seq<(String, Vec<TerraformOperation>)>, m: Seq<char>) -> Option<
    int,
> {
    grp_lookup_from(gs, 0, m)
}

/// All queued operations, in group order and FIFO order within each group.
pub open spec fn flat_from(gs: Seq<(String, Vec<TerraformOperation>)>, i: int) -> Seq<
    TerraformOperation,
>
    decreases gs.len() - i
        when 0 <= i <= gs.len()
{
    if i < 0 || i >= gs.len() {
        Seq::empty()
    } else {
        gs[i].1@ + flat_from(gs, i + 1)
    }
}

/// No module owns two queues.
pub open spec fn keys_unique(gs: Seq<(String, Vec<TerraformOperation>)>) -> bool {
    forall|i: int, j: int| 0 <= i < j < gs.len() ==> (#[trigger] gs[i]).0@ != (#[trigger] gs[j]).0@
}

/// Each result carries its operation's identity and is a success exactly
/// when it has no error text.
pub open spec fn results_match_ops(rs: Seq<OperationResult>, ops: Seq<TerraformOperation>) -> bool {
    rs.len() == ops.len() && (forall|k: int|
        0 <= k < rs.len() ==> (#[trigger] rs[k]).module_dir == ops[k].module_dir && rs[k].workspace
            == ops[k].workspace && rs[k].operation_type == ops[k].operation_type && (rs[k].success
            <==> rs[k].error is None))
}

/// A runner for an engine that was handed no real command collaborator: it
/// performs nothing, so every command reports failure.
pub struct NullRunner {}

impl TerraformRunner for NullRunner {
    fn init(&mut self, op: &TerraformOperation) -> bool {
        false
    }

    fn select_workspace(&mut self, op: &TerraformOperation, workspace: &String) -> bool {
        false
    }

    fn plan(&mut self, op: &TerraformOperation, plan_dir: &Option<String>) -> (bool, Vec<String>) {
        (false, Vec::new())
    }

    fn apply(&mut self, op: &TerraformOperation) -> (bool, Vec<String>) {
        (false, Vec::new())
    }
}

/// The module-aware operation scheduler: one FIFO queue per module in
/// first-submission order, the set of modules currently executing, the
/// result accumulator, and the clamped parallelism limit.
pub struct ParallelProcessor {
    pub module_groups: Vec<(String, Vec<TerraformOperation>)>,
    pub active: Vec<String>,
    pub results: Vec<OperationResult>,
    pub parallel_limit: usize,
    pub started: bool,
}

impl ParallelProcessor {
    pub open spec fn group_keys(self) -> Seq<Seq<char>> {
        self.module_groups@.map_values(|g: (String, Vec<TerraformOperation>)| g.0@)
    }

    pub open spec fn has_group(self, m: Seq<char>) -> bool {
        grp_lookup(self.module_groups@, m) is Some
    }

    /// The queue of module `m` (meaningful when `has_group(m)`).
    pub open spec fn queue_of(self, m: Seq<char>) -> Seq<TerraformOperation> {
        self.module_groups@[grp_lookup(self.module_groups@, m)->0].1@
    }

    /// The scheduler's invariant: module keys are unique, the limit is
    /// clamped into 1..=4, and never more modules execute than the limit.
    pub open spec fn inv(self) -> bool {
        &&& keys_unique(self.module_groups@)
        &&& 1 <= self.parallel_limit <= 4
        &&& self.active@.len() <= self.parallel_limit
    }

    /// A new scheduler: the requested parallelism is clamped into 1..=4.
    pub fn new(parallel_limit: usize) -> (r: ParallelProcessor)
        ensures
            r.inv(),
            r.parallel_limit == (if parallel_limit < 1 {
                1usize
            } else if parallel_limit > 4 {
                4usize
            } else {
                parallel_limit
            }),
            r.module_groups@.len() == 0,
            r.active@.len() == 0,
            r.results@.len() == 0,
            !r.started,
    {
        let limit: usize = if parallel_limit < 1 {
            1
        } else if parallel_limit > 4 {
            4
        } else {
            parallel_limit
        };
        ParallelProcessor {
            module_groups: Vec::new(),
            active: Vec::new(),
            results: Vec::new(),
            parallel_limit: limit,
            started: false,
        }
    }

    /// The effective parallelism limit.
    pub fn get_parallel_limit(&self) -> (r: usize)
        ensures
            r == self.parallel_limit,
    {
        self.parallel_limit
    }

    /// Index of the group owning module `m`, if any.
    fn find_group(&self, m: &String) -> (r: Option<usize>)
        ensures
            match r {
                Some(i) => i < self.module_groups@.len() && grp_lookup(self.module_groups@, m@)
                    == Some(i as int),
                None => grp_lookup(self.module_groups@, m@) is None,
            },
    {
        let n: usize = self.module_groups.len();
        let mut i: usize = 0;
        while i < n
            invariant
                n == self.module_groups@.len(),
                i <= n,
                grp_lookup_from(self.module_groups@, i as int, m@) == grp_lookup(
                    self.module_groups@,
                    m@,
                ),
            decreases n - i,
        {
            if crate::text::str_eq(self.module_groups[i].0.as_str(), m.as_str()) {
                return Some(i);
            }
            i += 1;
        }
        None
    }

    /// Appends an operation to the queue owned by its module, creating the
    /// queue if the module is new.  The sequential engine cannot block, so
    /// this always succeeds.
    pub fn add_operation(&mut self, operation: TerraformOperation) -> (r: Result<
        (),
        SolarboatError,
    >)
        requires
            old(self).inv(),
        ensures
            final(self).inv(),
            r is Ok,
            final(self).active == old(self).active,
            final(self).results == old(self).results,
            final(self).parallel_limit == old(self).parallel_limit,
            final(self).started == old(self).started,
            old(self).has_group(operation.module_dir@) ==> final(self).group_keys() == old(self).group_keys() && final(self).queue_of(operation.module_dir@) == old(self).queue_of(
                operation.module_dir@,
            ).push(operation),
            !old(self).has_group(operation.module_dir@) ==> final(self).group_keys() == old(self).group_keys().push(operation.module_dir@) && final(self).queue_of(
                operation.module_dir@,
            ) == seq![operation],
            forall|m: Seq<char>|
                old(self).has_group(m) && m != operation.module_dir@ ==> final(self).has_group(m)
                    && final(self).queue_of(m) == old(self).queue_of(m),
            forall|m: Seq<char>|
                final(self).has_group(m) <==> old(self).has_group(m) || m
                    == operation.module_dir@,
    {
        let ghost pre = self.module_groups@;
        let ghost opg = operation;
        let key = operation.module_dir.clone();
        match self.find_group(&key) {
            Some(i) => {
                let mut g = self.module_groups.remove(i);
                g.1.push(operation);
                self.module_groups.insert(i, g);
                proof {
                    assert(self.module_groups@ =~= pre.update(
                        i as int,
                        self.module_groups@[i as int],
                    ));
                    assert(self.group_keys() =~= pre.map_values(
                        |g: (String, Vec<TerraformOperation>)| g.0@,
                    ));
                    lemma_grp_update_lookup(pre, self.module_groups@, 0);
                    lemma_grp_lookup_valid(pre, opg.module_dir@, 0);
                    assert(pre[i as int].0@ == opg.module_dir@);
                    assert(self.module_groups@[i as int].1@ =~= pre[i as int].1@.push(opg));
                    assert forall|m: Seq<char>|
                        grp_lookup(pre, m) is Some && m != opg.module_dir@ implies grp_lookup(
                        self.module_groups@,
                        m,
                    ) is Some && self.queue_of(m) == pre[grp_lookup(pre, m)->0].1@ by {
                        lemma_grp_lookup_valid(pre, m, 0);
                        let j = grp_lookup(pre, m)->0;
                        assert(pre[j].0@ == m);
                        assert(j != i as int);
                        assert(self.module_groups@[j] == pre[j]);
                    }
                }
            },
            None => {
                self.module_groups.push((key, vec![operation]));
                proof {
                    let n = pre.len() as int;
                    assert(self.module_groups@ =~= pre.push(self.module_groups@[n]));
                    assert(self.group_keys() =~= pre.map_values(
                        |g: (String, Vec<TerraformOperation>)| g.0@,
                    ).push(opg.module_dir@));
                    lemma_grp_push_lookup(pre, self.module_groups@[n], 0);
                    lemma_grp_lookup_none(pre, opg.module_dir@, 0);
                    assert(self.module_groups@[n].0@ == opg.module_dir@);
                    assert(grp_lookup(self.module_groups@, opg.module_dir@) == Some(n)) by {
                        assert(grp_lookup(pre, opg.module_dir@) is None);
                    }
                    assert(self.queue_of(opg.module_dir@) =~= seq![opg]);
                    assert forall|a: int, b: int|
                        0 <= a < b < self.module_groups@.len() implies (#[trigger] self
                        .module_groups@[a]).0@ != (#[trigger] self.module_groups@[b]).0@ by {
                        if b < n {
                            assert(self.module_groups@[a] == pre[a]);
                            assert(self.module_groups@[b] == pre[b]);
                        } else {
                            assert(self.module_groups@[b].0@ == opg.module_dir@);
                            assert(self.module_groups@[a] == pre[a]);
                            assert(pre[a].0@ != opg.module_dir@);
                        }
                    }
                    assert forall|m: Seq<char>|
                        grp_lookup(pre, m) is Some && m != opg.module_dir@ implies grp_lookup(
                        self.module_groups@,
                        m,
                    ) is Some && self.queue_of(m) == pre[grp_lookup(pre, m)->0].1@ by {
                        lemma_grp_lookup_valid(pre, m, 0);
                        let j = grp_lookup(pre, m)->0;
                        assert(self.module_groups@[j] == pre[j]);
                    }
                }
            },
        }
        Ok(())
    }

    /// Marks the run started; queues and results are untouched.  The
    /// sequential engine has no coordinator to spawn, so this always
    /// succeeds.
    pub fn start(&mut self) -> (r: Result<(), SolarboatError>)
        requires
            old(self).inv(),
        ensures
            final(self).inv(),
            r is Ok,
            final(self).module_groups == old(self).module_groups,
            final(self).active == old(self).active,
            final(self).results == old(self).results,
            final(self).parallel_limit == old(self).parallel_limit,
            final(self).started,
    {
        self.started = true;
        Ok(())
    }

    /// Picks work for a free execution slot: the first module whose queue is
    /// non-empty and which is not already executing.  The chosen module is
    /// marked executing and its whole queue is handed out, emptied — the
    /// same module is never handed out again before `finish_module`, which
    /// is what makes same-module operations strictly serial.
    pub fn begin_next_module(&mut self) -> (r: Option<(String, Vec<TerraformOperation>)>)
        requires
            old(self).inv(),
        ensures
            final(self).inv(),
            match r {
                Some(pair) => {
                    &&& old(self).active@.len() < old(self).parallel_limit
                    &&& !strs(old(self).active@).contains(pair.0@)
                    &&& old(self).has_group(pair.0@)
                    &&& pair.1@ == old(self).queue_of(pair.0@)
                    &&& pair.1@.len() > 0
                    &&& final(self).group_keys() == old(self).group_keys()
                    &&& final(self).queue_of(pair.0@).len() == 0
                    &&& (forall|m: Seq<char>|
                        old(self).has_group(m) && m != pair.0@ ==> final(self).queue_of(m) == old(self).queue_of(m) && final(self).has_group(m))
                    &&& final(self).active@ == old(self).active@.push(pair.0)
                    &&& final(self).results == old(self).results
                    &&& final(self).parallel_limit == old(self).parallel_limit
                    &&& final(self).started == old(self).started
                },
                None => *final(self) == *old(self) && (old(self).active@.len() >= old(self).parallel_limit || forall|k: int|
                    0 <= k < old(self).module_groups@.len() ==> (#[trigger] old(self).module_groups@[k]).1@.len() == 0 || strs(old(self).active@).contains(
                        old(self).module_groups@[k].0@,
                    )),
            },
    {
        if self.active.len() >= self.parallel_limit {
            return None;
        }
        let n: usize = self.module_groups.len();
        let mut i: usize = 0;
        while i < n
            invariant
                n == self.module_groups@.len(),
                i <= n,
                self.inv(),
                *self == *old(self),
                self.active@.len() < self.parallel_limit,
                forall|k: int|
                    0 <= k < i ==> (#[trigger] self.module_groups@[k]).1@.len() == 0 || strs(
                        self.active@,
                    ).contains(self.module_groups@[k].0@),
            decreases n - i,
        {
            let ghost pre = self.module_groups@;
            let nonempty: bool = self.module_groups[i].1.len() > 0;
            if nonempty {
                let is_active = crate::changes::contains_string(
                    &self.active,
                    &self.module_groups[i].0,
                );
                if !is_active {
                    let mut g = self.module_groups.remove(i);
                    let key_copy = g.0.clone();
                    let ops = g.1;
                    g = (g.0, Vec::new());
                    self.module_groups.insert(i, g);
                    self.active.push(key_copy.clone());
                    proof {
                        assert(self.module_groups@ =~= pre.update(
                            i as int,
                            self.module_groups@[i as int],
                        ));
                        assert(self.group_keys() =~= pre.map_values(
                            |g: (String, Vec<TerraformOperation>)| g.0@,
                        ));
                        lemma_grp_update_lookup(pre, self.module_groups@, 0);
                        lemma_grp_at_key(pre, i as int);
                        lemma_grp_lookup_valid(pre, pre[i as int].0@, 0);
                        assert(pre[grp_lookup(pre, pre[i as int].0@)->0].0@ == pre[i as int].0@);
                        assert(grp_lookup(pre, pre[i as int].0@) == Some(i as int));
                        assert(self.module_groups@[i as int].1@.len() == 0);
                        assert(self.queue_of(pre[i as int].0@).len() == 0);
                        assert forall|m: Seq<char>|
                            grp_lookup(pre, m) is Some && m != pre[i as int].0@ implies grp_lookup(
                            self.module_groups@,
                            m,
                        ) is Some && self.module_groups@[grp_lookup(self.module_groups@, m)->0].1@
                            == pre[grp_lookup(pre, m)->0].1@ by {
                            lemma_grp_lookup_valid(pre, m, 0);
                            let j = grp_lookup(pre, m)->0;
                            if j == i as int {
                                assert(pre[j].0@ == m);
                            }
                            assert(self.module_groups@[j] == pre[j]);
                        }
                    }
                    return Some((key_copy, ops));
                }
            }
            i += 1;
        }
        None
    }

    /// Records a finished module: its results are appended to the
    /// accumulator and the first occurrence of the module leaves the
    /// executing set.
    pub fn finish_module(&mut self, m: &String, results: Vec<OperationResult>)
        requires
            old(self).inv(),
        ensures
            final(self).inv(),
            final(self).module_groups == old(self).module_groups,
            final(self).results@ == old(self).results@ + results@,
            final(self).parallel_limit == old(self).parallel_limit,
            final(self).started == old(self).started,
            strs(final(self).active@) == remove_first_str(strs(old(self).active@), m@),
    {
        let ghost rv = results@;
        let mut incoming = results;
        self.results.append(&mut incoming);
        let n: usize = self.active.len();
        let mut i: usize = 0;
        while i < n
            invariant
                n == self.active@.len(),
                i <= n,
                self.inv(),
                self.module_groups == old(self).module_groups,
                self.active == old(self).active,
                self.results@ == old(self).results@ + rv,
                rv == results@,
                self.parallel_limit == old(self).parallel_limit,
                self.started == old(self).started,
                forall|k: int| 0 <= k < i ==> strs(self.active@)[k] != m@,
            decreases n - i,
        {
            if crate::text::str_eq(self.active[i].as_str(), m.as_str()) {
                let ghost pre = strs(self.active@);
                self.active.remove(i);
                proof {
                    lemma_remove_first_at(pre, m@, i as int);
                    assert(strs(self.active@) =~= pre.take(i as int) + pre.skip(i + 1));
                }
                return ;
            }
            i += 1;
        }
        proof {
            lemma_remove_first_absent(strs(self.active@), m@, 0);
            assert(strs(self.active@).skip(0) =~= strs(self.active@));
        }
    }

    /// Runs every queued operation against `runner`, group by group in
    /// first-submission order and in FIFO order within each group, and
    /// appends one result per operation: the result carries the operation's
    /// identity fields and is a success exactly when it carries no error.
    pub fn run_with<R: TerraformRunner>(&mut self, runner: &mut R)
        requires
            old(self).inv(),
        ensures
            final(self).inv(),
            final(self).results@.len() == old(self).results@.len() + flat_from(
                old(self).module_groups@,
                0,
            ).len(),
            final(self).results@.take(old(self).results@.len() as int) == old(self).results@,
            results_match_ops(
                final(self).results@.skip(old(self).results@.len() as int),
                flat_from(old(self).module_groups@, 0),
            ),
            final(self).group_keys() == old(self).group_keys(),
            forall|k: int|
                0 <= k < final(self).module_groups@.len() ==> (#[trigger] final(self).module_groups@[k]).1@.len() == 0,
            final(self).active == old(self).active,
            final(self).parallel_limit == old(self).parallel_limit,
            final(self).started == old(self).started,
    {
        let ghost pre_groups = self.module_groups@;
        let ghost pre_results = self.results@;
        let n: usize = self.module_groups.len();
        let mut i: usize = 0;
        let ghost mut done: Seq<TerraformOperation> = Seq::empty();
        proof {
            assert(pre_results + Seq::<OperationResult>::empty() =~= pre_results);
            assert(self.results@.skip(pre_results.len() as int) =~= Seq::<
                OperationResult,
            >::empty());
            assert(self.results@.take(pre_results.len() as int) =~= pre_results);
            assert(done + flat_from(pre_groups, 0) =~= flat_from(pre_groups, 0));
        }
        while i < n
            invariant
                n == self.module_groups@.len(),
                n == pre_groups.len(),
                i <= n,
                self.inv(),
                self.active == old(self).active,
                self.parallel_limit == old(self).parallel_limit,
                self.started == old(self).started,
                self.group_keys() == keys_of(pre_groups),
                forall|k: int|
                    0 <= k < i ==> (#[trigger] self.module_groups@[k]).1@.len() == 0,
                forall|k: int| i <= k < n ==> self.module_groups@[k] == pre_groups[k],
                pre_groups == old(self).module_groups@,
                pre_results == old(self).results@,
                self.results@.len() == pre_results.len() + done.len(),
                self.results@.take(pre_results.len() as int) == pre_results,
                results_match_ops(self.results@.skip(pre_results.len() as int), done),
                done + flat_from(pre_groups, i as int) == flat_from(pre_groups, 0),
            decreases n - i,
        {
            let ghost groups_at_entry = self.module_groups@;
            let mut g = self.module_groups.remove(i);
            let mut queue = g.1;
            g = (g.0, Vec::new());
            self.module_groups.insert(i, g);
            proof {
                assert(self.module_groups@ =~= groups_at_entry.update(
                    i as int,
                    self.module_groups@[i as int],
                ));
                assert(self.module_groups@[i as int].0 == groups_at_entry[i as int].0);
                assert forall|k: int|
                    0 <= k < n implies (#[trigger] self.module_groups@[k]).0
                    == groups_at_entry[k].0 by {
                    if k != i as int {
                        assert(self.module_groups@[k] == groups_at_entry[k]);
                    }
                }
                assert(keys_unique(self.module_groups@)) by {
                    assert forall|a: int, b: int|
                        0 <= a < b < self.module_groups@.len() implies (#[trigger] self
                        .module_groups@[a]).0@ != (#[trigger] self.module_groups@[b]).0@ by {
                        assert(groups_at_entry[a].0@ != groups_at_entry[b].0@);
                    }
                }
                assert(self.group_keys() =~= keys_of(pre_groups));
            }
            let ghost qv = queue@;
            let ghost cur_groups = self.module_groups@;
            let qn: usize = queue.len();
            proof {
                assert(qv == pre_groups[i as int].1@);
                assert(flat_from(pre_groups, i as int) == qv + flat_from(pre_groups, i + 1));
                assert(qv.skip(0) =~= qv);
                assert(qv.take(0) =~= Seq::<TerraformOperation>::empty());
                assert(done + qv.take(0) =~= done);
            }
            let mut j_done: usize = 0;
            while queue.len() > 0
                invariant
                    qv.len() <= usize::MAX,
                    j_done <= qv.len(),
                    queue@ == qv.skip(j_done as int),
                    self.module_groups@ == cur_groups,
                    self.active == old(self).active,
                    self.parallel_limit == old(self).parallel_limit,
                    self.started == old(self).started,
                    self.results@.len() == pre_results.len() + done.len() + j_done,
                    self.results@.take(pre_results.len() as int) == pre_results,
                    results_match_ops(
                        self.results@.skip(pre_results.len() as int),
                        done + qv.take(j_done as int),
                    ),
                decreases queue@.len(),
            {
                proof {
                    assert(queue@.len() == qv.len() - j_done);
                    assert(j_done < qv.len());
                }
                let ghost entry_results = self.results@;
                let op = queue.remove(0);
                proof {
                    assert(op == qv.skip(j_done as int)[0]);
                    assert(op == qv[j_done as int]);
                    assert(queue@ =~= qv.skip(j_done + 1));
                }
                let res = process_single_operation(&op, runner);
                self.results.push(res);
                proof {
                    let prior = entry_results;
                    assert(self.results@ == prior.push(res));
                    assert(qv.take(j_done + 1) =~= qv.take(j_done as int).push(op));
                    assert(done + qv.take(j_done + 1) =~= (done + qv.take(j_done as int)).push(
                        op,
                    ));
                    assert(self.results@.skip(pre_results.len() as int) =~= prior.skip(
                        pre_results.len() as int,
                    ).push(res));
                    assert(self.results@.take(pre_results.len() as int) =~= prior.take(
                        pre_results.len() as int,
                    ));
                    let new_done = done + qv.take(j_done + 1);
                    let matched = prior.skip(pre_results.len() as int);
                    assert(matched.len() == (done + qv.take(j_done as int)).len());
                    assert(new_done.len() == matched.len() + 1);
                    assert(results_match_ops(matched.push(res), new_done)) by {
                        assert forall|k: int|
                            0 <= k < matched.push(res).len() implies (#[trigger] matched.push(
                            res,
                        )[k]).module_dir == new_done[k].module_dir && matched.push(res)[k].workspace
                            == new_done[k].workspace && matched.push(res)[k].operation_type
                            == new_done[k].operation_type && (matched.push(res)[k].success
                            <==> matched.push(res)[k].error is None) by {
                            if k < matched.len() {
                                assert(matched.push(res)[k] == matched[k]);
                                assert(new_done[k] == (done + qv.take(j_done as int))[k]) by {
                                    if k >= done.len() {
                                        assert(qv.take(j_done + 1)[k - done.len()] == qv.take(
                                            j_done as int,
                                        )[k - done.len()]);
                                    }
                                }
                                assert(matched[k].module_dir == (done + qv.take(
                                    j_done as int,
                                ))[k].module_dir);
                            } else {
                                assert(k == matched.len());
                                assert(matched.push(res)[k] == res);
                                assert(new_done[k] == qv.take(j_done + 1)[j_done as int]);
                                assert(qv.take(j_done + 1)[j_done as int] == qv[j_done as int]);
                            }
                        }
                    }
                }
                j_done += 1;
            }
            proof {
                assert(qv.skip(j_done as int).len() == 0);
                assert(j_done == qv.len());
                assert(qv.take(j_done as int) =~= qv);
                done = done + qv;
                assert(done + flat_from(pre_groups, i + 1) =~= flat_from(pre_groups, 0));
                assert forall|k: int|
                    i + 1 <= k < n implies self.module_groups@[k] == pre_groups[k] by {
                    assert(self.module_groups@[k] == groups_at_entry[k]);
                }
                assert forall|k: int|
                    0 <= k < i + 1 implies (#[trigger] self.module_groups@[k]).1@.len() == 0 by {
                    if k < i {
                        assert(self.module_groups@[k] == groups_at_entry[k]);
                    }
                }
            }
            i += 1;
        }
        proof {
            assert(flat_from(pre_groups, n as int) =~= Seq::<TerraformOperation>::empty());
            assert(done + Seq::<TerraformOperation>::empty() =~= done);
            assert(done == flat_from(pre_groups, 0));
        }
    }

    /// Drains every queue with the [`NullRunner`] and returns all accumulated
    /// results: one per submitted operation, carrying that operation's
    /// identity fields; with nothing submitted the list is empty at once.
    pub fn wait_for_completion(self) -> (r: Result<Vec<OperationResult>, SolarboatError>)
        requires
            self.inv(),
        ensures
            r is Ok,
            r->Ok_0@.len() == self.results@.len() + flat_from(self.module_groups@, 0).len(),
            r->Ok_0@.take(self.results@.len() as int) == self.results@,
            results_match_ops(
                r->Ok_0@.skip(self.results@.len() as int),
                flat_from(self.module_groups@, 0),
            ),
    {
        let mut engine = self;
        let mut runner = NullRunner {  };
        engine.run_with(&mut runner);
        Ok(engine.results)
    }
}

/// The keys of a raw group list.
pub open spec fn keys_of(gs: Seq<(String, Vec<TerraformOperation>)>) -> Seq<Seq<char>> {
    gs.map_values(|g: (String, Vec<TerraformOperation>)| g.0@)
}

/// Lookup at a present key returns a valid index bearing that key.
proof fn lemma_grp_lookup_valid(gs: Seq<(String, Vec<TerraformOperation>)>, m: Seq<char>, i: int)
    requires
        0 <= i <= gs.len(),
        grp_lookup_from(gs, i, m) is Some,
    ensures
        i <= grp_lookup_from(gs, i, m)->0 < gs.len(),
        gs[grp_lookup_from(gs, i, m)->0].0@ == m,
    decreases gs.len() - i,
{
    if i < gs.len() && gs[i].0@ != m {
        lemma_grp_lookup_valid(gs, m, i + 1);
    }
}

/// The key at a position indexes back to itself or an earlier equal key;
/// with unique keys it indexes back exactly.
proof fn lemma_grp_at_key(gs: Seq<(String, Vec<TerraformOperation>)>, i: int)
    requires
        0 <= i < gs.len(),
    ensures
        grp_lookup(gs, gs[i].0@) is Some,
        grp_lookup(gs, gs[i].0@)->0 <= i,
{
    lemma_grp_at_key_from(gs, i, 0);
}

proof fn lemma_grp_at_key_from(gs: Seq<(String, Vec<TerraformOperation>)>, i: int, j: int)
    requires
        0 <= j <= i < gs.len(),
    ensures
        grp_lookup_from(gs, j, gs[i].0@) is Some,
        grp_lookup_from(gs, j, gs[i].0@)->0 <= i,
    decreases i - j,
{
    if gs[j].0@ != gs[i].0@ {
        lemma_grp_at_key_from(gs, i, j + 1);
    }
}

/// Two group lists with pointwise-equal keys agree on every lookup.
proof fn lemma_grp_update_lookup(
    a: Seq<(String, Vec<TerraformOperation>)>,
    b: Seq<(String, Vec<TerraformOperation>)>,
    i: int,
)
    requires
        a.len() == b.len(),
        0 <= i <= a.len(),
        forall|k: int| 0 <= k < a.len() ==> a[k].0@ == b[k].0@,
    ensures
        forall|m: Seq<char>| #[trigger] grp_lookup_from(b, i, m) == grp_lookup_from(a, i, m),
    decreases a.len() - i,
{
    if i < a.len() {
        lemma_grp_update_lookup(a, b, i + 1);
        assert forall|m: Seq<char>| #[trigger] grp_lookup_from(b, i, m) == grp_lookup_from(
            a,
            i,
            m,
        ) by {
            assert(a[i].0@ == b[i].0@);
            assert(grp_lookup_from(b, i + 1, m) == grp_lookup_from(a, i + 1, m));
        }
    } else {
        assert forall|m: Seq<char>| #[trigger] grp_lookup_from(b, i, m) == grp_lookup_from(
            a,
            i,
            m,
        ) by {
            assert(grp_lookup_from(b, i, m) is None);
            assert(grp_lookup_from(a, i, m) is None);
        }
    }
}

/// A failed lookup means no key from `i` on matches.
proof fn lemma_grp_lookup_none(gs: Seq<(String, Vec<TerraformOperation>)>, m: Seq<char>, i: int)
    requires
        0 <= i <= gs.len(),
        grp_lookup_from(gs, i, m) is None,
    ensures
        forall|k: int| i <= k < gs.len() ==> gs[k].0@ != m,
    decreases gs.len() - i,
{
    if i < gs.len() {
        lemma_grp_lookup_none(gs, m, i + 1);
    }
}

/// Appending a group leaves lookups of present keys unchanged and binds a
/// fresh key to the appended position.
proof fn lemma_grp_push_lookup(
    a: Seq<(String, Vec<TerraformOperation>)>,
    x: (String, Vec<TerraformOperation>),
    i: int,
)
    requires
        0 <= i <= a.len(),
    ensures
        forall|m: Seq<char>|
            #[trigger] grp_lookup_from(a.push(x), i, m) == if grp_lookup_from(a, i, m) is Some {
                grp_lookup_from(a, i, m)
            } else if x.0@ == m {
                Some(a.len() as int)
            } else {
                None::<int>
            },
    decreases a.len() - i,
{
    let b = a.push(x);
    if i < a.len() {
        lemma_grp_push_lookup(a, x, i + 1);
        assert forall|m: Seq<char>|
            #[trigger] grp_lookup_from(b, i, m) == if grp_lookup_from(a, i, m) is Some {
                grp_lookup_from(a, i, m)
            } else if x.0@ == m {
                Some(a.len() as int)
            } else {
                None::<int>
            } by {
            assert(b[i] == a[i]);
            assert(grp_lookup_from(b, i + 1, m) == if grp_lookup_from(a, i + 1, m) is Some {
                grp_lookup_from(a, i + 1, m)
            } else if x.0@ == m {
                Some(a.len() as int)
            } else {
                None::<int>
            });
        }
    } else {
        assert forall|m: Seq<char>|
            #[trigger] grp_lookup_from(b, i, m) == if grp_lookup_from(a, i, m) is Some {
                grp_lookup_from(a, i, m)
            } else if x.0@ == m {
                Some(a.len() as int)
            } else {
                None::<int>
            } by {
            assert(grp_lookup_from(a, i, m) is None);
            if i < b.len() {
                assert(b[i] == x);
                assert(grp_lookup_from(b, i + 1, m) is None);
            }
        }
    }
}

/// `s` with the first occurrence of `m` removed (or `s` when absent).
pub open spec fn remove_first_str(s: Seq<Seq<char>>, m: Seq<char>) -> Seq<Seq<char>>
    decreases s.len(),
{
    if s.len() == 0 {
        Seq::empty()
    } else if s[0] == m {
        s.drop_first()
    } else {
        seq![s[0]] + remove_first_str(s.drop_first(), m)
    }
}

/// Removing `m` found first at index `i` keeps everything around it.
proof fn lemma_remove_first_at(s: Seq<Seq<char>>, m: Seq<char>, i: int)
    requires
        0 <= i < s.len(),
        s[i] == m,
        forall|k: int| 0 <= k < i ==> s[k] != m,
    ensures
        remove_first_str(s, m) == s.take(i) + s.skip(i + 1),
    decreases i,
{
    if i == 0 {
        assert(remove_first_str(s, m) == s.drop_first());
        assert(s.drop_first() =~= s.take(0) + s.skip(1));
    } else {
        let t = s.drop_first();
        assert(forall|k: int| 0 <= k < i - 1 ==> t[k] == s[k + 1]);
        lemma_remove_first_at(t, m, i - 1);
        assert(remove_first_str(s, m) == seq![s[0]] + (t.take(i - 1) + t.skip(i)));
        assert(seq![s[0]] + (t.take(i - 1) + t.skip(i)) =~= s.take(i) + s.skip(i + 1));
    }
}

/// Removing an absent string changes nothing.
proof fn lemma_remove_first_absent(s: Seq<Seq<char>>, m: Seq<char>, i: int)
    requires
        0 <= i <= s.len(),
        forall|k: int| 0 <= k < s.len() ==> s[k] != m,
    ensures
        remove_first_str(s.skip(i), m) == s.skip(i),
    decreases s.len() - i,
{
    if i < s.len() {
        lemma_remove_first_absent(s, m, i + 1);
        assert(s.skip(i)[0] == s[i]);
        assert(s.skip(i).drop_first() =~= s.skip(i + 1));
        assert(remove_first_str(s.skip(i), m) == seq![s[i]] + s.skip(i + 1));
        assert(seq![s[i]] + s.skip(i + 1) =~= s.skip(i));
    } else {
        assert(s.skip(i) =~= Seq::<Seq<char>>::empty());
    }
}

} // verus!
