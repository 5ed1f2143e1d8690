//! Which experts of a mixture the tokens of a batch go to.
use vstd::prelude::*;

verus! {

/// Why a batch cannot be routed.
#[derive(Clone, Copy, Debug, PartialEq, Eq, Structural)]
pub enum RoutingError {
    /// The input has another shape than the experts take.
    InputShape,
    /// The ids of the experts are no matrix.
    IdRank,
    /// The input and the ids disagree on the number of experts of a token.
    TopK { input: usize, ids: usize },
    /// The expert is not there.
    ExpertRange { expert: usize, experts: usize },
}

/// The sizes of a batch: its tokens, the experts of a token, and the rows of input of a token.
#[derive(Clone, Copy, Debug, PartialEq, Eq, Structural)]
pub struct GatherShape {
    pub tokens: usize,
    pub topk: usize,
    pub x_slots: usize,
}

/// What is wrong with the shapes of a batch and of its ids.
pub open spec fn gather_fault(x: Seq<usize>, ids: Seq<usize>, in_features: usize) -> Option<
    RoutingError,
> {
    if x.len() != 3 || x[2] != in_features {
        Some(RoutingError::InputShape)
    } else if ids.len() != 2 {
        Some(RoutingError::IdRank)
    } else if x[1] != 1 && ids[1] != x[1] {
        Some(RoutingError::TopK { input: x[1], ids: ids[1] })
    } else {
        None
    }
}

/// The sizes of a batch. A token has one row of input for all of its experts, or one for each.
pub fn gather_shape(x: &Vec<usize>, ids: &Vec<usize>, in_features: usize) -> (shape: Result<
    GatherShape,
    RoutingError,
>)
    ensures
        match shape {
            Ok(s) => {
                &&& gather_fault(x@, ids@, in_features) is None
                &&& s.tokens == x@[0]
                &&& s.topk == ids@[1]
                &&& s.x_slots == x@[1]
                &&& s.x_slots == 1 || s.x_slots == s.topk
                &&& x@ == seq![s.tokens, s.x_slots, in_features]
                &&& ids@ == seq![ids@[0], s.topk]
            },
            Err(e) => gather_fault(x@, ids@, in_features) == Some(e),
        },
{
    if x.len() != 3 || x[2] != in_features {
        return Err(RoutingError::InputShape);
    }
    if ids.len() != 2 {
        return Err(RoutingError::IdRank);
    }
    if x[1] != 1 && ids[1] != x[1] {
        return Err(RoutingError::TopK { input: x[1], ids: ids[1] });
    }
    assert(x@ =~= seq![x@[0], x@[1], in_features]);
    assert(ids@ =~= seq![ids@[0], ids@[1]]);
    Ok(GatherShape { tokens: x[0], topk: ids[1], x_slots: x[1] })
}

/// One multiplication: an expert, the row of input that it takes, and where its output begins.
#[derive(Clone, Copy, Debug, PartialEq, Eq, Structural)]
pub struct ExpertTask {
    pub expert_id: usize,
    pub x_index: usize,
    pub out_offset: usize,
}

/// Multiplication number `i`, in the order tokens, experts.
pub open spec fn task_at(shape: GatherShape, ids: Seq<u32>, out_features: usize, i: int) -> ExpertTask {
    let token = i / shape.topk as int;
    let slot = i % shape.topk as int;
    ExpertTask {
        expert_id: ids[i] as usize,
        x_index: if shape.x_slots == 1 {
            token as usize
        } else {
            (token * shape.x_slots + slot) as usize
        },
        out_offset: (i * out_features) as usize,
    }
}

/// The first `n` multiplications.
pub open spec fn tasks_of(shape: GatherShape, ids: Seq<u32>, out_features: usize, n: nat) -> Seq<
    ExpertTask,
> {
    Seq::new(n, |i: int| task_at(shape, ids, out_features, i))
}

/// The multiplications that come before the first expert that is not there.
pub struct RoutePlan {
    pub tasks: Vec<ExpertTask>,
    pub fault: Option<RoutingError>,
}

/// Routes the tokens of a batch to their experts.
pub fn plan_routes(
    shape: GatherShape,
    ids: &Vec<u32>,
    experts: usize,
    out_features: usize,
) -> (plan: RoutePlan)
    requires
        shape.tokens * shape.topk <= ids.len(),
        shape.x_slots == 1 || shape.x_slots == shape.topk,
        shape.tokens * shape.topk * out_features <= usize::MAX,
    ensures
        plan.tasks@ == tasks_of(shape, ids@, out_features, plan.tasks@.len()),
        forall|i: int|
            0 <= i < plan.tasks@.len() ==> {
                &&& (#[trigger] plan.tasks@[i]).expert_id == ids@[i]
                &&& plan.tasks@[i].out_offset == i * out_features
                &&& shape.x_slots == shape.topk ==> plan.tasks@[i].x_index == i
                &&& shape.x_slots == 1 ==> plan.tasks@[i].x_index * shape.topk <= i < (
                plan.tasks@[i].x_index + 1) * shape.topk
            },
        plan.tasks@.len() <= shape.tokens * shape.topk,
        forall|i: int| 0 <= i < plan.tasks@.len() ==> (#[trigger] ids@[i]) < experts,
        match plan.fault {
            None => plan.tasks@.len() == shape.tokens * shape.topk,
            Some(e) => {
                let n = plan.tasks@.len() as int;
                &&& n < shape.tokens * shape.topk
                &&& ids@[n] >= experts
                &&& e == (RoutingError::ExpertRange { expert: ids@[n] as usize, experts })
            },
        },
{
    let total: usize = shape.tokens * shape.topk;
    let mut tasks: Vec<ExpertTask> = Vec::new();
    let mut i: usize = 0;
    while i < total
        invariant
            i <= total,
            total == shape.tokens * shape.topk,
            total <= ids.len(),
            shape.x_slots == 1 || shape.x_slots == shape.topk,
            total * out_features <= usize::MAX,
            tasks@ == tasks_of(shape, ids@, out_features, i as nat),
            forall|j: int| 0 <= j < i ==> (#[trigger] ids@[j]) < experts,
        decreases total - i,
    {
        let expert_id: usize = ids[i] as usize;
        if expert_id >= experts {
            proof {
                all_tasks_take_their_rows(shape, ids@, out_features, i as nat);
            }
            return RoutePlan {
                tasks,
                fault: Some(RoutingError::ExpertRange { expert: expert_id, experts }),
            };
        }
        proof {
            assert(shape.topk > 0) by (nonlinear_arith)
                requires
                    shape.tokens * shape.topk > 0,
                    shape.topk >= 0,
            ;
            vstd::arithmetic::div_mod::lemma_fundamental_div_mod(i as int, shape.topk as int);
            let token = i as int / shape.topk as int;
            assert(token * shape.topk + i as int % shape.topk as int == i) by (nonlinear_arith)
                requires
                    i as int == shape.topk as int * token + i as int % shape.topk as int,
            ;
            assert(0 <= i * out_features <= total * out_features) by (nonlinear_arith)
                requires
                    0 <= i <= total,
                    out_features >= 0,
            ;
        }
        let token: usize = i / shape.topk;
        let slot: usize = i % shape.topk;
        let x_index: usize = if shape.x_slots == 1 {
            token
        } else {
            token * shape.x_slots + slot
        };
        tasks.push(ExpertTask { expert_id, x_index, out_offset: i * out_features });
        i += 1;
        assert(tasks@ =~= tasks_of(shape, ids@, out_features, i as nat));
    }
    proof {
        all_tasks_take_their_rows(shape, ids@, out_features, i as nat);
    }
    RoutePlan { tasks, fault: None }
}

/// Multiplication number `i` goes to expert number `i`, and its output follows those before it.
/// If a token has a row of input for each of its experts, multiplication number `i` takes row
/// number `i`; if it has one for all of them, those of token `t` take row `t`.
pub proof fn tasks_take_their_rows(shape: GatherShape, ids: Seq<u32>, out_features: usize, i: int)
    requires
        0 <= i < shape.tokens * shape.topk,
        shape.tokens * shape.topk <= usize::MAX,
        shape.tokens * shape.topk * out_features <= usize::MAX,
        shape.x_slots == 1 || shape.x_slots == shape.topk,
    ensures
        ({
            let task = task_at(shape, ids, out_features, i);
            &&& task.expert_id == ids[i]
            &&& task.out_offset == i * out_features
            &&& shape.x_slots == shape.topk ==> task.x_index == i
            &&& shape.x_slots == 1 ==> task.x_index * shape.topk <= i < (task.x_index + 1)
                * shape.topk
            &&& task.x_index < shape.tokens * shape.x_slots
        }),
{
    let topk = shape.topk as int;
    let tokens = shape.tokens as int;
    assert(topk > 0) by (nonlinear_arith)
        requires
            tokens * topk > 0,
            topk >= 0,
    ;
    let token = i / topk;
    vstd::arithmetic::div_mod::lemma_fundamental_div_mod(i, topk);
    assert(token * topk <= i < (token + 1) * topk && token * topk + i % topk == i)
        by (nonlinear_arith)
        requires
            i == topk * token + i % topk,
            0 <= i % topk < topk,
    ;
    assert(0 <= token < tokens && token <= i) by (nonlinear_arith)
        requires
            token * topk <= i < (token + 1) * topk,
            0 <= i < tokens * topk,
            topk > 0,
    ;
    assert(0 <= i * out_features <= tokens * topk * out_features) by (nonlinear_arith)
        requires
            0 <= i <= tokens * topk,
            out_features >= 0,
    ;
    if topk == 1 {
        assert(i == token) by (nonlinear_arith)
            requires
                token * topk + i % topk == i,
                topk == 1,
                0 <= i % topk < topk,
        ;
    }
}

proof fn all_tasks_take_their_rows(
    shape: GatherShape,
    ids: Seq<u32>,
    out_features: usize,
    n: nat,
)
    requires
        n <= shape.tokens * shape.topk <= usize::MAX,
        shape.tokens * shape.topk * out_features <= usize::MAX,
        shape.x_slots == 1 || shape.x_slots == shape.topk,
    ensures
        ({
            let tasks = tasks_of(shape, ids, out_features, n);
            forall|i: int|
                0 <= i < n ==> {
                    &&& (#[trigger] tasks[i]).expert_id == ids[i]
                    &&& tasks[i].out_offset == i * out_features
                    &&& shape.x_slots == shape.topk ==> tasks[i].x_index == i
                    &&& shape.x_slots == 1 ==> tasks[i].x_index * shape.topk <= i < (
                    tasks[i].x_index + 1) * shape.topk
                }
        }),
{
    let tasks = tasks_of(shape, ids, out_features, n);
    assert forall|i: int| 0 <= i < n implies {
        &&& (#[trigger] tasks[i]).expert_id == ids[i]
        &&& tasks[i].out_offset == i * out_features
        &&& shape.x_slots == shape.topk ==> tasks[i].x_index == i
        &&& shape.x_slots == 1 ==> tasks[i].x_index * shape.topk <= i < (tasks[i].x_index + 1)
            * shape.topk
    } by {
        tasks_take_their_rows(shape, ids, out_features, i);
    }
}

/// The outputs of different multiplications share no element.
pub proof fn outputs_do_not_overlap(
    shape: GatherShape,
    ids: Seq<u32>,
    out_features: usize,
    i: int,
    j: int,
)
    requires
        0 <= i < j < shape.tokens * shape.topk,
        shape.tokens * shape.topk <= usize::MAX,
        shape.tokens * shape.topk * out_features <= usize::MAX,
        shape.x_slots == 1 || shape.x_slots == shape.topk,
    ensures
        task_at(shape, ids, out_features, i).out_offset + out_features <= task_at(
            shape,
            ids,
            out_features,
            j,
        ).out_offset,
        task_at(shape, ids, out_features, j).out_offset + out_features <= shape.tokens * shape.topk
            * out_features,
{
    tasks_take_their_rows(shape, ids, out_features, i);
    tasks_take_their_rows(shape, ids, out_features, j);
    assert(i * out_features + out_features <= j * out_features) by (nonlinear_arith)
        requires
            i + 1 <= j,
            out_features >= 0,
    ;
    let n = shape.tokens * shape.topk;
    assert(j * out_features + out_features <= n * out_features) by (nonlinear_arith)
        requires
            j + 1 <= n,
            out_features >= 0,
    ;
}

/// A batch is refused exactly if its input is no stack of matrices as wide as the experts, its
/// ids are no matrix, or a token has neither one row of input nor one for each of its experts.
pub proof fn fitting_batches_are_taken(x: Seq<usize>, ids: Seq<usize>, in_features: usize)
    ensures
        gather_fault(x, ids, in_features) is None <==> x.len() == 3 && ids.len() == 2 && x[2]
            == in_features && (x[1] == 1 || x[1] == ids[1]),
        gather_fault(x, ids, in_features) == Some(RoutingError::InputShape) <==> !(x.len() == 3
            && x[2] == in_features),
{
}

/// Whether tasks stand in the order of their experts.
pub open spec fn is_sorted(tasks: Seq<ExpertTask>) -> bool {
    forall|i: int, j: int|
        0 <= i <= j < tasks.len() ==> (#[trigger] tasks[i]).expert_id <= (
        #[trigger] tasks[j]).expert_id
}

/// Calls `sort_unstable_by_key` of slices with the expert as the key: the tasks stay the same,
/// as often as they occur, and stand in the order of their experts. Tasks of one expert may
/// come in any order.
#[verifier::external_body]
fn sort_by_expert(tasks: &mut Vec<ExpertTask>)
    ensures
        final(tasks)@.to_multiset() == old(tasks)@.to_multiset(),
        is_sorted(final(tasks)@),
{
    tasks.sort_unstable_by_key(|task| task.expert_id);
}

/// The multiplications of a batch, in the order of their experts; those of one expert may come
/// in any order.
pub fn sorted_tasks(
    shape: GatherShape,
    ids: &Vec<u32>,
    experts: usize,
    out_features: usize,
) -> (tasks: Result<Vec<ExpertTask>, RoutingError>)
    requires
        shape.tokens * shape.topk <= ids.len(),
        shape.x_slots == 1 || shape.x_slots == shape.topk,
        shape.tokens * shape.topk * out_features <= usize::MAX,
    ensures
        ({
            let n = (shape.tokens * shape.topk) as nat;
            match tasks {
                Ok(t) => {
                    &&& forall|i: int| 0 <= i < n ==> (#[trigger] ids@[i]) < experts
                    &&& is_sorted(t@)
                    &&& t@.to_multiset() == tasks_of(shape, ids@, out_features, n).to_multiset()
                },
                Err(e) => exists|i: int|
                    {
                        &&& 0 <= i < n
                        &&& (#[trigger] ids@[i]) >= experts
                        &&& forall|j: int| 0 <= j < i ==> (#[trigger] ids@[j]) < experts
                        &&& e == (RoutingError::ExpertRange { expert: ids@[i] as usize, experts })
                    },
            }
        }),
{
    let plan: RoutePlan = plan_routes(shape, ids, experts, out_features);
    match plan.fault {
        Some(e) => Err(e),
        None => {
            let mut tasks: Vec<ExpertTask> = plan.tasks;
            sort_by_expert(&mut tasks);
            Ok(tasks)
        },
    }
}

/// Consecutive tasks of one expert: from `start` up to but not including `end`.
#[derive(Clone, Copy, Debug, PartialEq, Eq, Structural)]
pub struct ExpertRun {
    pub expert_id: usize,
    pub start: usize,
    pub end: usize,
}

/// Whether runs cut the first `n` tasks into pieces of one expert each, as long as they can be.
pub open spec fn are_runs(tasks: Seq<ExpertTask>, runs: Seq<ExpertRun>, n: int) -> bool {
    &&& runs.len() == 0 ==> n == 0
    &&& runs.len() > 0 ==> runs[0].start == 0 && runs.last().end == n
    &&& forall|r: int|
        0 <= r < runs.len() ==> {
            &&& (#[trigger] runs[r]).start < runs[r].end <= tasks.len()
            &&& forall|i: int|
                runs[r].start <= i < runs[r].end ==> (#[trigger] tasks[i]).expert_id
                    == runs[r].expert_id
        }
    &&& forall|r: int, s: int|
        0 <= r && s == r + 1 && s < runs.len() ==> {
            &&& (#[trigger] runs[r]).end == (#[trigger] runs[s]).start
            &&& runs[r].expert_id != runs[s].expert_id
        }
}

/// Cuts tasks into runs of one expert each.
pub fn expert_runs(tasks: &Vec<ExpertTask>) -> (runs: Vec<ExpertRun>)
    ensures
        are_runs(tasks@, runs@, tasks@.len() as int),
{
    let mut runs: Vec<ExpertRun> = Vec::new();
    let mut at: usize = 0;
    while at < tasks.len()
        invariant
            at <= tasks@.len(),
            are_runs(tasks@, runs@, at as int),
            runs@.len() > 0 && at < tasks@.len() ==> tasks@[at as int].expert_id
                != runs@.last().expert_id,
        decreases tasks@.len() - at,
    {
        let expert_id: usize = tasks[at].expert_id;
        let start: usize = at;
        while at < tasks.len() && tasks[at].expert_id == expert_id
            invariant
                start <= at <= tasks@.len(),
                start < tasks@.len(),
                tasks@[start as int].expert_id == expert_id,
                forall|i: int| start <= i < at ==> (#[trigger] tasks@[i]).expert_id == expert_id,
            ensures
                start < at <= tasks@.len(),
                at < tasks@.len() ==> tasks@[at as int].expert_id != expert_id,
                forall|i: int| start <= i < at ==> (#[trigger] tasks@[i]).expert_id == expert_id,
            decreases tasks@.len() - at,
        {
            at += 1;
        }
        let ghost before = runs@;
        runs.push(ExpertRun { expert_id, start, end: at });
        proof {
            let after = runs@;
            assert forall|r: int| 0 <= r < after.len() implies {
                &&& (#[trigger] after[r]).start < after[r].end <= tasks@.len()
                &&& forall|i: int|
                    after[r].start <= i < after[r].end ==> (#[trigger] tasks@[i]).expert_id
                        == after[r].expert_id
            } by {
                if r < before.len() {
                    assert(after[r] == before[r]);
                }
            }
            assert forall|r: int, s: int| 0 <= r && s == r + 1 && s < after.len() implies {
                &&& (#[trigger] after[r]).end == (#[trigger] after[s]).start
                &&& after[r].expert_id != after[s].expert_id
            } by {
                if s < before.len() {
                    assert(after[r] == before[r] && after[s] == before[s]);
                } else {
                    assert(after[r] == before.last());
                }
            }
        }
    }
    runs
}

/// In tasks that are sorted every expert has one run: a later run has a larger expert.
pub proof fn sorted_runs_have_different_experts(
    tasks: Seq<ExpertTask>,
    runs: Seq<ExpertRun>,
    r: int,
    s: int,
)
    requires
        is_sorted(tasks),
        are_runs(tasks, runs, tasks.len() as int),
        0 <= r < s < runs.len(),
    ensures
        runs[r].expert_id < runs[s].expert_id,
    decreases s - r,
{
    let p = s - 1;
    assert(runs[p].end == runs[s].start && runs[p].expert_id != runs[s].expert_id);
    let i = runs[p].start as int;
    let j = runs[s].start as int;
    assert(tasks[i].expert_id == runs[p].expert_id);
    assert(tasks[j].expert_id == runs[s].expert_id);
    assert(tasks[i].expert_id <= tasks[j].expert_id);
    if r < p {
        sorted_runs_have_different_experts(tasks, runs, r, p);
    }
}

/// Where the bytes of an expert are, in experts of `expert_bytes` bytes each.
pub fn expert_range(expert_id: usize, experts: usize, expert_bytes: usize) -> (range: Result<
    (usize, usize),
    RoutingError,
>)
    requires
        experts * expert_bytes <= usize::MAX,
    ensures
        match range {
            Ok((start, end)) => {
                &&& expert_id < experts
                &&& start == expert_id * expert_bytes
                &&& end == start + expert_bytes
                &&& end <= experts * expert_bytes
            },
            Err(e) => expert_id >= experts && e == (RoutingError::ExpertRange {
                expert: expert_id,
                experts,
            }),
        },
{
    if expert_id >= experts {
        return Err(RoutingError::ExpertRange { expert: expert_id, experts });
    }
    proof {
        assert(expert_id * expert_bytes + expert_bytes <= experts * expert_bytes && 0 <= expert_id
            * expert_bytes) by (nonlinear_arith)
            requires
                expert_id + 1 <= experts,
                expert_bytes >= 0,
        ;
    }
    let start: usize = expert_id * expert_bytes;
    Ok((start, start + expert_bytes))
}

/// A batch with several rows for each token, but not one for each of its experts, is refused with
/// both numbers.
pub proof fn other_row_counts_are_refused(
    tokens: usize,
    rows: usize,
    width: usize,
    id_tokens: usize,
    topk: usize,
)
    ensures
        gather_fault(seq![tokens, rows, width], seq![id_tokens, topk], width) == if rows == 1
            || rows == topk {
            None::<RoutingError>
        } else {
            Some(RoutingError::TopK { input: rows, ids: topk })
        },
{
}

} // verus!
