//! The work queue of a trigger: the trigger and the step completions it
//! leads to are handled breadth-first, chains of completions stopping at the
//! executor's depth limit.
use crate::agent_runtime::config::{SessionConfig, SessionConfigView};
use crate::agent_runtime::executor::{eligible, PipelineExecutor, StepDef, TriggerType, TriggerView};
use crate::text::str_eq;
use vstd::prelude::*;

verus! {

/// The work a step of an eligible trigger calls for.
#[derive(Debug, Clone, Copy, PartialEq, Eq, Structural)]
pub enum StepWork {
    /// Look for tool calls in the model's reply and publish each.
    DetectTools(usize),
    /// Execute the tool calls of the session's history; a completion of
    /// the step follows when there were any.
    ExecuteTools(usize),
    /// Call the step's service; a completion of the step follows when the
    /// call succeeds, and a failed call ends the run.
    Dispatch(usize),
}

/// Whether a step type names a service to call: anything but the built-in
/// steps (`role-annotator`, `trust-filter`, `tool-detector`,
/// `tool-executor`, `mcp`).
pub open spec fn is_service_step(t: Seq<char>) -> bool {
    !(t == "role-annotator"@ || t == "trust-filter"@ || t == "tool-detector"@ || t == "tool-executor"@
        || t == "mcp"@)
}

/// The built-in work of the steps at positions `idx`, in order: tool
/// detection and tool execution (the other built-in steps do nothing).
pub open spec fn builtin_work(steps: Seq<StepDef>, idx: Seq<int>) -> Seq<StepWork>
    decreases idx.len(),
{
    if idx.len() == 0 {
        Seq::empty()
    } else {
        let prev = builtin_work(steps, idx.drop_last());
        let i = idx.last();
        if steps[i].step_type@ == "tool-detector"@ {
            prev.push(StepWork::DetectTools(i as usize))
        } else if steps[i].step_type@ == "tool-executor"@ {
            prev.push(StepWork::ExecuteTools(i as usize))
        } else {
            prev
        }
    }
}

/// The service calls of the steps at positions `idx`, in order.
pub open spec fn service_work(steps: Seq<StepDef>, idx: Seq<int>) -> Seq<StepWork>
    decreases idx.len(),
{
    if idx.len() == 0 {
        Seq::empty()
    } else {
        let prev = service_work(steps, idx.drop_last());
        let i = idx.last();
        if is_service_step(steps[i].step_type@) {
            prev.push(StepWork::Dispatch(i as usize))
        } else {
            prev
        }
    }
}

/// The work of an event's eligible steps: the built-in steps first, then
/// the service calls, each in pipeline order.
pub open spec fn work_for(steps: Seq<StepDef>, idx: Seq<int>) -> Seq<StepWork> {
    builtin_work(steps, idx) + service_work(steps, idx)
}

/// Whether a queued event runs anything: it is not a step completion at or
/// beyond the depth limit, and some step is eligible for it.
pub open spec fn runnable(
    steps: Seq<StepDef>,
    max_depth: u32,
    cfg: SessionConfigView,
    item: (TriggerView, u32),
) -> bool {
    &&& !(item.0 is StepComplete && item.1 >= max_depth)
    &&& eligible(steps, item.0, cfg).len() > 0
}

/// What the step at position `i` calls for, when it calls for anything.
pub open spec fn calls_for(steps: Seq<StepDef>, i: int, w: StepWork) -> bool {
    let t = steps[i].step_type@;
    ||| t == "tool-detector"@ && w == StepWork::DetectTools(i as usize)
    ||| t == "tool-executor"@ && w == StepWork::ExecuteTools(i as usize)
    ||| is_service_step(t) && w == StepWork::Dispatch(i as usize)
}

proof fn lemma_builtin_work(steps: Seq<StepDef>, idx: Seq<int>)
    ensures
        forall|k: int|
            #![trigger idx[k]]
            0 <= k < idx.len() && steps[idx[k]].step_type@ == "tool-detector"@ ==> builtin_work(
                steps,
                idx,
            ).contains(StepWork::DetectTools(idx[k] as usize)),
        forall|k: int|
            #![trigger idx[k]]
            0 <= k < idx.len() && steps[idx[k]].step_type@ == "tool-executor"@ ==> builtin_work(
                steps,
                idx,
            ).contains(StepWork::ExecuteTools(idx[k] as usize)),
        forall|m: int|
            0 <= m < builtin_work(steps, idx).len() ==> !(#[trigger] builtin_work(steps, idx)[m] is Dispatch)
                && exists|k: int| 0 <= k < idx.len() && calls_for(steps, idx[k], builtin_work(steps, idx)[m]),
    decreases idx.len(),
{
    if idx.len() > 0 {
        let pre = idx.drop_last();
        let prev = builtin_work(steps, pre);
        let cur = builtin_work(steps, idx);
        lemma_builtin_work(steps, pre);
        assert(forall|m: int| 0 <= m < prev.len() ==> cur[m] == prev[m]);
        assert forall|k: int|
            #![trigger idx[k]]
            0 <= k < idx.len() && steps[idx[k]].step_type@ == "tool-detector"@ implies cur.contains(
                StepWork::DetectTools(idx[k] as usize),
            ) by {
            if k < pre.len() {
                assert(pre[k] == idx[k]);
                let m = choose|m: int| 0 <= m < prev.len() && prev[m] == StepWork::DetectTools(pre[k] as usize);
                assert(cur[m] == prev[m]);
            } else {
                assert(cur.last() == StepWork::DetectTools(idx[k] as usize));
                assert(cur[cur.len() - 1] == cur.last());
            }
        }
        assert forall|k: int|
            #![trigger idx[k]]
            0 <= k < idx.len() && steps[idx[k]].step_type@ == "tool-executor"@ implies cur.contains(
                StepWork::ExecuteTools(idx[k] as usize),
            ) by {
            if k < pre.len() {
                assert(pre[k] == idx[k]);
                let m = choose|m: int| 0 <= m < prev.len() && prev[m] == StepWork::ExecuteTools(pre[k] as usize);
                assert(cur[m] == prev[m]);
            } else {
                reveal_strlit("tool-executor");
                reveal_strlit("tool-detector");
                assert("tool-executor"@[5] != "tool-detector"@[5]);
                assert(steps[idx[k]].step_type@ != "tool-detector"@);
                assert(cur[cur.len() - 1] == StepWork::ExecuteTools(idx[k] as usize));
            }
        }
        assert forall|m: int| 0 <= m < cur.len() implies !(#[trigger] cur[m] is Dispatch) && exists|k: int|
            0 <= k < idx.len() && calls_for(steps, idx[k], cur[m]) by {
            if m < prev.len() {
                let k = choose|k: int| 0 <= k < pre.len() && calls_for(steps, pre[k], prev[m]);
                assert(pre[k] == idx[k]);
            } else {
                let k = idx.len() - 1;
                assert(idx[k] == idx.last());
                assert(calls_for(steps, idx[k], cur[m]));
            }
        }
    }
}

proof fn lemma_service_work(steps: Seq<StepDef>, idx: Seq<int>)
    ensures
        forall|k: int|
            #![trigger idx[k]]
            0 <= k < idx.len() && is_service_step(steps[idx[k]].step_type@) ==> service_work(steps, idx).contains(
                StepWork::Dispatch(idx[k] as usize),
            ),
        forall|m: int|
            0 <= m < service_work(steps, idx).len() ==> #[trigger] service_work(steps, idx)[m] is Dispatch
                && exists|k: int| 0 <= k < idx.len() && calls_for(steps, idx[k], service_work(steps, idx)[m]),
    decreases idx.len(),
{
    if idx.len() > 0 {
        let pre = idx.drop_last();
        let prev = service_work(steps, pre);
        let cur = service_work(steps, idx);
        lemma_service_work(steps, pre);
        assert(forall|m: int| 0 <= m < prev.len() ==> cur[m] == prev[m]);
        assert forall|k: int|
            #![trigger idx[k]]
            0 <= k < idx.len() && is_service_step(steps[idx[k]].step_type@) implies cur.contains(
                StepWork::Dispatch(idx[k] as usize),
            ) by {
            if k < pre.len() {
                assert(pre[k] == idx[k]);
                let m = choose|m: int| 0 <= m < prev.len() && prev[m] == StepWork::Dispatch(pre[k] as usize);
                assert(cur[m] == prev[m]);
            } else {
                assert(cur[cur.len() - 1] == StepWork::Dispatch(idx[k] as usize));
            }
        }
        assert forall|m: int| 0 <= m < cur.len() implies #[trigger] cur[m] is Dispatch && exists|k: int|
            0 <= k < idx.len() && calls_for(steps, idx[k], cur[m]) by {
            if m < prev.len() {
                let k = choose|k: int| 0 <= k < pre.len() && calls_for(steps, pre[k], prev[m]);
                assert(pre[k] == idx[k]);
            } else {
                let k = idx.len() - 1;
                assert(idx[k] == idx.last());
                assert(calls_for(steps, idx[k], cur[m]));
            }
        }
    }
}

/// The work of an event's eligible steps is what each of them calls for:
/// a tool detector detects, a tool executor executes, a service step is
/// dispatched, and nothing else is done; the built-in work all comes
/// before the first service call.
pub proof fn law_work_is_what_steps_call_for(steps: Seq<StepDef>, idx: Seq<int>)
    ensures
        forall|k: int|
            #![trigger idx[k]]
            0 <= k < idx.len() ==> {
                let t = steps[idx[k]].step_type@;
                &&& t == "tool-detector"@ ==> work_for(steps, idx).contains(StepWork::DetectTools(idx[k] as usize))
                &&& t == "tool-executor"@ ==> work_for(steps, idx).contains(StepWork::ExecuteTools(idx[k] as usize))
                &&& is_service_step(t) ==> work_for(steps, idx).contains(StepWork::Dispatch(idx[k] as usize))
            },
        forall|m: int|
            0 <= m < work_for(steps, idx).len() ==> exists|k: int|
                0 <= k < idx.len() && calls_for(steps, idx[k], #[trigger] work_for(steps, idx)[m]),
        forall|a: int, b: int|
            0 <= a < b < work_for(steps, idx).len() && (#[trigger] work_for(steps, idx)[a]) is Dispatch
                ==> (#[trigger] work_for(steps, idx)[b]) is Dispatch,
{
    let bw = builtin_work(steps, idx);
    let sw = service_work(steps, idx);
    let w = work_for(steps, idx);
    lemma_builtin_work(steps, idx);
    lemma_service_work(steps, idx);
    assert(forall|m: int| 0 <= m < bw.len() ==> w[m] == bw[m]);
    assert(forall|m: int| 0 <= m < sw.len() ==> w[bw.len() + m] == sw[m]);
    assert forall|k: int|
        #![trigger idx[k]]
        0 <= k < idx.len() implies {
            let t = steps[idx[k]].step_type@;
            &&& t == "tool-detector"@ ==> w.contains(StepWork::DetectTools(idx[k] as usize))
            &&& t == "tool-executor"@ ==> w.contains(StepWork::ExecuteTools(idx[k] as usize))
            &&& is_service_step(t) ==> w.contains(StepWork::Dispatch(idx[k] as usize))
        } by {
        let t = steps[idx[k]].step_type@;
        if t == "tool-detector"@ {
            let m = choose|m: int| 0 <= m < bw.len() && bw[m] == StepWork::DetectTools(idx[k] as usize);
            assert(w[m] == bw[m]);
        }
        if t == "tool-executor"@ {
            let m = choose|m: int| 0 <= m < bw.len() && bw[m] == StepWork::ExecuteTools(idx[k] as usize);
            assert(w[m] == bw[m]);
        }
        if is_service_step(t) {
            let m = choose|m: int| 0 <= m < sw.len() && sw[m] == StepWork::Dispatch(idx[k] as usize);
            assert(w[bw.len() + m] == sw[m]);
        }
    }
    assert forall|m: int| 0 <= m < w.len() implies exists|k: int|
        0 <= k < idx.len() && calls_for(steps, idx[k], #[trigger] w[m]) by {
        if m < bw.len() {
            assert(w[m] == bw[m]);
        } else {
            assert(w[m] == sw[m - bw.len()]);
        }
    }
    assert forall|a: int, b: int|
        0 <= a < b < w.len() && (#[trigger] w[a]) is Dispatch implies (#[trigger] w[b]) is Dispatch by {
        if a < bw.len() {
            assert(w[a] == bw[a]);
        }
        assert(w[b] == sw[b - bw.len()]);
    }
}

/// The events of a trigger still to handle, with the depth of the chain
/// each belongs to; those before `next` are handled.
pub struct TriggerRun {
    pub queue: Vec<(TriggerType, u32)>,
    pub next: usize,
}

/// Queue entries by their values.
pub open spec fn entries_view(q: Seq<(TriggerType, u32)>) -> Seq<(TriggerView, u32)> {
    q.map_values(|e: (TriggerType, u32)| (e.0@, e.1))
}

impl TriggerRun {
    pub open spec fn wf(&self) -> bool {
        self.next <= self.queue@.len()
    }

    /// The events still to handle, oldest first.
    pub open spec fn pending(&self) -> Seq<(TriggerView, u32)> {
        entries_view(self.queue@).skip(self.next as int)
    }

    /// A run of `event` at chain depth `depth`.
    pub fn start(event: TriggerType, depth: u32) -> (r: Self)
        ensures
            r.wf(),
            r.pending() == seq![(event@, depth)],
    {
        let mut queue: Vec<(TriggerType, u32)> = Vec::new();
        queue.push((event, depth));
        let r = TriggerRun { queue, next: 0 };
        assert(r.pending() =~= seq![(event@, depth)]);
        r
    }

    /// Takes the next event that runs anything, dropping those before it
    /// that do not, and gives it with its depth and the work of its
    /// eligible steps; `None` once nothing is left to run.
    pub fn next_work(&mut self, exec: &PipelineExecutor, config: &SessionConfig) -> (r: Option<
        (TriggerType, u32, Vec<StepWork>),
    >)
        requires
            old(self).wf(),
        ensures
            final(self).wf(),
            match r {
                None => final(self).pending().len() == 0 && forall|j: int|
                    0 <= j < old(self).pending().len() ==> !runnable(
                        exec.steps@,
                        exec.max_depth,
                        config@,
                        #[trigger] old(self).pending()[j],
                    ),
                Some((ev, d, work)) => exists|k: int|
                    {
                        &&& 0 <= k < old(self).pending().len()
                        &&& forall|j: int|
                            0 <= j < k ==> !runnable(
                                exec.steps@,
                                exec.max_depth,
                                config@,
                                #[trigger] old(self).pending()[j],
                            )
                        &&& runnable(exec.steps@, exec.max_depth, config@, old(self).pending()[k])
                        &&& old(self).pending()[k] == (ev@, d)
                        &&& work@ == work_for(exec.steps@, eligible(exec.steps@, ev@, config@))
                        &&& final(self).pending() == old(self).pending().skip(k + 1)
                    },
            },
    {
        let ghost p0 = self.pending();
        let ghost start = self.next as int;
        let ghost qv = entries_view(self.queue@);
        assert(qv.len() == self.queue@.len());
        while self.next < self.queue.len()
            invariant
                0 <= start <= self.next <= self.queue@.len(),
                qv == entries_view(self.queue@),
                qv.len() == self.queue@.len(),
                p0 == qv.skip(start),
                p0 == old(self).pending(),
                forall|j: int|
                    0 <= j < self.next - start ==> !runnable(exec.steps@, exec.max_depth, config@, #[trigger] p0[j]),
            decreases self.queue.len() - self.next,
        {
            let i = self.next;
            assert(p0[i - start] == qv[i as int]);
            self.next = self.next + 1;
            let depth = self.queue[i].1;
            if !exec.depth_exceeded(&self.queue[i].0, depth) {
                let idx = exec.eligible_steps(&self.queue[i].0, config);
                proof {
                    lemma_eligible_bounds(exec.steps@, qv[i as int].0, config@);
                    assert forall|m: int| 0 <= m < idx@.len() implies #[trigger] idx@[m] < exec.steps@.len() by {
                        assert(idx@.map_values(|x: usize| x as int)[m] == idx@[m] as int);
                    }
                }
                if idx.len() > 0 {
                    let event = copy_trigger(&self.queue[i].0);
                    let work = step_work(exec, &idx);
                    proof {
                        assert(idx@.len() == eligible(exec.steps@, qv[i as int].0, config@).len());
                        assert(self.pending() =~= p0.skip(i - start + 1));
                        let k = i - start;
                        assert({
                            &&& 0 <= k < old(self).pending().len()
                            &&& forall|j: int|
                                0 <= j < k ==> !runnable(
                                    exec.steps@,
                                    exec.max_depth,
                                    config@,
                                    #[trigger] old(self).pending()[j],
                                )
                            &&& runnable(exec.steps@, exec.max_depth, config@, old(self).pending()[k])
                            &&& old(self).pending()[k] == (event@, depth)
                            &&& work@ == work_for(exec.steps@, eligible(exec.steps@, event@, config@))
                            &&& self.pending() == old(self).pending().skip(k + 1)
                        });
                    }
                    return Some((event, depth, work));
                }
            }
        }
        assert(self.pending() =~= Seq::<(TriggerView, u32)>::empty());
        None
    }

    /// Queues the completion of step `i` of a run at chain depth `depth`: a
    /// completion of that step, one level deeper.
    pub fn step_completed(&mut self, exec: &PipelineExecutor, i: usize, depth: u32)
        requires
            old(self).wf(),
            i < exec.steps@.len(),
            depth < u32::MAX,
        ensures
            final(self).wf(),
            final(self).pending() == old(self).pending().push(
                (TriggerView::StepComplete(exec.steps@[i as int].id@), (depth + 1) as u32),
            ),
    {
        let ghost before = self.pending();
        let ghost n = self.next as int;
        let (t, d) = exec.follow_up(i, depth);
        let ghost tv = t@;
        self.queue.push((t, d));
        assert(entries_view(self.queue@) =~= entries_view(old(self).queue@).push((tv, d)));
        assert(self.pending() =~= before.push((tv, d)));
    }
}

/// The eligible steps are steps of the pipeline.
proof fn lemma_eligible_bounds(steps: Seq<StepDef>, event: TriggerView, cfg: SessionConfigView)
    ensures
        forall|k: int|
            0 <= k < eligible(steps, event, cfg).len() ==> 0 <= #[trigger] eligible(steps, event, cfg)[k]
                < steps.len(),
    decreases steps.len(),
{
    if steps.len() > 0 {
        let prev = eligible(steps.drop_last(), event, cfg);
        lemma_eligible_bounds(steps.drop_last(), event, cfg);
        assert forall|k: int| 0 <= k < eligible(steps, event, cfg).len() implies 0 <= #[trigger] eligible(
            steps,
            event,
            cfg,
        )[k] < steps.len() by {
            if k < prev.len() {
                assert(eligible(steps, event, cfg)[k] == prev[k]);
            }
        }
    }
}

/// A copy of a trigger.
fn copy_trigger(t: &TriggerType) -> (r: TriggerType)
    ensures
        r@ == t@,
{
    match t {
        TriggerType::UserMessage => TriggerType::UserMessage,
        TriggerType::LlmComplete => TriggerType::LlmComplete,
        TriggerType::SchedulerTick => TriggerType::SchedulerTick,
        TriggerType::StepComplete(id) => TriggerType::StepComplete(id.clone()),
    }
}

/// The work of the steps at positions `idx` (each a step of `exec`).
fn step_work(exec: &PipelineExecutor, idx: &Vec<usize>) -> (r: Vec<StepWork>)
    requires
        forall|k: int| 0 <= k < idx@.len() ==> #[trigger] idx@[k] < exec.steps@.len(),
    ensures
        r@ == work_for(exec.steps@, idx@.map_values(|i: usize| i as int)),
{
    let ghost iv = idx@.map_values(|i: usize| i as int);
    let mut built: Vec<StepWork> = Vec::new();
    let mut k: usize = 0;
    while k < idx.len()
        invariant
            k <= idx@.len(),
            iv == idx@.map_values(|i: usize| i as int),
            forall|m: int| 0 <= m < idx@.len() ==> #[trigger] idx@[m] < exec.steps@.len(),
            built@ == builtin_work(exec.steps@, iv.take(k as int)),
        decreases idx.len() - k,
    {
        assert(iv.take(k + 1).drop_last() =~= iv.take(k as int));
        assert(iv.take(k + 1).last() == idx@[k as int] as int);
        let i = idx[k];
        let t = exec.steps[i].step_type.as_str();
        if str_eq(t, "tool-detector") {
            built.push(StepWork::DetectTools(i));
        } else if str_eq(t, "tool-executor") {
            built.push(StepWork::ExecuteTools(i));
        }
        k = k + 1;
    }
    assert(iv.take(idx@.len() as int) =~= iv);
    let mut calls: Vec<StepWork> = Vec::new();
    let mut k: usize = 0;
    while k < idx.len()
        invariant
            k <= idx@.len(),
            iv == idx@.map_values(|i: usize| i as int),
            forall|m: int| 0 <= m < idx@.len() ==> #[trigger] idx@[m] < exec.steps@.len(),
            calls@ == service_work(exec.steps@, iv.take(k as int)),
        decreases idx.len() - k,
    {
        assert(iv.take(k + 1).drop_last() =~= iv.take(k as int));
        assert(iv.take(k + 1).last() == idx@[k as int] as int);
        let i = idx[k];
        let t = exec.steps[i].step_type.as_str();
        let service = !(str_eq(t, "role-annotator") || str_eq(t, "trust-filter") || str_eq(t, "tool-detector")
            || str_eq(t, "tool-executor") || str_eq(t, "mcp"));
        if service {
            calls.push(StepWork::Dispatch(i));
        }
        k = k + 1;
    }
    let mut all = built;
    all.append(&mut calls);
    all
}

} // verus!
