use crate::error::ErrorView;
use crate::plan::{proceed, Blame, Guard, InstrView, PhaseView, RunnerView, RunningView};
use crate::wire::{OpView, ProgressView, ReplyView, RequestView};
use crate::world::{driven, reaches, Run, World};
use vstd::prelude::*;

verus! {

/// The step of a plan's machine as a function.
pub open spec fn runner_next() -> spec_fn(RunnerView, ReplyView) -> RunningView {
    |runner: RunnerView, reply: ReplyView| runner.step(reply)
}

/// The requests that are asked when `plan` is carried out in `w`: of each
/// step its guard's question, if it has one, and its change, if its
/// condition holds; nothing after a change that fails.
pub open spec fn asked_for(w: World, plan: Seq<InstrView>) -> Seq<RequestView>
    decreases plan.len(),
{
    if plan.len() == 0 {
        Seq::empty()
    } else {
        let step = plan[0];
        let question = if step.guard == Guard::Always {
            Seq::empty()
        } else {
            seq![step.guard.question(step.op.subject())]
        };
        let change = if w.meets(step.guard, step.op.subject()) {
            seq![RequestView::Perform(step.op)]
        } else {
            Seq::empty()
        };
        let rest = if w.fails(step) {
            Seq::empty()
        } else {
            asked_for(w.settled(step), plan.drop_first())
        };
        question + change + rest
    }
}

/// The machine of a plan, run in a world, carries the plan out: it ends as
/// the plan ends, leaves the world that the plan's steps make one after the
/// other up to the first that fails, and has asked each step's question
/// and, where the condition held, its change. Two requests for each step are
/// enough.
pub proof fn law_runner_carries_out(plan: Seq<InstrView>, w: World, fuel: nat)
    requires
        fuel >= 2 * plan.len(),
    ensures
        driven(runner_next(), proceed(plan), w, fuel) == (Run::<RunnerView, Result<(), ErrorView>> {
            progress: ProgressView::Done(w.result_of(plan)),
            world: w.carried_out(plan),
            asked: asked_for(w, plan),
        }),
    decreases plan.len(),
{
    reveal_with_fuel(driven, 3);
    let run = driven(runner_next(), proceed(plan), w, fuel);
    if plan.len() == 0 {
        assert(run.asked =~= asked_for(w, plan));
    } else {
        let step = plan[0];
        let tail = plan.drop_first();
        let path = step.op.subject();
        if step.guard == Guard::Always {
            if !w.fails(step) {
                law_runner_carries_out(tail, w.settled(step), (fuel - 1) as nat);
            }
            assert(run.asked =~= asked_for(w, plan));
        } else {
            let reply = w.answer(step.guard.question(path));
            if step.guard.admits(reply.is_yes()) {
                if !w.fails(step) {
                    law_runner_carries_out(tail, w.settled(step), (fuel - 2) as nat);
                }
                assert(run.asked =~= asked_for(w, plan));
            } else {
                law_runner_carries_out(tail, w, (fuel - 1) as nat);
                assert(run.asked =~= asked_for(w, plan));
            }
        }
    }
}

/// A plan ends at the first change that was not made: its machine asks
/// nothing more, whatever steps are left, and reports the failure as the
/// step's blame words it.
pub proof fn law_failed_change_ends_plan(
    rest: Seq<InstrView>,
    blame: Blame,
    subject: Seq<char>,
    reply: ReplyView,
)
    requires
        reply != ReplyView::Done,
    ensures
        (RunnerView { rest, phase: PhaseView::Performing { blame, subject } }).step(reply)
            == ProgressView::<RunnerView, Result<(), ErrorView>>::Done(
            Err(blame.error(subject, reply.detail())),
        ),
{
}

/// A run that has ended is not changed by more fuel.
pub proof fn lemma_enough_fuel<S, T>(
    next: spec_fn(S, ReplyView) -> ProgressView<S, T>,
    progress: ProgressView<S, T>,
    w: World,
    fuel: nat,
    more: nat,
)
    requires
        driven(next, progress, w, fuel).progress is Done,
    ensures
        driven(next, progress, w, fuel + more) == driven(next, progress, w, fuel),
    decreases fuel,
{
    reveal_with_fuel(driven, 2);
    match progress {
        ProgressView::Done(_) => {},
        ProgressView::Ask(state, request) => {
            lemma_enough_fuel(
                next,
                next(state, w.answer(request)),
                w.after(request),
                (fuel - 1) as nat,
                more,
            );
            assert((fuel + more - 1) as nat == (fuel - 1) as nat + more);
        },
    }
}

/// The progress of a machine that holds another machine inside: it hands
/// the inner machine's requests on and goes on by `then` with its result.
pub open spec fn lifted<S, T, O, U>(
    progress: ProgressView<S, T>,
    embed: spec_fn(S) -> O,
    then: spec_fn(T) -> ProgressView<O, U>,
) -> ProgressView<O, U> {
    match progress {
        ProgressView::Ask(state, request) => ProgressView::Ask(embed(state), request),
        ProgressView::Done(result) => then(result),
    }
}

/// A machine that holds another inside runs as the inner machine runs, and
/// then as what follows the inner machine's result runs.
pub proof fn lemma_run_through<S, T, O, U>(
    inner: spec_fn(S, ReplyView) -> ProgressView<S, T>,
    outer: spec_fn(O, ReplyView) -> ProgressView<O, U>,
    embed: spec_fn(S) -> O,
    then: spec_fn(T) -> ProgressView<O, U>,
    progress: ProgressView<S, T>,
    w: World,
    fuel: nat,
    more: nat,
)
    requires
        forall|state: S, reply: ReplyView| #[trigger]
            outer(embed(state), reply) == lifted(inner(state, reply), embed, then),
        driven(inner, progress, w, fuel).progress is Done,
        driven(
            outer,
            then(driven(inner, progress, w, fuel).progress->Done_0),
            driven(inner, progress, w, fuel).world,
            more,
        ).progress is Done,
    ensures
        ({
            let part = driven(inner, progress, w, fuel);
            let rest = driven(outer, then(part.progress->Done_0), part.world, more);
            let whole = driven(outer, lifted(progress, embed, then), w, fuel + more);
            &&& whole.progress == rest.progress
            &&& whole.world == rest.world
            &&& whole.asked == part.asked + rest.asked
        }),
    decreases fuel,
{
    reveal_with_fuel(driven, 2);
    let part = driven(inner, progress, w, fuel);
    let rest = driven(outer, then(part.progress->Done_0), part.world, more);
    let whole = driven(outer, lifted(progress, embed, then), w, fuel + more);
    match progress {
        ProgressView::Done(result) => {
            lemma_enough_fuel(outer, then(result), w, more, fuel);
            assert(more + fuel == fuel + more);
            assert(whole.asked =~= part.asked + rest.asked);
        },
        ProgressView::Ask(state, request) => {
            let reply = w.answer(request);
            lemma_run_through(
                inner,
                outer,
                embed,
                then,
                inner(state, reply),
                w.after(request),
                (fuel - 1) as nat,
                more,
            );
            assert((fuel + more - 1) as nat == (fuel - 1) as nat + more);
            assert(whole.asked =~= part.asked + rest.asked);
        },
    }
}

/// A plan in two parts is carried out part after part: the second part is
/// carried out in the world that the first leaves, where the first ends in
/// success, and not at all where it fails.
pub proof fn lemma_carried_out_in_parts(first: Seq<InstrView>, second: Seq<InstrView>, w: World)
    ensures
        w.result_of(first) is Ok ==> w.carried_out(first + second) == w.carried_out(
            first,
        ).carried_out(second) && w.result_of(first + second) == w.carried_out(first).result_of(
            second,
        ),
        w.result_of(first) is Err ==> w.carried_out(first + second) == w.carried_out(first)
            && w.result_of(first + second) == w.result_of(first),
    decreases first.len(),
{
    if first.len() == 0 {
        assert(first + second =~= second);
    } else {
        assert((first + second).drop_first() =~= first.drop_first() + second);
        assert((first + second)[0] == first[0]);
        if !w.fails(first[0]) {
            lemma_carried_out_in_parts(first.drop_first(), second, w.settled(first[0]));
        }
    }
}

/// Carrying a plan out changes nothing but the nodes of the filesystem.
pub proof fn lemma_plan_changes_nodes_only(plan: Seq<InstrView>, w: World)
    ensures
        w.carried_out(plan).remote == w.remote,
        w.carried_out(plan).archives == w.archives,
        w.carried_out(plan).excuse == w.excuse,
    decreases plan.len(),
{
    if plan.len() > 0 && !w.fails(plan[0]) {
        lemma_plan_changes_nodes_only(plan.drop_first(), w.settled(plan[0]));
    }
}

/// A change leaves every path that it cannot reach as it is.
pub proof fn lemma_change_is_local(w: World, op: OpView, path: Seq<char>)
    requires
        !reaches(op, path),
    ensures
        w.after(RequestView::Perform(op)).has(path) == w.has(path),
        w.has(path) ==> w.after(RequestView::Perform(op)).nodes[path] == w.nodes[path],
{
}

/// A plan leaves every path that none of its changes can reach as it is.
pub proof fn lemma_plan_is_local(plan: Seq<InstrView>, w: World, path: Seq<char>)
    requires
        forall|i: int| 0 <= i < plan.len() ==> !reaches((#[trigger] plan[i]).op, path),
    ensures
        w.carried_out(plan).has(path) == w.has(path),
        w.has(path) ==> w.carried_out(plan).nodes[path] == w.nodes[path],
    decreases plan.len(),
{
    if plan.len() > 0 {
        let tail = plan.drop_first();
        assert forall|i: int| 0 <= i < tail.len() implies !reaches(
            (#[trigger] tail[i]).op,
            path,
        ) by {
            assert(tail[i] == plan[i + 1]);
        }
        assert(!reaches(plan[0].op, path));
        lemma_change_is_local(w, plan[0].op, path);
        if !w.fails(plan[0]) {
            lemma_plan_is_local(tail, w.settled(plan[0]), path);
        }
    }
}

/// Every node of `after` stood in `before` as it stands in `after`.
pub open spec fn is_part_of(after: World, before: World) -> bool {
    forall|path: Seq<char>| #[trigger]
        after.nodes.contains_key(path) ==> before.nodes.contains_key(path) && after.nodes[path]
            == before.nodes[path]
}

/// No step of `plan` finds its condition met in `w`.
pub open spec fn is_idle(plan: Seq<InstrView>, w: World) -> bool {
    forall|i: int|
        0 <= i < plan.len() ==> !w.meets((#[trigger] plan[i]).guard, plan[i].op.subject())
}

/// A plan of which no step finds its condition met changes nothing, and
/// ends in success.
pub proof fn lemma_idle_plan_changes_nothing(plan: Seq<InstrView>, w: World)
    requires
        is_idle(plan, w),
    ensures
        w.carried_out(plan) == w,
        w.result_of(plan) == Ok::<(), ErrorView>(()),
        w.changes(plan) == Seq::<OpView>::empty(),
    decreases plan.len(),
{
    if plan.len() > 0 {
        let tail = plan.drop_first();
        assert forall|i: int| 0 <= i < tail.len() implies !w.meets(
            (#[trigger] tail[i]).guard,
            tail[i].op.subject(),
        ) by {
            assert(tail[i] == plan[i + 1]);
        }
        assert(!w.meets(plan[0].guard, plan[0].op.subject()));
        lemma_idle_plan_changes_nothing(tail, w);
    }
}

/// The questions of a plan's steps, in their order.
pub open spec fn questions(plan: Seq<InstrView>) -> Seq<RequestView> {
    plan.map_values(|step: InstrView| step.guard.question(step.op.subject()))
}

/// A plan of which no step finds its condition met asks its questions and
/// nothing else.
pub proof fn lemma_idle_plan_asks_questions(plan: Seq<InstrView>, w: World)
    requires
        is_idle(plan, w),
    ensures
        asked_for(w, plan) == questions(plan),
    decreases plan.len(),
{
    if plan.len() > 0 {
        let tail = plan.drop_first();
        assert forall|i: int| 0 <= i < tail.len() implies !w.meets(
            (#[trigger] tail[i]).guard,
            tail[i].op.subject(),
        ) by {
            assert(tail[i] == plan[i + 1]);
        }
        assert(!w.meets(plan[0].guard, plan[0].op.subject()));
        lemma_idle_plan_asks_questions(tail, w);
        assert(questions(plan) =~= seq![plan[0].guard.question(plan[0].op.subject())]
            + questions(tail));
        assert(asked_for(w, plan) =~= questions(plan));
    } else {
        assert(asked_for(w, plan) =~= questions(plan));
    }
}

} // verus!
