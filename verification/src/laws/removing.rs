use crate::error::ErrorView;
use crate::laws::running::{
    is_idle, is_part_of, law_runner_carries_out, lemma_carried_out_in_parts,
    lemma_idle_plan_asks_questions, lemma_idle_plan_changes_nothing, lemma_plan_is_local,
    questions, runner_next,
};
use crate::layout::{marker, INSTALL_PATH, LINK_PATH};
use crate::manifest::{AssetView, ManifestView};
use crate::plan::{proceed, Guard, InstrView, RunnerView};
use crate::removal::{removal_of, removal_steps};
use crate::wire::{OpView, ProgressView};
use crate::world::{driven, reaches, within, Run, World};
use vstd::prelude::*;

verus! {

/// A step that deletes what it finds: a file or a directory that is
/// present, or a link that is one.
pub open spec fn is_removal(step: InstrView) -> bool {
    match step.op {
        OpView::RemoveFile { path } => step.guard == Guard::IfPresent || step.guard
            == Guard::IfLink,
        OpView::RemoveDirAll { path } => step.guard == Guard::IfPresent,
        _ => false,
    }
}

/// Each step of `plan` deletes what it finds.
pub open spec fn removes_only(plan: Seq<InstrView>) -> bool {
    forall|i: int| 0 <= i < plan.len() ==> is_removal(#[trigger] plan[i])
}

/// A plan of removals adds no node and changes none.
pub proof fn lemma_removals_shrink(plan: Seq<InstrView>, w: World)
    requires
        removes_only(plan),
    ensures
        is_part_of(w.carried_out(plan), w),
    decreases plan.len(),
{
    if plan.len() > 0 {
        let tail = plan.drop_first();
        assert forall|i: int| 0 <= i < tail.len() implies is_removal(#[trigger] tail[i]) by {
            assert(tail[i] == plan[i + 1]);
        }
        assert(is_removal(plan[0]));
        if !w.fails(plan[0]) {
            lemma_removals_shrink(tail, w.settled(plan[0]));
        }
    }
}

/// After a plan of removals that ended in success none of its steps finds
/// its condition met.
pub proof fn lemma_removals_leave_nothing(plan: Seq<InstrView>, w: World)
    requires
        removes_only(plan),
        w.result_of(plan) is Ok,
    ensures
        is_idle(plan, w.carried_out(plan)),
    decreases plan.len(),
{
    if plan.len() > 0 {
        let step = plan[0];
        let tail = plan.drop_first();
        let next = w.settled(step);
        let last = w.carried_out(plan);
        assert forall|i: int| 0 <= i < tail.len() implies is_removal(#[trigger] tail[i]) by {
            assert(tail[i] == plan[i + 1]);
        }
        assert(is_removal(step));
        assert(!w.fails(step));
        lemma_removals_leave_nothing(tail, next);
        lemma_removals_shrink(tail, next);
        assert(!next.meets(step.guard, step.op.subject()));
        assert forall|i: int| 0 <= i < plan.len() implies !last.meets(
            (#[trigger] plan[i]).guard,
            plan[i].op.subject(),
        ) by {
            if i == 0 {
                assert(last.meets(step.guard, step.op.subject()) ==> next.meets(
                    step.guard,
                    step.op.subject(),
                ));
            } else {
                assert(plan[i] == tail[i - 1]);
                assert(!last.meets(tail[i - 1].guard, tail[i - 1].op.subject()));
            }
        }
    }
}

/// Every step of a removal deletes what it finds.
pub proof fn lemma_removal_removes_only(m: ManifestView)
    ensures
        removes_only(removal_steps(m)),
{
}

/// A removal that follows a removal that ended in success finds nothing to
/// do: none of its conditions is met, so it makes no change and cannot
/// fail, and it leaves the world as the first removal left it.
pub proof fn law_removal_is_idempotent(m: ManifestView, w: World)
    requires
        w.result_of(removal_steps(m)) is Ok,
    ensures
        ({
            let once = w.carried_out(removal_steps(m));
            &&& is_idle(removal_steps(m), once)
            &&& once.changes(removal_steps(m)) == Seq::<OpView>::empty()
            &&& once.result_of(removal_steps(m)) == Ok::<(), ErrorView>(())
            &&& once.carried_out(removal_steps(m)) == once
        }),
{
    lemma_removal_removes_only(m);
    lemma_removals_leave_nothing(removal_steps(m), w);
    lemma_idle_plan_changes_nothing(removal_steps(m), w.carried_out(removal_steps(m)));
}

/// A removal that ended in success, in a world in which the directory of
/// the release stood, leaves nothing beneath that directory, unless a file
/// of the manifest has the directory for its place.
pub proof fn law_removal_empties_release(m: ManifestView, w: World)
    requires
        w.result_of(removal_steps(m)) is Ok,
        w.has(INSTALL_PATH@),
        spares_release(m),
    ensures
        forall|path: Seq<char>| #[trigger]
            within(path, INSTALL_PATH@) ==> !w.carried_out(removal_steps(m)).has(path),
{
    let files = m.assets.map_values(|a: AssetView| removal_of(a.path));
    let rest = removal_steps(m).subrange(files.len() as int, removal_steps(m).len() as int);
    assert(removal_steps(m) =~= files + rest);
    lemma_carried_out_in_parts(files, rest, w);
    let found = w.carried_out(files);
    assert forall|k: int| 0 <= k < files.len() implies !reaches(
        (#[trigger] files[k]).op,
        INSTALL_PATH@,
    ) by {
        assert(files[k].op.subject() == m.assets[k].path);
    }
    lemma_plan_is_local(files, w, INSTALL_PATH@);
    assert(found.has(INSTALL_PATH@));
    let emptied = found.settled(rest[0]);
    let later = rest.drop_first();
    assert(found.carried_out(rest) == emptied.carried_out(later));
    assert forall|k: int| 0 <= k < later.len() implies is_removal(#[trigger] later[k]) by {
        assert(later[k] == rest[k + 1]);
    }
    lemma_removals_shrink(later, emptied);
    assert forall|path: Seq<char>| #[trigger] within(path, INSTALL_PATH@) implies !w.carried_out(
        removal_steps(m),
    ).has(path) by {
        assert(!emptied.nodes.contains_key(path));
    }
}

/// `path` is a place that a removal clears: the place of a file of the
/// manifest, the directory of the release or a place beneath it, the link
/// to the executable, or the version record.
pub open spec fn is_cleared(m: ManifestView, path: Seq<char>) -> bool {
    ||| exists|i: int| 0 <= i < m.assets.len() && (#[trigger] m.assets[i]).path == path
    ||| within(path, INSTALL_PATH@)
    ||| path == LINK_PATH@
    ||| path == marker()
}

/// No file of the manifest has the directory of the release for its place.
pub open spec fn spares_release(m: ManifestView) -> bool {
    forall|i: int| 0 <= i < m.assets.len() ==> (#[trigger] m.assets[i]).path != INSTALL_PATH@
}

/// After a removal that ended in success nothing stands at the place of a
/// file of the manifest, at the directory of the release, at the link to the
/// executable, or at the version record. Whatever stood elsewhere, and not
/// beneath the directory of the release, stands there unchanged, and nothing
/// was added. What is left beneath the directory of the release is stated
/// by [`law_removal_empties_release`].
pub proof fn law_removal_clears_its_places(m: ManifestView, w: World)
    requires
        w.result_of(removal_steps(m)) is Ok,
    ensures
        ({
            let after = w.carried_out(removal_steps(m));
            &&& forall|i: int|
                0 <= i < m.assets.len() ==> !after.has((#[trigger] m.assets[i]).path)
            &&& !after.has(INSTALL_PATH@)
            &&& !after.has(LINK_PATH@)
            &&& !after.has(marker())
            &&& forall|path: Seq<char>|
                w.has(path) && !is_cleared(m, path) ==> #[trigger] after.has(path)
                    && after.nodes[path] == w.nodes[path]
            &&& is_part_of(after, w)
        }),
{
    let plan = removal_steps(m);
    let after = w.carried_out(plan);
    let files = m.assets.len() as int;
    lemma_removal_removes_only(m);
    lemma_removals_leave_nothing(plan, w);
    lemma_removals_shrink(plan, w);
    assert forall|i: int| 0 <= i < m.assets.len() implies !after.has(
        (#[trigger] m.assets[i]).path,
    ) by {
        assert(plan[i].op.subject() == m.assets[i].path);
        assert(!after.meets(plan[i].guard, plan[i].op.subject()));
    }
    assert(!after.has(INSTALL_PATH@)) by {
        assert(plan[files].op.subject() == INSTALL_PATH@);
        assert(!after.meets(plan[files].guard, plan[files].op.subject()));
    }
    assert(!after.has(LINK_PATH@)) by {
        assert(plan[files + 2].op.subject() == LINK_PATH@);
        assert(!after.meets(plan[files + 2].guard, plan[files + 2].op.subject()));
    }
    assert(!after.has(marker())) by {
        assert(plan[files + 3].op.subject() == marker());
        assert(!after.meets(plan[files + 3].guard, plan[files + 3].op.subject()));
    }
    assert forall|path: Seq<char>| w.has(path) && !is_cleared(m, path) implies #[trigger] after.has(
        path,
    ) && after.nodes[path] == w.nodes[path] by {
        assert forall|i: int| 0 <= i < plan.len() implies !reaches(
            (#[trigger] plan[i]).op,
            path,
        ) by {
            if i < files {
                assert(plan[i].op.subject() == m.assets[i].path);
            }
        }
        lemma_plan_is_local(plan, w, path);
    }
}

/// The machine of a removal that follows a removal that ended in success
/// succeeds, asks nothing but the questions of its steps, so that no request
/// of it can fail, and leaves the world as the first removal left it.
pub proof fn law_second_removal_only_asks(m: ManifestView, w: World, fuel: nat)
    requires
        w.result_of(removal_steps(m)) is Ok,
        fuel >= 2 * removal_steps(m).len(),
    ensures
        ({
            let once = w.carried_out(removal_steps(m));
            driven(runner_next(), proceed(removal_steps(m)), once, fuel) == (Run::<
                RunnerView,
                Result<(), ErrorView>,
            > {
                progress: ProgressView::Done(Ok(())),
                world: once,
                asked: questions(removal_steps(m)),
            })
        }),
{
    let once = w.carried_out(removal_steps(m));
    law_removal_is_idempotent(m, w);
    lemma_idle_plan_asks_questions(removal_steps(m), once);
    law_runner_carries_out(removal_steps(m), once, fuel);
}

} // verus!
