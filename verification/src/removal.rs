use crate::layout::{marker, marker_path, INSTALL_PATH, LINK_PATH};
use crate::manifest::{AssetView, Manifest, ManifestView};
use crate::plan::{
    proceed, running_view, steps_view, Blame, Guard, Instr, InstrView, Runner, Running,
};
use crate::wire::{Op, OpView};
use vstd::prelude::*;
use vstd::string::StringExecFns;

verus! {

/// The step that deletes the file at `path` where there is one.
pub open spec fn removal_of(path: Seq<char>) -> InstrView {
    InstrView { guard: Guard::IfPresent, op: OpView::RemoveFile { path }, blame: Blame::Plain }
}

/// The plan of a removal: each file of the desktop integration in the
/// manifest's order, the directory of the release, the link to the executable
/// (as a link first, then as whatever else stands at its place), and the
/// version record. Each is deleted only where it is found.
pub open spec fn removal_steps(m: ManifestView) -> Seq<InstrView> {
    m.assets.map_values(|a: AssetView| removal_of(a.path)) + seq![
        InstrView {
            guard: Guard::IfPresent,
            op: OpView::RemoveDirAll { path: INSTALL_PATH@ },
            blame: Blame::Plain,
        },
        InstrView {
            guard: Guard::IfLink,
            op: OpView::RemoveFile { path: LINK_PATH@ },
            blame: Blame::Plain,
        },
        removal_of(LINK_PATH@),
        removal_of(marker()),
    ]
}

/// The step that deletes the file at `p` where there is one.
pub fn remove_inner(p: &str) -> (step: Instr)
    ensures
        step@ == removal_of(p@),
{
    Instr {
        guard: Guard::IfPresent,
        op: Op::RemoveFile { path: String::from_str(p) },
        blame: Blame::Plain,
    }
}

/// The plan of a removal of the release and of `manifest`'s files.
pub fn plan_removal(manifest: &Manifest) -> (plan: Vec<Instr>)
    ensures
        steps_view(plan@) == removal_steps(manifest@),
{
    let mut plan: Vec<Instr> = Vec::new();
    let mut i: usize = 0;
    while i < manifest.assets.len()
        invariant
            i <= manifest.assets.len(),
            plan.len() == i,
            forall|j: int|
                0 <= j < i ==> (#[trigger] plan@[j])@ == removal_of(manifest.assets@[j].path@),
        decreases manifest.assets.len() - i,
    {
        plan.push(remove_inner(manifest.assets[i].path.as_str()));
        i += 1;
    }
    plan.push(
        Instr {
            guard: Guard::IfPresent,
            op: Op::RemoveDirAll { path: String::from_str(INSTALL_PATH) },
            blame: Blame::Plain,
        },
    );
    plan.push(
        Instr {
            guard: Guard::IfLink,
            op: Op::RemoveFile { path: String::from_str(LINK_PATH) },
            blame: Blame::Plain,
        },
    );
    plan.push(remove_inner(LINK_PATH));
    let record = marker_path();
    plan.push(remove_inner(record.as_str()));
    proof {
        assert(steps_view(plan@) =~= removal_steps(manifest@));
    }
    plan
}

/// Starts a removal of the release and of `manifest`'s files.
pub fn remove_vscode(manifest: &Manifest) -> (p: Running)
    ensures
        running_view(p) == proceed(removal_steps(manifest@)),
{
    Runner::start(plan_removal(manifest))
}

} // verus!
