use crate::error::ErrorView;
use crate::install::{making_of, manifest_steps, placing_of};
use crate::laws::running::{is_part_of, lemma_carried_out_in_parts, lemma_plan_is_local};
use crate::layout::{marker, unpacked, INSTALL_PATH, LINK_PATH, VSCODE_PATH};
use crate::manifest::ManifestView;
use crate::plan::{Guard, InstrView};
use crate::wire::OpView;
use crate::world::{lies_in, reaches, within, Node, World};
use vstd::prelude::*;

verus! {

/// A step that adds what is missing: a directory that is made, or a file
/// that is written where nothing stands.
pub open spec fn is_placement(step: InstrView) -> bool {
    match step.op {
        OpView::CreateDirAll { path } => step.guard == Guard::Always,
        OpView::CreateFile { path, content } => step.guard == Guard::IfAbsent,
        _ => false,
    }
}

/// Each step of `plan` adds what is missing.
pub open spec fn places_only(plan: Seq<InstrView>) -> bool {
    forall|i: int| 0 <= i < plan.len() ==> is_placement(#[trigger] plan[i])
}

/// Something stands at the place of each step of `plan`, and no step fails
/// on it.
pub open spec fn is_in_place(plan: Seq<InstrView>, w: World) -> bool {
    forall|i: int|
        0 <= i < plan.len() ==> w.has((#[trigger] plan[i]).op.subject()) && !w.fails(plan[i])
}

/// `path` is the place of a step of `plan`.
pub open spec fn is_place_of(plan: Seq<InstrView>, path: Seq<char>) -> bool {
    exists|i: int| 0 <= i < plan.len() && (#[trigger] plan[i]).op.subject() == path
}

/// A plan of placements removes no node and changes none; what it adds
/// stands at the places of its steps.
pub proof fn lemma_placements_grow(plan: Seq<InstrView>, w: World)
    requires
        places_only(plan),
    ensures
        is_part_of(w, w.carried_out(plan)),
        forall|path: Seq<char>| #[trigger]
            w.carried_out(plan).nodes.contains_key(path) ==> w.nodes.contains_key(path)
                || is_place_of(plan, path),
    decreases plan.len(),
{
    if plan.len() > 0 && !w.fails(plan[0]) {
        let step = plan[0];
        let tail = plan.drop_first();
        let next = w.settled(step);
        assert forall|i: int| 0 <= i < tail.len() implies is_placement(#[trigger] tail[i]) by {
            assert(tail[i] == plan[i + 1]);
        }
        assert(is_placement(step));
        lemma_placements_grow(tail, next);
        assert forall|path: Seq<char>| #[trigger] w.nodes.contains_key(path) implies w.carried_out(
            plan,
        ).nodes.contains_key(path) && w.nodes[path] == w.carried_out(plan).nodes[path] by {
            assert(next.nodes.contains_key(path) && next.nodes[path] == w.nodes[path]);
        }
        assert forall|path: Seq<char>| #[trigger]
            w.carried_out(plan).nodes.contains_key(path) implies w.nodes.contains_key(path)
            || is_place_of(plan, path) by {
            if !w.nodes.contains_key(path) {
                if next.nodes.contains_key(path) {
                    assert(plan[0].op.subject() == path);
                } else {
                    assert(is_place_of(tail, path));
                    let i = choose|i: int|
                        0 <= i < tail.len() && (#[trigger] tail[i]).op.subject() == path;
                    assert(plan[i + 1].op.subject() == path);
                }
            }
        }
    }
}

/// After a plan of placements that ended in success something stands at the
/// place of each step, and no step would fail on it.
pub proof fn lemma_placements_fill(plan: Seq<InstrView>, w: World)
    requires
        places_only(plan),
        w.result_of(plan) is Ok,
    ensures
        is_in_place(plan, w.carried_out(plan)),
    decreases plan.len(),
{
    if plan.len() > 0 {
        let step = plan[0];
        let tail = plan.drop_first();
        let next = w.settled(step);
        let last = w.carried_out(plan);
        assert forall|i: int| 0 <= i < tail.len() implies is_placement(#[trigger] tail[i]) by {
            assert(tail[i] == plan[i + 1]);
        }
        assert(is_placement(step));
        assert(!w.fails(step));
        lemma_placements_fill(tail, next);
        lemma_placements_grow(tail, next);
        assert(next.nodes.contains_key(step.op.subject()));
        assert(!next.fails(step));
        assert forall|i: int| 0 <= i < plan.len() implies last.has(
            (#[trigger] plan[i]).op.subject(),
        ) && !last.fails(plan[i]) by {
            if i > 0 {
                assert(plan[i] == tail[i - 1]);
                assert(last.has(tail[i - 1].op.subject()));
            }
        }
    }
}

/// A plan of placements changes nothing, and ends in success, where
/// something stands at the place of each step and no step fails on it.
pub proof fn lemma_placements_in_place_change_nothing(plan: Seq<InstrView>, w: World)
    requires
        places_only(plan),
        is_in_place(plan, w),
    ensures
        w.carried_out(plan) == w,
        w.result_of(plan) == Ok::<(), ErrorView>(()),
    decreases plan.len(),
{
    if plan.len() > 0 {
        let step = plan[0];
        let tail = plan.drop_first();
        assert forall|i: int| 0 <= i < tail.len() implies is_placement(#[trigger] tail[i])
            && w.has(tail[i].op.subject()) && !w.fails(tail[i]) by {
            assert(tail[i] == plan[i + 1]);
        }
        assert(is_placement(step) && w.has(step.op.subject()) && !w.fails(step));
        assert(w.settled(step) == w);
        lemma_placements_in_place_change_nothing(tail, w);
    }
}

/// Two manifests name the same places: the same directories, and files at
/// the same paths in the same order, whatever the files hold.
pub open spec fn same_places(m1: ManifestView, m2: ManifestView) -> bool {
    &&& m1.directories == m2.directories
    &&& m1.assets.len() == m2.assets.len()
    &&& forall|i: int|
        0 <= i < m1.assets.len() ==> (#[trigger] m1.assets[i]).path == m2.assets[i].path
}

/// Every step of the install of a manifest adds what is missing.
pub proof fn lemma_manifest_places_only(m: ManifestView)
    ensures
        places_only(manifest_steps(m)),
{
}

/// Installing a manifest never overwrites: whatever stood in the world
/// before stands there afterwards, unchanged, however the install ends.
pub proof fn law_manifest_never_overwrites(m: ManifestView, w: World, path: Seq<char>)
    requires
        w.has(path),
    ensures
        w.carried_out(manifest_steps(m)).has(path),
        w.carried_out(manifest_steps(m)).nodes[path] == w.nodes[path],
{
    lemma_manifest_places_only(m);
    lemma_placements_grow(manifest_steps(m), w);
}

/// Installing a manifest a second time, after a first time that ended in
/// success, changes nothing and ends in success, even where the second
/// manifest holds other contents for the same places: the world is left as
/// the first install left it.
pub proof fn law_manifest_install_is_idempotent(m1: ManifestView, m2: ManifestView, w: World)
    requires
        same_places(m1, m2),
        w.result_of(manifest_steps(m1)) is Ok,
    ensures
        w.carried_out(manifest_steps(m1)).carried_out(manifest_steps(m2)) == w.carried_out(
            manifest_steps(m1),
        ),
        w.carried_out(manifest_steps(m1)).result_of(manifest_steps(m2)) == Ok::<(), ErrorView>(
            (),
        ),
{
    let first = manifest_steps(m1);
    let second = manifest_steps(m2);
    let once = w.carried_out(first);
    lemma_manifest_places_only(m1);
    lemma_manifest_places_only(m2);
    lemma_placements_fill(first, w);
    assert forall|i: int| 0 <= i < second.len() implies once.has(
        (#[trigger] second[i]).op.subject(),
    ) && !once.fails(second[i]) by {
        assert(second[i].op.subject() == first[i].op.subject());
        assert(!once.fails(first[i]));
    }
    lemma_placements_in_place_change_nothing(second, once);
}

/// No directory and no file of the manifest stands at the place of the
/// version record.
pub open spec fn is_clear_of_record(m: ManifestView) -> bool {
    &&& forall|i: int| 0 <= i < m.directories.len() ==> #[trigger] m.directories[i] != marker()
    &&& forall|i: int| 0 <= i < m.assets.len() ==> (#[trigger] m.assets[i]).path != marker()
}

/// `path` lies apart from the release: not in the directory that archives
/// are unpacked into, so neither at nor beneath the directory of the release
/// or the directory that the archive for `tag` unpacks to, and not at the
/// link to the executable.
pub open spec fn is_apart(path: Seq<char>, tag: Seq<char>) -> bool {
    &&& !within(path, VSCODE_PATH@)
    &&& !within(path, INSTALL_PATH@)
    &&& !within(path, unpacked(tag))
    &&& path != LINK_PATH@
}

/// The places of the manifest lie apart: no two files share a place, no
/// file stands at the place of a directory, each file lies in a directory
/// of the manifest, and every place lies apart from the release and from
/// the version record.
pub open spec fn is_well_placed(m: ManifestView, tag: Seq<char>) -> bool {
    &&& is_clear_of_record(m)
    &&& forall|i: int, j: int|
        0 <= i < m.assets.len() && 0 <= j < m.assets.len() && i != j ==> (#[trigger] m.assets[i])
            .path != (#[trigger] m.assets[j]).path
    &&& forall|i: int, j: int|
        0 <= i < m.assets.len() && 0 <= j < m.directories.len() ==> (#[trigger] m.assets[i]).path
            != #[trigger] m.directories[j]
    &&& forall|i: int|
        0 <= i < m.assets.len() ==> is_apart((#[trigger] m.assets[i]).path, tag)
    &&& forall|j: int| 0 <= j < m.directories.len() ==> is_apart(#[trigger] m.directories[j], tag)
    &&& forall|i: int|
        0 <= i < m.assets.len() ==> exists|j: int|
            0 <= j < m.directories.len() && lies_in(
                (#[trigger] m.assets[i]).path,
                #[trigger] m.directories[j],
            )
}

/// An install of a manifest that ended in success, with places that lie
/// apart, has written each of its files that was missing, with the content
/// that the manifest gives it.
pub proof fn lemma_manifest_writes_what_is_missing(
    m: ManifestView,
    tag: Seq<char>,
    w: World,
    i: int,
)
    requires
        is_well_placed(m, tag),
        w.result_of(manifest_steps(m)) is Ok,
        0 <= i < m.assets.len(),
        !w.has(m.assets[i].path),
    ensures
        w.carried_out(manifest_steps(m)).has(m.assets[i].path),
        w.carried_out(manifest_steps(m)).nodes[m.assets[i].path] == Node::File(
            m.assets[i].content,
        ),
{
    let plan = manifest_steps(m);
    let path = m.assets[i].path;
    let at = m.directories.len() + i;
    let before = plan.subrange(0, at);
    let after = plan.subrange(at + 1, plan.len() as int);
    assert(plan =~= before + seq![plan[at]] + after);
    assert(plan[at] == placing_of(m.assets[i]));
    lemma_carried_out_in_parts(before + seq![plan[at]], after, w);
    lemma_carried_out_in_parts(before, seq![plan[at]], w);
    let reached = w.carried_out(before);
    assert forall|k: int| 0 <= k < before.len() implies !reaches(
        (#[trigger] before[k]).op,
        path,
    ) by {
        assert(before[k] == plan[k]);
        if k < m.directories.len() {
            assert(plan[k] == making_of(m.directories[k]));
        } else {
            assert(plan[k] == placing_of(m.assets[k - m.directories.len()]));
        }
    }
    lemma_plan_is_local(before, w, path);
    let written = reached.carried_out(seq![plan[at]]);
    assert(written.has(path) && written.nodes[path] == Node::File(m.assets[i].content)) by {
        reveal_with_fuel(World::carried_out, 2);
        reveal_with_fuel(World::result_of, 2);
        assert(seq![plan[at]].drop_first().len() == 0);
        assert(reached.result_of(seq![plan[at]]) is Ok);
    }
    assert forall|k: int| 0 <= k < after.len() implies is_placement(#[trigger] after[k]) by {
        assert(after[k] == plan[at + 1 + k]);
    }
    lemma_placements_grow(after, written);
    assert(written.nodes.contains_key(path));
}

/// At the place of each directory of the manifest a directory stands or
/// nothing does.
pub open spec fn has_room_for(w: World, m: ManifestView) -> bool {
    forall|j: int|
        0 <= j < m.directories.len() ==> !w.has(#[trigger] m.directories[j]) || w.has_dir(
            m.directories[j],
        )
}

/// Making directories, each at a place where a directory stands or nothing
/// does, ends in success and leaves a directory at each place.
pub proof fn lemma_makings_go_through(directories: Seq<Seq<char>>, w: World)
    requires
        forall|j: int|
            0 <= j < directories.len() ==> !w.has(#[trigger] directories[j]) || w.has_dir(
                directories[j],
            ),
    ensures
        ({
            let plan = directories.map_values(|d: Seq<char>| making_of(d));
            &&& w.result_of(plan) is Ok
            &&& forall|j: int|
                0 <= j < directories.len() ==> w.carried_out(plan).has_dir(
                    #[trigger] directories[j],
                )
        }),
    decreases directories.len(),
{
    let plan = directories.map_values(|d: Seq<char>| making_of(d));
    if directories.len() > 0 {
        let later = directories.drop_first();
        let next = w.settled(plan[0]);
        assert(plan.drop_first() =~= later.map_values(|d: Seq<char>| making_of(d)));
        assert(!w.has(directories[0]) || w.has_dir(directories[0]));
        assert(!w.fails(plan[0]));
        assert(next.has_dir(directories[0]));
        assert forall|j: int| 0 <= j < later.len() implies !next.has(#[trigger] later[j])
            || next.has_dir(later[j]) by {
            assert(later[j] == directories[j + 1]);
        }
        lemma_makings_go_through(later, next);
        let rest = later.map_values(|d: Seq<char>| making_of(d));
        assert forall|k: int| 0 <= k < rest.len() implies is_placement(#[trigger] rest[k]) by {}
        lemma_placements_grow(rest, next);
        assert(next.nodes.contains_key(directories[0]));
        assert forall|j: int| 0 <= j < directories.len() implies w.carried_out(plan).has_dir(
            #[trigger] directories[j],
        ) by {
            if j > 0 {
                assert(directories[j] == later[j - 1]);
            }
        }
    }
}

/// Writing files where none stands, each beneath a directory that stands,
/// ends in success.
pub proof fn lemma_placings_go_through(m: ManifestView, from: int, w: World)
    requires
        0 <= from <= m.assets.len(),
        forall|j: int| 0 <= j < m.directories.len() ==> w.has_dir(#[trigger] m.directories[j]),
        forall|i: int|
            0 <= i < m.assets.len() ==> exists|j: int|
                0 <= j < m.directories.len() && lies_in(
                    (#[trigger] m.assets[i]).path,
                    #[trigger] m.directories[j],
                ),
    ensures
        w.result_of(
            m.assets.subrange(from, m.assets.len() as int).map_values(
                |a: crate::manifest::AssetView| placing_of(a),
            ),
        ) is Ok,
    decreases m.assets.len() - from,
{
    let left = m.assets.subrange(from, m.assets.len() as int);
    let plan = left.map_values(|a: crate::manifest::AssetView| placing_of(a));
    if from < m.assets.len() {
        let asset = m.assets[from];
        let next = w.settled(plan[0]);
        assert(plan[0] == placing_of(asset));
        let later = m.assets.subrange(from + 1, m.assets.len() as int);
        assert(plan.drop_first() =~= later.map_values(
            |a: crate::manifest::AssetView| placing_of(a),
        ));
        let j = choose|j: int|
            0 <= j < m.directories.len() && lies_in(
                (#[trigger] m.assets[from]).path,
                #[trigger] m.directories[j],
            );
        assert(w.has_dir(m.directories[j]));
        assert(w.houses(asset.path));
        assert(!w.fails(plan[0]));
        assert forall|k: int| 0 <= k < m.directories.len() implies next.has_dir(
            #[trigger] m.directories[k],
        ) by {
            assert(w.has_dir(m.directories[k]));
        }
        lemma_placings_go_through(m, from + 1, next);
    }
}

/// The install of a manifest ends in success where a directory or nothing
/// stands at the place of each of its directories, and each of its files
/// lies in one of its directories.
pub proof fn lemma_manifest_goes_through(m: ManifestView, tag: Seq<char>, w: World)
    requires
        is_well_placed(m, tag),
        has_room_for(w, m),
    ensures
        w.result_of(manifest_steps(m)) is Ok,
{
    let makings = m.directories.map_values(|d: Seq<char>| making_of(d));
    let placings = m.assets.map_values(|a: crate::manifest::AssetView| placing_of(a));
    lemma_makings_go_through(m.directories, w);
    lemma_carried_out_in_parts(makings, placings, w);
    assert(m.assets.subrange(0, m.assets.len() as int) =~= m.assets);
    lemma_placings_go_through(m, 0, w.carried_out(makings));
}

} // verus!
