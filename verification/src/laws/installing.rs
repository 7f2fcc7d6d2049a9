use crate::error::ErrorView;
use crate::install::{
    clearing, download_begun, expected_length, install_after_lookup, install_begun,
    install_steps, integration_steps, linking, manifest_steps, record, settling, setup_begun,
    unlinking, unpacking, DownloadView, DownloadingView, InstallView, InstallingView,
    SettingUpView, SetupView,
};
use crate::laws::checking::{lookup_requests, registry_offers};
use crate::laws::placing::{
    has_room_for, is_apart, is_clear_of_record, is_well_placed, lemma_manifest_goes_through,
    lemma_manifest_places_only, lemma_manifest_writes_what_is_missing, lemma_placements_fill,
    lemma_placements_grow,
};
use crate::laws::running::{
    asked_for, law_runner_carries_out, lemma_carried_out_in_parts, lemma_enough_fuel,
    lemma_plan_changes_nodes_only, lemma_plan_is_local, lemma_run_through, lifted, runner_next,
};
use crate::layout::{
    download_address, marker, tag_of, unpacked, ANITYA_URL, CURRENT_VERSION_DIRECTORY,
    EXECUTABLE_PATH, INSTALL_PATH, LINK_PATH, VSCODE_PATH,
};
use crate::lookup::{accepted, is_success, lookup_begun};
use crate::manifest::{desktop_manifest, ManifestView};
use crate::plan::{proceed, Blame, InstrView, PhaseView, RunnerView, LINK_TEXT};
use crate::version::{current_version, strip};
use crate::wire::{ProgressView, ReplyView, RequestView};
use crate::world::{driven, lies_in, moved, reaches, within, Node, Run, World};
use vstd::prelude::*;
use vstd::utf8::{encode_utf8, encode_utf8_decode_utf8, encode_utf8_valid_utf8};

verus! {

/// The step of an install as a function.
pub open spec fn install_next() -> spec_fn(InstallView, ReplyView) -> InstallingView {
    |install: InstallView, reply: ReplyView| install.next(reply)
}

/// The step of a download as a function.
pub open spec fn download_next() -> spec_fn(DownloadView, ReplyView) -> DownloadingView {
    |download: DownloadView, reply: ReplyView| download.next(reply)
}

/// The step of a setup as a function.
pub open spec fn setup_next() -> spec_fn(SetupView, ReplyView) -> SettingUpView {
    |setup: SetupView, reply: ReplyView| setup.next(reply)
}

/// How a lookup of the latest version ends in `w`.
pub open spec fn looked_up(w: World) -> Result<Seq<char>, ErrorView> {
    match accepted((w.remote)(RequestView::Get { url: ANITYA_URL@ })) {
        Ok(_) => match (w.remote)(RequestView::ReadVersion) {
            ReplyView::Text(version) => Ok(version),
            other => Err(ErrorView::Parse { detail: other.detail() }),
        },
        Err(e) => Err(e),
    }
}

/// How an install ends in `w`: as its plan fails, else as the lookup of the
/// latest version fails, else with an error of the filesystem where the
/// version record cannot be written, else in success.
pub open spec fn install_result(
    archive: Seq<u8>,
    tag: Seq<char>,
    m: ManifestView,
    w: World,
) -> Result<(), ErrorView> {
    let plan = install_steps(archive, tag, m);
    match w.result_of(plan) {
        Err(e) => Err(e),
        Ok(_) => match looked_up(w) {
            Err(e) => Err(e),
            Ok(latest) => if w.carried_out(plan).answer(record(latest)) == ReplyView::Done {
                Ok(())
            } else {
                Err(ErrorView::Filesystem { detail: w.excuse })
            },
        },
    }
}

/// The world that an install leaves: the world that its plan leaves, with
/// the latest version written to the version record where the install
/// ended in success. An install that fails has not written the record.
pub open spec fn install_world(
    archive: Seq<u8>,
    tag: Seq<char>,
    m: ManifestView,
    w: World,
) -> World {
    let placed = w.carried_out(install_steps(archive, tag, m));
    match (install_result(archive, tag, m, w), looked_up(w)) {
        (Ok(_), Ok(latest)) => placed.after(record(latest)),
        _ => placed,
    }
}

/// An install, run in a world, ends as [`install_result`] says and leaves
/// the world that [`install_world`] says. It asks for the changes of its
/// plan first; it looks the latest version up only when the plan has ended
/// in success, and asks for the version record to be written only when the
/// lookup has.
pub proof fn law_install_runs(
    archive: Seq<u8>,
    tag: Seq<char>,
    m: ManifestView,
    w: World,
    fuel: nat,
)
    requires
        fuel >= 2 * install_steps(archive, tag, m).len() + 3,
    ensures
        ({
            let plan = install_steps(archive, tag, m);
            let run = driven(install_next(), install_begun(archive, tag, m), w, fuel);
            &&& run.progress == ProgressView::<InstallView, Result<(), ErrorView>>::Done(
                install_result(archive, tag, m, w),
            )
            &&& run.world == install_world(archive, tag, m, w)
            &&& w.result_of(plan) is Err ==> run.asked == asked_for(w, plan)
            &&& w.result_of(plan) is Ok && looked_up(w) is Ok ==> run.asked == asked_for(w, plan)
                + lookup_requests() + seq![record(looked_up(w)->Ok_0)]
        }),
{
    let plan = install_steps(archive, tag, m);
    let placed = w.carried_out(plan);
    let embed = |runner: RunnerView| InstallView::Placing(runner);
    let then = |result: Result<(), ErrorView>|
        match result {
            Ok(_) => install_after_lookup(lookup_begun()),
            Err(e) => ProgressView::Done(Err(e)),
        };
    let enough = 2 * plan.len();
    law_runner_carries_out(plan, w, enough);
    lemma_plan_changes_nodes_only(plan, w);
    let rest = driven(install_next(), then(w.result_of(plan)), placed, 3);
    assert(rest.progress == ProgressView::<InstallView, Result<(), ErrorView>>::Done(
        install_result(archive, tag, m, w),
    ) && rest.world == install_world(archive, tag, m, w) && (w.result_of(plan) is Err
        ==> rest.asked =~= Seq::empty()) && (w.result_of(plan) is Ok && looked_up(w) is Ok
        ==> rest.asked =~= lookup_requests() + seq![record(looked_up(w)->Ok_0)])) by {
        reveal_with_fuel(driven, 4);
    }
    assert forall|runner: RunnerView, reply: ReplyView| #[trigger]
        install_next()(embed(runner), reply) == lifted(
            runner_next()(runner, reply),
            embed,
            then,
        ) by {}
    assert(lifted(proceed(plan), embed, then) == install_begun(archive, tag, m));
    lemma_run_through(runner_next(), install_next(), embed, then, proceed(plan), w, enough, 3);
    lemma_enough_fuel(
        install_next(),
        install_begun(archive, tag, m),
        w,
        enough + 3,
        (fuel - enough - 3) as nat,
    );
    let run = driven(install_next(), install_begun(archive, tag, m), w, fuel);
    if w.result_of(plan) is Err {
        assert(run.asked =~= asked_for(w, plan));
    } else if looked_up(w) is Ok {
        assert(run.asked =~= asked_for(w, plan) + lookup_requests() + seq![
            record(looked_up(w)->Ok_0),
        ]);
    }
}

/// How the fixed places lie to each other.
pub proof fn lemma_fixed_places(tag: Seq<char>)
    ensures
        within(unpacked(tag), VSCODE_PATH@),
        unpacked(tag) != VSCODE_PATH@,
        !within(unpacked(tag), INSTALL_PATH@),
        !within(INSTALL_PATH@, unpacked(tag)),
        is_apart(marker(), tag),
        is_apart(CURRENT_VERSION_DIRECTORY@, tag),
        !within(LINK_PATH@, VSCODE_PATH@),
        !within(LINK_PATH@, INSTALL_PATH@),
        !within(LINK_PATH@, unpacked(tag)),
        within(EXECUTABLE_PATH@, INSTALL_PATH@),
        lies_in(marker(), CURRENT_VERSION_DIRECTORY@),
        marker() != CURRENT_VERSION_DIRECTORY@,
{
    reveal_strlit("/var/lib/vsdown/");
    reveal_strlit("current_version");
    reveal_strlit("/usr/lib");
    reveal_strlit("/usr/lib/VSCode-");
    reveal_strlit("/usr/lib/vscode");
    reveal_strlit("/usr/lib/vscode/code");
    reveal_strlit("/usr/bin/vscode");
    let record = marker();
    let home = CURRENT_VERSION_DIRECTORY@;
    let fresh = unpacked(tag);
    assert(record[1] == 'v' && home[1] == 'v');
    assert(VSCODE_PATH@[1] == 'u' && VSCODE_PATH@[5] == 'l');
    assert(LINK_PATH@[1] == 'u' && LINK_PATH@[5] == 'b');
    assert(INSTALL_PATH@[1] == 'u' && INSTALL_PATH@[5] == 'l' && INSTALL_PATH@[9] == 'v');
    assert(fresh[1] == 'u' && fresh[5] == 'l' && fresh[8] == '/' && fresh[9] == 'V');
    assert(fresh.subrange(0, 8) =~= VSCODE_PATH@);
    assert(EXECUTABLE_PATH@.subrange(0, 15) =~= INSTALL_PATH@);
    assert(EXECUTABLE_PATH@[15] == '/');
    assert(record.subrange(0, home.len() as int) =~= home);
    assert(home.last() == '/');
    lemma_other_start(record, VSCODE_PATH@, 1);
    lemma_other_start(record, INSTALL_PATH@, 1);
    lemma_other_start(record, fresh, 1);
    lemma_other_start(home, VSCODE_PATH@, 1);
    lemma_other_start(home, INSTALL_PATH@, 1);
    lemma_other_start(home, fresh, 1);
    lemma_other_start(LINK_PATH@, VSCODE_PATH@, 5);
    lemma_other_start(LINK_PATH@, INSTALL_PATH@, 5);
    lemma_other_start(LINK_PATH@, fresh, 5);
    lemma_other_start(fresh, INSTALL_PATH@, 9);
    lemma_other_start(INSTALL_PATH@, fresh, 9);
}

/// A path that differs from `root` in a character that both have is
/// neither `root` nor beneath it.
pub proof fn lemma_other_start(path: Seq<char>, root: Seq<char>, at: int)
    requires
        0 <= at < path.len(),
        at < root.len(),
        path[at] != root[at],
    ensures
        !within(path, root),
{
    if path.len() > root.len() {
        assert(path.subrange(0, root.len() as int)[at] == path[at]);
    }
}

/// What lies at or beneath a place that lies apart from `root`, in a
/// character that both have, lies apart from it too.
pub proof fn lemma_beneath_other_start(path: Seq<char>, place: Seq<char>, root: Seq<char>, at: int)
    requires
        within(path, place),
        0 <= at < place.len(),
        at < root.len(),
        place[at] != root[at],
    ensures
        !within(path, root),
{
    if path != place {
        assert(path.subrange(0, place.len() as int)[at] == path[at]);
    }
    lemma_other_start(path, root, at);
}

/// The steps that put the release itself in place: up to the link to the
/// executable.
pub open spec fn release_steps(archive: Seq<u8>, tag: Seq<char>) -> Seq<InstrView> {
    seq![unpacking(archive), clearing(), settling(tag), unlinking(), linking()]
}

/// The plan of an install is the steps that put the release in place, and
/// then the install of the manifest.
pub proof fn lemma_install_in_two(archive: Seq<u8>, tag: Seq<char>, m: ManifestView)
    ensures
        install_steps(archive, tag, m) == release_steps(archive, tag) + manifest_steps(m),
{
    assert(install_steps(archive, tag, m) =~= release_steps(archive, tag) + manifest_steps(m));
}

/// The steps that put the release in place leave what lies apart from the
/// release as it is.
pub proof fn lemma_release_steps_are_local(
    archive: Seq<u8>,
    tag: Seq<char>,
    w: World,
    path: Seq<char>,
)
    requires
        is_apart(path, tag),
    ensures
        w.carried_out(release_steps(archive, tag)).has(path) == w.has(path),
        w.has(path) ==> w.carried_out(release_steps(archive, tag)).nodes[path] == w.nodes[path],
{
    lemma_plan_is_local(release_steps(archive, tag), w, path);
}

/// No place of the manifest is `path`.
pub open spec fn is_no_place_of(m: ManifestView, path: Seq<char>) -> bool {
    &&& forall|i: int| 0 <= i < m.directories.len() ==> #[trigger] m.directories[i] != path
    &&& forall|i: int| 0 <= i < m.assets.len() ==> (#[trigger] m.assets[i]).path != path
}

/// The plan of an install leaves what lies apart from the release, and at
/// no place of the manifest, as it is, however the plan ends.
pub proof fn lemma_install_plan_is_local(
    archive: Seq<u8>,
    tag: Seq<char>,
    m: ManifestView,
    w: World,
    path: Seq<char>,
)
    requires
        is_apart(path, tag),
        is_no_place_of(m, path),
    ensures
        w.carried_out(install_steps(archive, tag, m)).has(path) == w.has(path),
        w.has(path) ==> w.carried_out(install_steps(archive, tag, m)).nodes[path]
            == w.nodes[path],
{
    let plan = install_steps(archive, tag, m);
    lemma_install_in_two(archive, tag, m);
    let manifest = manifest_steps(m);
    assert forall|k: int| 0 <= k < plan.len() implies !reaches((#[trigger] plan[k]).op, path) by {
        if k >= 5 {
            assert(plan[k] == manifest[k - 5]);
            if k - 5 < m.directories.len() {
                assert(manifest[k - 5].op.subject() == m.directories[k - 5]);
            } else {
                assert(manifest[k - 5].op.subject() == m.assets[k - 5 - m.directories.len()].path);
            }
        }
    }
    lemma_plan_is_local(plan, w, path);
}

/// An install that fails leaves the version record as it was: it is not
/// deleted, not written and not made. This is stated of a manifest that is
/// clear of the version record.
pub proof fn law_failed_install_keeps_record(
    archive: Seq<u8>,
    tag: Seq<char>,
    m: ManifestView,
    w: World,
    fuel: nat,
)
    requires
        is_clear_of_record(m),
        fuel >= 2 * install_steps(archive, tag, m).len() + 3,
    ensures
        ({
            let run = driven(install_next(), install_begun(archive, tag, m), w, fuel);
            &&& run.progress is Done
            &&& run.progress->Done_0 is Err ==> {
                &&& run.world.has(marker()) == w.has(marker())
                &&& w.has(marker()) ==> run.world.nodes[marker()] == w.nodes[marker()]
            }
        }),
{
    law_install_runs(archive, tag, m, w, fuel);
    lemma_fixed_places(tag);
    lemma_install_plan_is_local(archive, tag, m, w, marker());
}

/// The plan of an install leaves every file of the manifest that stood
/// before as it was, however the plan ends.
pub proof fn lemma_install_plan_keeps_files(
    archive: Seq<u8>,
    tag: Seq<char>,
    m: ManifestView,
    w: World,
    i: int,
)
    requires
        is_well_placed(m, tag),
        0 <= i < m.assets.len(),
        w.has(m.assets[i].path),
    ensures
        w.carried_out(install_steps(archive, tag, m)).has(m.assets[i].path),
        w.carried_out(install_steps(archive, tag, m)).nodes[m.assets[i].path]
            == w.nodes[m.assets[i].path],
{
    let path = m.assets[i].path;
    let plan = install_steps(archive, tag, m);
    let release = release_steps(archive, tag);
    lemma_install_in_two(archive, tag, m);
    lemma_carried_out_in_parts(release, manifest_steps(m), w);
    lemma_release_steps_are_local(archive, tag, w, path);
    lemma_manifest_places_only(m);
    lemma_placements_grow(manifest_steps(m), w.carried_out(release));
    assert(w.carried_out(release).nodes.contains_key(path));
}

/// An install leaves every file of the manifest that stood before as it
/// was, however it ends: such a file is neither deleted nor overwritten.
/// This is stated of a manifest whose places lie apart.
pub proof fn law_install_keeps_manifest_files(
    archive: Seq<u8>,
    tag: Seq<char>,
    m: ManifestView,
    w: World,
    i: int,
    fuel: nat,
)
    requires
        is_well_placed(m, tag),
        0 <= i < m.assets.len(),
        w.has(m.assets[i].path),
        fuel >= 2 * install_steps(archive, tag, m).len() + 3,
    ensures
        ({
            let run = driven(install_next(), install_begun(archive, tag, m), w, fuel);
            &&& run.world.has(m.assets[i].path)
            &&& run.world.nodes[m.assets[i].path] == w.nodes[m.assets[i].path]
        }),
{
    law_install_runs(archive, tag, m, w, fuel);
    lemma_install_plan_keeps_files(archive, tag, m, w, i);
}

/// A plan asks questions and asks for changes: it sends nothing to a remote
/// endpoint.
pub proof fn lemma_plan_stays_local(plan: Seq<InstrView>, w: World)
    ensures
        forall|k: int|
            0 <= k < asked_for(w, plan).len() ==> !(#[trigger] asked_for(w, plan)[k] is Get),
    decreases plan.len(),
{
    if plan.len() > 0 {
        if !w.fails(plan[0]) {
            lemma_plan_stays_local(plan.drop_first(), w.settled(plan[0]));
        }
    }
}

/// Where something that is no link stands at the place of the link to the
/// executable, an install fails and leaves it alone: it looks no version
/// up, and it leaves the version record as it was, given a manifest that is
/// clear of the record. Where the release itself could be put in place, as
/// it can where the archive unpacks to the directory expected of it and no
/// file stands at the place of the directory of the release, the install
/// ends with the error for the link.
pub proof fn law_file_at_link_fails_install(
    archive: Seq<u8>,
    tag: Seq<char>,
    m: ManifestView,
    w: World,
    fuel: nat,
)
    requires
        w.has(LINK_PATH@),
        !w.has_link(LINK_PATH@),
        fuel >= 2 * install_steps(archive, tag, m).len() + 3,
    ensures
        ({
            let run = driven(install_next(), install_begun(archive, tag, m), w, fuel);
            let before = seq![unpacking(archive), clearing(), settling(tag)];
            &&& run.progress is Done
            &&& run.progress->Done_0 is Err
            &&& w.result_of(before) is Ok ==> run.progress->Done_0 == Err::<(), ErrorView>(
                ErrorView::Symlink { detail: LINK_TEXT@ + w.excuse },
            )
            &&& unpacks_to_release(w, archive, tag) && unpacks_only_to_release(w, archive, tag)
                && !w.has_file(INSTALL_PATH@) ==> w.result_of(before) is Ok
            &&& run.world.has(LINK_PATH@) && run.world.nodes[LINK_PATH@] == w.nodes[LINK_PATH@]
            &&& forall|k: int| 0 <= k < run.asked.len() ==> !(#[trigger] run.asked[k] is Get)
            &&& is_clear_of_record(m) ==> run.world.has(marker()) == w.has(marker()) && (w.has(
                marker(),
            ) ==> run.world.nodes[marker()] == w.nodes[marker()])
        }),
{
    if is_clear_of_record(m) {
        law_failed_install_keeps_record(archive, tag, m, w, fuel);
    }
    if unpacks_to_release(w, archive, tag) && unpacks_only_to_release(w, archive, tag)
        && !w.has_file(INSTALL_PATH@) {
        lemma_release_lands(archive, tag, w);
    }
    let plan = install_steps(archive, tag, m);
    let before = seq![unpacking(archive), clearing(), settling(tag)];
    let after = seq![unlinking(), linking()] + manifest_steps(m);
    assert(plan =~= before + after);
    law_install_runs(archive, tag, m, w, fuel);
    lemma_fixed_places(tag);
    lemma_carried_out_in_parts(before, after, w);
    lemma_plan_is_local(before, w, LINK_PATH@);
    lemma_plan_stays_local(plan, w);
    let reached = w.carried_out(before);
    if w.result_of(before) is Ok {
        assert(reached.result_of(after) == Err::<(), ErrorView>(
            ErrorView::Symlink { detail: LINK_TEXT@ + w.excuse },
        ) && reached.carried_out(after) == reached) by {
            reveal_with_fuel(World::result_of, 3);
            reveal_with_fuel(World::carried_out, 3);
            lemma_plan_changes_nodes_only(before, w);
            assert(after[0] == unlinking() && after[1] == linking());
            assert(after.drop_first()[0] == linking());
        }
    }
}

/// After an install that ended in success the version record reads as the
/// latest version that the registry offered, without its newlines and
/// spaces, whatever the record held before. This is stated of a latest
/// version that is not empty.
pub proof fn law_install_records_latest(
    archive: Seq<u8>,
    tag: Seq<char>,
    m: ManifestView,
    w: World,
    latest: Seq<char>,
    fuel: nat,
)
    requires
        registry_offers(w, latest),
        latest.len() > 0,
        fuel >= 2 * install_steps(archive, tag, m).len() + 3,
    ensures
        ({
            let run = driven(install_next(), install_begun(archive, tag, m), w, fuel);
            run.progress == ProgressView::<InstallView, Result<(), ErrorView>>::Done(Ok(()))
                ==> run.world.has(marker()) && run.world.nodes[marker()] == Node::File(
                encode_utf8(latest),
            ) && current_version(run.world.answer(RequestView::ReadFile { path: marker() }))
                == Ok::<Seq<char>, ErrorView>(strip(latest))
        }),
{
    law_install_runs(archive, tag, m, w, fuel);
    encode_utf8_valid_utf8(latest);
    encode_utf8_decode_utf8(latest);
    assert(encode_utf8(latest).len() > 0);
}

/// A setup ends at the first change of its plan that was not made, with the
/// error of the plan.
pub proof fn law_failed_change_ends_setup(
    rest: Seq<InstrView>,
    blame: Blame,
    subject: Seq<char>,
    reply: ReplyView,
)
    requires
        reply != ReplyView::Done,
    ensures
        SetupView::Installing(
            InstallView::Placing(
                RunnerView { rest, phase: PhaseView::Performing { blame, subject } },
            ),
        ).next(reply) == ProgressView::<SetupView, Result<(), ErrorView>>::Done(
            Err(blame.error(subject, reply.detail())),
        ),
{
}

/// For an architecture without a tag a download, and a setup with it, ends
/// with the error for that before anything is asked, whatever the world.
pub proof fn law_unsupported_architecture_asks_nothing(
    arch: Seq<char>,
    m: ManifestView,
    w: World,
    fuel: nat,
)
    requires
        tag_of(arch).is_none(),
    ensures
        driven(download_next(), download_begun(arch), w, fuel) == (Run::<
            DownloadView,
            Result<(Seq<u8>, Seq<char>), ErrorView>,
        > {
            progress: ProgressView::Done(Err(ErrorView::UnsupportedArchitecture)),
            world: w,
            asked: Seq::empty(),
        }),
        driven(setup_next(), setup_begun(arch, m), w, fuel) == (Run::<
            SetupView,
            Result<(), ErrorView>,
        > {
            progress: ProgressView::Done(Err(ErrorView::UnsupportedArchitecture)),
            world: w,
            asked: Seq::empty(),
        }),
{
    reveal_with_fuel(driven, 1);
}

/// The download endpoint answers the request for the archive for `tag` with
/// success, and hands `archive` over as the body.
pub open spec fn release_offers(w: World, tag: Seq<char>, archive: Seq<u8>) -> bool {
    (w.remote)(RequestView::Get { url: download_address(tag) }) matches ReplyView::Status {
        code,
        length,
    } && is_success(code) && (w.remote)(
        RequestView::ReadBody { expected: expected_length(length) },
    ) == ReplyView::Bytes(archive)
}

/// The announced length of the archive for `tag`.
pub open spec fn announced(w: World, tag: Seq<char>) -> u64 {
    match (w.remote)(RequestView::Get { url: download_address(tag) }) {
        ReplyView::Status { code, length } => expected_length(length),
        _ => 0,
    }
}

/// The requests of a download that succeeds.
pub open spec fn download_requests(w: World, tag: Seq<char>) -> Seq<RequestView> {
    seq![
        RequestView::Get { url: download_address(tag) },
        RequestView::ReadBody { expected: announced(w, tag) },
    ]
}

/// A setup for an architecture with the tag `tag`, run in a world whose
/// download endpoint offers `archive`, fetches the archive and then does
/// what an install of that archive does: it ends as the install ends, and
/// leaves the world that the install leaves.
pub proof fn law_setup_runs(
    arch: Seq<char>,
    tag: Seq<char>,
    archive: Seq<u8>,
    m: ManifestView,
    w: World,
    fuel: nat,
)
    requires
        tag_of(arch) == Some(tag),
        release_offers(w, tag, archive),
        fuel >= 2 * install_steps(archive, tag, m).len() + 5,
    ensures
        ({
            let run = driven(setup_next(), setup_begun(arch, m), w, fuel);
            let install = driven(
                install_next(),
                install_begun(archive, tag, m),
                w,
                (fuel - 2) as nat,
            );
            &&& run.progress == ProgressView::<SetupView, Result<(), ErrorView>>::Done(
                install_result(archive, tag, m, w),
            )
            &&& run.world == install_world(archive, tag, m, w)
            &&& run.asked == download_requests(w, tag) + install.asked
        }),
{
    let plan = install_steps(archive, tag, m);
    let embed = |install: InstallView| SetupView::Installing(install);
    let then = |result: Result<(), ErrorView>|
        ProgressView::<SetupView, Result<(), ErrorView>>::Done(result);
    let enough = (fuel - 2) as nat;
    law_install_runs(archive, tag, m, w, enough);
    let part = driven(install_next(), install_begun(archive, tag, m), w, enough);
    assert(driven(setup_next(), then(part.progress->Done_0), part.world, 0).asked
        =~= Seq::empty()) by {
        reveal_with_fuel(driven, 1);
    }
    assert forall|install: InstallView, reply: ReplyView| #[trigger]
        setup_next()(embed(install), reply) == lifted(
            install_next()(install, reply),
            embed,
            then,
        ) by {}
    lemma_run_through(
        install_next(),
        setup_next(),
        embed,
        then,
        install_begun(archive, tag, m),
        w,
        enough,
        0,
    );
    let installing = lifted(install_begun(archive, tag, m), embed, then);
    let inner = driven(setup_next(), installing, w, enough);
    assert(inner.asked =~= part.asked);
    let run = driven(setup_next(), setup_begun(arch, m), w, fuel);
    assert(run.progress == inner.progress && run.world == inner.world && run.asked
        =~= download_requests(w, tag) + inner.asked) by {
        reveal_with_fuel(driven, 3);
    }
}

/// What stood at or beneath `to` after a move stood at or beneath `from`
/// before it, at the path that the move took it from.
pub proof fn lemma_moved_is_within(path: Seq<char>, to: Seq<char>, from: Seq<char>)
    requires
        within(path, to),
    ensures
        within(moved(path, to, from), from),
{
    let source = moved(path, to, from);
    if path == to {
        assert(source =~= from);
    } else {
        assert(source.subrange(0, from.len() as int) =~= from);
        assert(source[from.len() as int] == path[to.len() as int]);
    }
}

/// The world right after the archive was unpacked.
pub open spec fn unpacked_world(archive: Seq<u8>, w: World) -> World {
    w.after(RequestView::Perform(unpacking(archive).op))
}

/// The plan of an install in its four parts, and the worlds between them.
/// Where the plan ends in success each part does, and the plan leaves the
/// world that the last part leaves.
pub proof fn lemma_install_in_parts(archive: Seq<u8>, tag: Seq<char>, m: ManifestView, w: World)
    requires
        w.result_of(install_steps(archive, tag, m)) is Ok,
    ensures
        ({
            let opened = unpacked_world(archive, w);
            let cleared = opened.carried_out(seq![clearing()]);
            let settled = cleared.carried_out(seq![settling(tag)]);
            &&& w.can(unpacking(archive).op)
            &&& opened.result_of(seq![clearing()]) is Ok
            &&& cleared.has(unpacked(tag))
            &&& settled == cleared.after(RequestView::Perform(settling(tag).op))
            &&& settled.result_of(integration_steps(m)) is Ok
            &&& w.carried_out(install_steps(archive, tag, m)) == settled.carried_out(
                integration_steps(m),
            )
        }),
{
    let plan = install_steps(archive, tag, m);
    let first = seq![unpacking(archive)];
    let second = seq![clearing()];
    let third = seq![settling(tag)];
    let rest = integration_steps(m);
    assert(plan =~= first + (second + (third + rest)));
    lemma_carried_out_in_parts(first, second + (third + rest), w);
    let opened = w.carried_out(first);
    assert(w.result_of(first) is Ok && opened == unpacked_world(archive, w) && w.can(
        unpacking(archive).op,
    )) by {
        reveal_with_fuel(World::result_of, 2);
        reveal_with_fuel(World::carried_out, 2);
        assert(first.drop_first().len() == 0);
        assert((first + (second + (third + rest)))[0] == unpacking(archive));
    }
    lemma_carried_out_in_parts(second, third + rest, opened);
    let cleared = opened.carried_out(second);
    lemma_carried_out_in_parts(third, rest, cleared);
    assert(cleared.result_of(third) is Ok ==> cleared.has(unpacked(tag)) && cleared.carried_out(
        third,
    ) == cleared.after(RequestView::Perform(settling(tag).op))) by {
        reveal_with_fuel(World::result_of, 2);
        reveal_with_fuel(World::carried_out, 2);
        assert(third.drop_first().len() == 0);
    }
}

/// An install that put the release in place has moved what stood at and
/// beneath the unpacked directory, right after the archive was unpacked, to
/// the directory of the release: the same nodes stand at the same paths
/// beneath it, nothing else stands there, and nothing is left at or
/// beneath the unpacked directory. This is stated of a manifest whose
/// places lie apart.
pub proof fn law_install_moves_unpacked_tree(
    archive: Seq<u8>,
    tag: Seq<char>,
    m: ManifestView,
    w: World,
)
    requires
        is_well_placed(m, tag),
        w.result_of(install_steps(archive, tag, m)) is Ok,
    ensures
        ({
            let placed = w.carried_out(install_steps(archive, tag, m));
            let opened = unpacked_world(archive, w);
            &&& forall|path: Seq<char>| #[trigger]
                within(path, INSTALL_PATH@) ==> {
                    let source = moved(path, INSTALL_PATH@, unpacked(tag));
                    &&& within(source, unpacked(tag))
                    &&& placed.has(path) == opened.has(source)
                    &&& placed.has(path) ==> placed.nodes[path] == opened.nodes[source]
                }
            &&& forall|path: Seq<char>| #[trigger]
                within(path, unpacked(tag)) ==> !placed.has(path)
        }),
{
    let plan = install_steps(archive, tag, m);
    let placed = w.carried_out(plan);
    let fresh = unpacked(tag);
    let opened = unpacked_world(archive, w);
    let cleared = opened.carried_out(seq![clearing()]);
    let settled = cleared.carried_out(seq![settling(tag)]);
    let rest = integration_steps(m);
    lemma_install_in_parts(archive, tag, m, w);
    lemma_fixed_places(tag);
    reveal_strlit("/usr/lib/VSCode-");
    reveal_strlit("/usr/lib/vscode");
    reveal_strlit("/usr/bin/vscode");
    assert(fresh[9] == 'V' && INSTALL_PATH@[9] == 'v');
    assert(fresh[5] == 'l' && INSTALL_PATH@[5] == 'l' && LINK_PATH@[5] == 'b');
    assert forall|path: Seq<char>| within(path, INSTALL_PATH@) || within(path, fresh) implies
        placed.has(path) == settled.has(path) && (settled.has(path) ==> placed.nodes[path]
            == settled.nodes[path]) by {
        if within(path, INSTALL_PATH@) {
            lemma_beneath_other_start(path, INSTALL_PATH@, LINK_PATH@, 5);
        } else {
            lemma_beneath_other_start(path, fresh, LINK_PATH@, 5);
        }
        lemma_rest_is_local(m, tag, settled, path);
    }
    assert forall|path: Seq<char>| #[trigger] within(path, INSTALL_PATH@) implies {
        let source = moved(path, INSTALL_PATH@, fresh);
        &&& within(source, fresh)
        &&& placed.has(path) == opened.has(source)
        &&& placed.has(path) ==> placed.nodes[path] == opened.nodes[source]
    } by {
        let source = moved(path, INSTALL_PATH@, fresh);
        lemma_moved_is_within(path, INSTALL_PATH@, fresh);
        lemma_beneath_other_start(source, fresh, INSTALL_PATH@, 9);
        lemma_plan_is_local(seq![clearing()], opened, source);
        assert(settled.has(path) == cleared.has(source));
    }
    assert forall|path: Seq<char>| #[trigger] within(path, fresh) implies !placed.has(path) by {
        lemma_beneath_other_start(path, fresh, INSTALL_PATH@, 9);
        assert(!settled.has(path));
    }
}

/// The steps of an install that follow the move of the release leave what
/// stands at or beneath the directory of the release, or the unpacked
/// directory, as it is.
pub proof fn lemma_rest_is_local(m: ManifestView, tag: Seq<char>, w: World, path: Seq<char>)
    requires
        is_well_placed(m, tag),
        within(path, INSTALL_PATH@) || within(path, unpacked(tag)),
        path != LINK_PATH@,
    ensures
        w.carried_out(integration_steps(m)).has(path) == w.has(path),
        w.has(path) ==> w.carried_out(integration_steps(m)).nodes[path] == w.nodes[path],
{
    let rest = integration_steps(m);
    let manifest = manifest_steps(m);
    assert forall|k: int| 0 <= k < rest.len() implies !reaches((#[trigger] rest[k]).op, path) by {
        if k >= 2 {
            assert(rest[k] == manifest[k - 2]);
            if k - 2 < m.directories.len() {
                assert(manifest[k - 2].op.subject() == m.directories[k - 2]);
                assert(is_apart(m.directories[k - 2], tag));
            } else {
                let i = k - 2 - m.directories.len();
                assert(manifest[k - 2].op.subject() == m.assets[i].path);
                assert(is_apart(m.assets[i].path, tag));
            }
        }
    }
    lemma_plan_is_local(rest, w, path);
}

/// The archive unpacks, in the directory for releases, to the directory
/// that is expected of the archive for `tag`.
pub open spec fn unpacks_to_release(w: World, archive: Seq<u8>, tag: Seq<char>) -> bool {
    w.unpacked(archive, VSCODE_PATH@).contains_key(unpacked(tag)) && w.unpacked(
        archive,
        VSCODE_PATH@,
    )[unpacked(tag)] == Node::Dir
}

/// Putting a release in place, with an archive that unpacks to the
/// directory expected of it and a manifest whose places lie apart, leaves
/// the directory of the release; the link to the executable, which points
/// into that directory; every directory of the manifest; and every file of
/// the manifest, as it was where it stood before, and with the content that
/// the manifest gives it where it did not.
pub proof fn law_install_puts_release_in_place(
    archive: Seq<u8>,
    tag: Seq<char>,
    m: ManifestView,
    w: World,
)
    requires
        is_well_placed(m, tag),
        unpacks_to_release(w, archive, tag),
        w.result_of(install_steps(archive, tag, m)) is Ok,
    ensures
        ({
            let placed = w.carried_out(install_steps(archive, tag, m));
            &&& placed.has_dir(INSTALL_PATH@)
            &&& placed.has(LINK_PATH@) && placed.nodes[LINK_PATH@] == Node::Link(
                EXECUTABLE_PATH@,
            )
            &&& within(EXECUTABLE_PATH@, INSTALL_PATH@)
            &&& forall|j: int|
                0 <= j < m.directories.len() ==> placed.has(#[trigger] m.directories[j])
            &&& forall|i: int|
                0 <= i < m.assets.len() ==> {
                    let path = (#[trigger] m.assets[i]).path;
                    &&& placed.has(path)
                    &&& w.has(path) ==> placed.nodes[path] == w.nodes[path]
                    &&& !w.has(path) ==> placed.nodes[path] == Node::File(m.assets[i].content)
                }
        }),
{
    let plan = install_steps(archive, tag, m);
    let placed = w.carried_out(plan);
    let fresh = unpacked(tag);
    let manifest = manifest_steps(m);
    let release = release_steps(archive, tag);
    let before = seq![unpacking(archive), clearing(), settling(tag), unlinking()];
    lemma_fixed_places(tag);
    assert(placed.has_dir(INSTALL_PATH@)) by {
        law_install_moves_unpacked_tree(archive, tag, m, w);
        lemma_install_in_parts(archive, tag, m, w);
        assert(within(INSTALL_PATH@, INSTALL_PATH@));
        assert(moved(INSTALL_PATH@, INSTALL_PATH@, fresh) =~= fresh);
    }
    lemma_install_in_two(archive, tag, m);
    lemma_carried_out_in_parts(release, manifest, w);
    let released = w.carried_out(release);
    assert(released.has(LINK_PATH@) && released.nodes[LINK_PATH@] == Node::Link(
        EXECUTABLE_PATH@,
    )) by {
        assert(release =~= before + seq![linking()]);
        lemma_carried_out_in_parts(before, seq![linking()], w);
        reveal_with_fuel(World::result_of, 2);
        reveal_with_fuel(World::carried_out, 2);
        assert(seq![linking()].drop_first().len() == 0);
    }
    lemma_manifest_places_only(m);
    lemma_placements_grow(manifest, released);
    lemma_placements_fill(manifest, released);
    assert(released.nodes.contains_key(LINK_PATH@));
    assert forall|j: int| 0 <= j < m.directories.len() implies placed.has(
        #[trigger] m.directories[j],
    ) by {
        assert(manifest[j].op.subject() == m.directories[j]);
    }
    assert forall|i: int| 0 <= i < m.assets.len() implies {
        let path = (#[trigger] m.assets[i]).path;
        &&& placed.has(path)
        &&& w.has(path) ==> placed.nodes[path] == w.nodes[path]
        &&& !w.has(path) ==> placed.nodes[path] == Node::File(m.assets[i].content)
    } by {
        let path = m.assets[i].path;
        if w.has(path) {
            lemma_install_plan_keeps_files(archive, tag, m, w, i);
        } else {
            lemma_release_steps_are_local(archive, tag, w, path);
            lemma_manifest_writes_what_is_missing(m, tag, released, i);
        }
    }
}

/// Nothing stands at or beneath the directory that the archive for `tag`
/// unpacks to.
pub open spec fn is_vacant(w: World, tag: Seq<char>) -> bool {
    forall|path: Seq<char>| #[trigger] within(path, unpacked(tag)) ==> !w.has(path)
}

/// An install that put the release in place, in a world in which nothing
/// stood where the archive unpacks to, leaves beneath the directory of the
/// release exactly the tree that the archive holds beneath the directory
/// that it unpacks to: the same nodes at the same paths. This is stated of a
/// manifest whose places lie apart.
pub proof fn law_install_tree_is_the_archives(
    archive: Seq<u8>,
    tag: Seq<char>,
    m: ManifestView,
    w: World,
)
    requires
        is_well_placed(m, tag),
        is_vacant(w, tag),
        w.result_of(install_steps(archive, tag, m)) is Ok,
    ensures
        ({
            let placed = w.carried_out(install_steps(archive, tag, m));
            let tree = w.unpacked(archive, VSCODE_PATH@);
            forall|path: Seq<char>| #[trigger]
                within(path, INSTALL_PATH@) ==> {
                    let source = moved(path, INSTALL_PATH@, unpacked(tag));
                    &&& placed.has(path) == tree.contains_key(source)
                    &&& placed.has(path) ==> placed.nodes[path] == tree[source]
                }
        }),
{
    law_install_moves_unpacked_tree(archive, tag, m, w);
    lemma_install_in_parts(archive, tag, m, w);
}

/// A setup that ended in success has installed the release. In a world
/// whose download endpoint offers an archive that unpacks to the directory
/// expected of it, where nothing stood before, and whose registry offers
/// `latest`, and with a manifest whose places lie apart, it leaves the
/// directory of the release with exactly the archive's tree beneath it,
/// nothing where the archive was unpacked to, the link to the executable,
/// the directories and files of the manifest, and a version record that
/// holds `latest`.
pub proof fn law_setup_installs(
    arch: Seq<char>,
    tag: Seq<char>,
    archive: Seq<u8>,
    m: ManifestView,
    w: World,
    latest: Seq<char>,
    fuel: nat,
)
    requires
        tag_of(arch) == Some(tag),
        release_offers(w, tag, archive),
        registry_offers(w, latest),
        unpacks_to_release(w, archive, tag),
        is_vacant(w, tag),
        is_well_placed(m, tag),
        fuel >= 2 * install_steps(archive, tag, m).len() + 5,
        driven(setup_next(), setup_begun(arch, m), w, fuel).progress == ProgressView::<
            SetupView,
            Result<(), ErrorView>,
        >::Done(Ok(())),
    ensures
        ({
            let last = driven(setup_next(), setup_begun(arch, m), w, fuel).world;
            let tree = w.unpacked(archive, VSCODE_PATH@);
            &&& last.has_dir(INSTALL_PATH@)
            &&& forall|path: Seq<char>| #[trigger]
                within(path, INSTALL_PATH@) ==> {
                    let source = moved(path, INSTALL_PATH@, unpacked(tag));
                    &&& last.has(path) == tree.contains_key(source)
                    &&& last.has(path) ==> last.nodes[path] == tree[source]
                }
            &&& forall|path: Seq<char>| #[trigger] within(path, unpacked(tag)) ==> !last.has(path)
            &&& last.has(LINK_PATH@) && last.nodes[LINK_PATH@] == Node::Link(EXECUTABLE_PATH@)
            &&& within(EXECUTABLE_PATH@, INSTALL_PATH@)
            &&& forall|j: int|
                0 <= j < m.directories.len() ==> last.has(#[trigger] m.directories[j])
            &&& forall|i: int|
                0 <= i < m.assets.len() ==> {
                    let path = (#[trigger] m.assets[i]).path;
                    &&& last.has(path)
                    &&& w.has(path) ==> last.nodes[path] == w.nodes[path]
                    &&& !w.has(path) ==> last.nodes[path] == Node::File(m.assets[i].content)
                }
            &&& last.has(marker()) && last.nodes[marker()] == Node::File(encode_utf8(latest))
        }),
{
    let plan = install_steps(archive, tag, m);
    let placed = w.carried_out(plan);
    let last = placed.after(record(latest));
    law_setup_runs(arch, tag, archive, m, w, fuel);
    assert(driven(setup_next(), setup_begun(arch, m), w, fuel).world == last);
    law_install_puts_release_in_place(archive, tag, m, w);
    law_install_moves_unpacked_tree(archive, tag, m, w);
    law_install_tree_is_the_archives(archive, tag, m, w);
    lemma_fixed_places(tag);
    reveal_strlit("/var/lib/vsdown/");
    reveal_strlit("/usr/lib/VSCode-");
    reveal_strlit("/usr/lib/vscode");
    assert(marker()[1] == 'v' && unpacked(tag)[1] == 'u' && INSTALL_PATH@[1] == 'u');
    assert forall|path: Seq<char>|
        within(path, INSTALL_PATH@) || within(path, unpacked(tag)) implies path != marker() by {
        if within(path, INSTALL_PATH@) {
            lemma_beneath_other_start(path, INSTALL_PATH@, marker(), 1);
        } else {
            lemma_beneath_other_start(path, unpacked(tag), marker(), 1);
        }
    }
    assert forall|i: int| 0 <= i < m.assets.len() implies {
        let path = (#[trigger] m.assets[i]).path;
        &&& last.has(path)
        &&& w.has(path) ==> last.nodes[path] == w.nodes[path]
        &&& !w.has(path) ==> last.nodes[path] == Node::File(m.assets[i].content)
    } by {
        assert(placed.has(m.assets[i].path));
    }
    assert forall|j: int| 0 <= j < m.directories.len() implies last.has(
        #[trigger] m.directories[j],
    ) by {
        assert(placed.has(m.directories[j]));
    }
}

/// The places of the desktop integration of the release lie apart, for
/// any tag.
pub proof fn lemma_desktop_is_well_placed(
    appdata: Seq<u8>,
    desktop: Seq<u8>,
    url_handler: Seq<u8>,
    workspace: Seq<u8>,
    icon: Seq<u8>,
    tag: Seq<char>,
)
    ensures
        is_well_placed(desktop_manifest(appdata, desktop, url_handler, workspace, icon), tag),
{
    let m = desktop_manifest(appdata, desktop, url_handler, workspace, icon);
    reveal_strlit("/var/lib/vsdown/");
    reveal_strlit("current_version");
    reveal_strlit("/usr/share/appdata/code.appdata.xml");
    reveal_strlit("/usr/share/applications/code.desktop");
    reveal_strlit("/usr/share/applications/code-url-handler.desktop");
    reveal_strlit("/usr/share/mine/packages/code-workspace.xml");
    reveal_strlit("/usr/share/pixmaps/com.visualstudio.code.png");
    reveal_strlit("/usr/share/appdata");
    reveal_strlit("/usr/share/applications");
    reveal_strlit("/usr/share/mine/packages");
    reveal_strlit("/usr/share/pixmaps");
    reveal_strlit("/usr/lib");
    reveal_strlit("/usr/lib/VSCode-");
    reveal_strlit("/usr/lib/vscode");
    reveal_strlit("/usr/bin/vscode");
    let fresh = unpacked(tag);
    assert(marker()[1] == 'v');
    assert(fresh[5] == 'l' && INSTALL_PATH@[5] == 'l' && VSCODE_PATH@[5] == 'l');
    assert(LINK_PATH@[5] == 'b');
    assert forall|i: int| 0 <= i < m.directories.len() implies #[trigger] m.directories[i]
        != marker() && is_apart(m.directories[i], tag) by {
        let path = m.directories[i];
        assert(path[1] == 'u' && path[5] == 's');
        lemma_other_start(path, VSCODE_PATH@, 5);
        lemma_other_start(path, INSTALL_PATH@, 5);
        lemma_other_start(path, fresh, 5);
    }
    assert forall|i: int| 0 <= i < m.assets.len() implies (#[trigger] m.assets[i]).path
        != marker() && is_apart(m.assets[i].path, tag) by {
        let path = m.assets[i].path;
        assert(path[1] == 'u' && path[5] == 's');
        lemma_other_start(path, VSCODE_PATH@, 5);
        lemma_other_start(path, INSTALL_PATH@, 5);
        lemma_other_start(path, fresh, 5);
    }
    assert forall|i: int, j: int|
        0 <= i < m.assets.len() && 0 <= j < m.assets.len() && i != j implies (#[trigger] m.assets[i])
        .path != (#[trigger] m.assets[j]).path by {
        assert(m.assets[0].path.len() == 35);
        assert(m.assets[1].path.len() == 36);
        assert(m.assets[2].path.len() == 48);
        assert(m.assets[3].path.len() == 43);
        assert(m.assets[4].path.len() == 44);
    }
    assert forall|i: int, j: int|
        0 <= i < m.assets.len() && 0 <= j < m.directories.len() implies (#[trigger] m.assets[i])
        .path != #[trigger] m.directories[j] by {
        assert(m.directories[0].len() == 18);
        assert(m.directories[1].len() == 23);
        assert(m.directories[2].len() == 24);
        assert(m.directories[3].len() == 18);
        assert(m.assets[i].path.len() >= 35);
    }
    lemma_desktop_is_housed(appdata, desktop, url_handler, workspace, icon);
}

/// Each file of the desktop integration lies in one of its directories.
pub proof fn lemma_desktop_is_housed(
    appdata: Seq<u8>,
    desktop: Seq<u8>,
    url_handler: Seq<u8>,
    workspace: Seq<u8>,
    icon: Seq<u8>,
)
    ensures
        ({
            let m = desktop_manifest(appdata, desktop, url_handler, workspace, icon);
            &&& lies_in(m.assets[0].path, m.directories[0])
            &&& lies_in(m.assets[1].path, m.directories[1])
            &&& lies_in(m.assets[2].path, m.directories[1])
            &&& lies_in(m.assets[3].path, m.directories[2])
            &&& lies_in(m.assets[4].path, m.directories[3])
        }),
{
    let m = desktop_manifest(appdata, desktop, url_handler, workspace, icon);
    reveal_strlit("/usr/share/appdata/code.appdata.xml");
    reveal_strlit("/usr/share/applications/code.desktop");
    reveal_strlit("/usr/share/applications/code-url-handler.desktop");
    reveal_strlit("/usr/share/mine/packages/code-workspace.xml");
    reveal_strlit("/usr/share/pixmaps/com.visualstudio.code.png");
    reveal_strlit("/usr/share/appdata");
    reveal_strlit("/usr/share/applications");
    reveal_strlit("/usr/share/mine/packages");
    reveal_strlit("/usr/share/pixmaps");
    assert(m.assets[0].path.subrange(0, 18) =~= m.directories[0]);
    assert(m.assets[1].path.subrange(0, 23) =~= m.directories[1]);
    assert(m.assets[2].path.subrange(0, 23) =~= m.directories[1]);
    assert(m.assets[3].path.subrange(0, 24) =~= m.directories[2]);
    assert(m.assets[4].path.subrange(0, 18) =~= m.directories[3]);
    assert(m.assets[0].path[18] == '/');
    assert(m.assets[1].path[23] == '/');
    assert(m.assets[2].path[23] == '/');
    assert(m.assets[3].path[24] == '/');
    assert(m.assets[4].path[18] == '/');
}

/// Whatever the archive unpacks lies at or beneath the directory that is
/// expected of the archive for `tag`.
pub open spec fn unpacks_only_to_release(w: World, archive: Seq<u8>, tag: Seq<char>) -> bool {
    forall|path: Seq<char>| #[trigger]
        w.unpacked(archive, VSCODE_PATH@).contains_key(path) ==> within(path, unpacked(tag))
}

/// The world lets a release be installed: no file stands at the place of
/// the directory of the release; a link or nothing stands at the place of
/// the link to the executable; a directory or nothing stands at the place
/// of each directory of the manifest; and the directory of the version
/// record stands, with no directory at the place of the record.
pub open spec fn is_ready(w: World, m: ManifestView) -> bool {
    &&& !w.has_file(INSTALL_PATH@)
    &&& !w.has(LINK_PATH@) || w.has_link(LINK_PATH@)
    &&& has_room_for(w, m)
    &&& w.has_dir(CURRENT_VERSION_DIRECTORY@)
    &&& !w.has_dir(marker())
}

/// The archive is unpacked, the directory of an earlier release is deleted
/// and the unpacked release is moved in, all in success, where the archive
/// unpacks to the directory expected of it and to nothing else, and no file
/// stands at the place of the directory of the release.
pub proof fn lemma_release_lands(archive: Seq<u8>, tag: Seq<char>, w: World)
    requires
        unpacks_to_release(w, archive, tag),
        unpacks_only_to_release(w, archive, tag),
        !w.has_file(INSTALL_PATH@),
    ensures
        w.result_of(seq![unpacking(archive), clearing(), settling(tag)]) is Ok,
{
    let fresh = unpacked(tag);
    let tree = w.unpacked(archive, VSCODE_PATH@);
    lemma_fixed_places(tag);
    assert(w.can(unpacking(archive).op));
    let opened = w.settled(unpacking(archive));
    assert(!tree.contains_key(INSTALL_PATH@)) by {
        if tree.contains_key(INSTALL_PATH@) {
            assert(within(INSTALL_PATH@, fresh));
        }
    }
    assert(opened.has(fresh) && !opened.has_file(INSTALL_PATH@));
    assert(!opened.fails(clearing()));
    let cleared = opened.settled(clearing());
    assert(cleared.has(fresh));
    assert(!cleared.fails(settling(tag)));
    let plan = seq![unpacking(archive), clearing(), settling(tag)];
    assert(w.result_of(plan) is Ok) by {
        reveal_with_fuel(World::result_of, 4);
        let second = plan.drop_first();
        let third = second.drop_first();
        assert(plan[0] == unpacking(archive) && second[0] == clearing() && third[0] == settling(
            tag,
        ));
        assert(third.drop_first().len() == 0);
    }
}

/// The steps that put the release itself in place end in success where the
/// archive unpacks to the directory expected of it and to nothing else, no
/// file stands at the place of the directory of the release, and a link or
/// nothing stands at the place of the link to the executable.
pub proof fn lemma_release_goes_through(archive: Seq<u8>, tag: Seq<char>, w: World)
    requires
        unpacks_to_release(w, archive, tag),
        unpacks_only_to_release(w, archive, tag),
        !w.has_file(INSTALL_PATH@),
        !w.has(LINK_PATH@) || w.has_link(LINK_PATH@),
    ensures
        w.result_of(release_steps(archive, tag)) is Ok,
{
    let fresh = unpacked(tag);
    let tree = w.unpacked(archive, VSCODE_PATH@);
    lemma_fixed_places(tag);
    assert(w.can(unpacking(archive).op));
    let opened = w.settled(unpacking(archive));
    assert(!tree.contains_key(INSTALL_PATH@) && !tree.contains_key(LINK_PATH@)) by {
        if tree.contains_key(INSTALL_PATH@) {
            assert(within(INSTALL_PATH@, fresh));
        }
        if tree.contains_key(LINK_PATH@) {
            assert(within(LINK_PATH@, fresh));
        }
    }
    assert(opened.has(fresh) && !opened.has_file(INSTALL_PATH@));
    assert(opened.has(LINK_PATH@) == w.has(LINK_PATH@) && opened.has_link(LINK_PATH@)
        == w.has_link(LINK_PATH@));
    assert(!opened.fails(clearing()));
    let cleared = opened.settled(clearing());
    assert(cleared.has(fresh) && cleared.has(LINK_PATH@) == w.has(LINK_PATH@)
        && cleared.has_link(LINK_PATH@) == w.has_link(LINK_PATH@));
    assert(!cleared.fails(settling(tag)));
    let settled = cleared.settled(settling(tag));
    assert(settled.has(LINK_PATH@) == w.has(LINK_PATH@) && settled.has_link(LINK_PATH@)
        == w.has_link(LINK_PATH@));
    assert(!settled.fails(unlinking()));
    let unlinked = settled.settled(unlinking());
    assert(!unlinked.has(LINK_PATH@));
    assert(!unlinked.fails(linking()));
    let plan = release_steps(archive, tag);
    assert(w.result_of(plan) is Ok) by {
        reveal_with_fuel(World::result_of, 6);
        let second = plan.drop_first();
        let third = second.drop_first();
        let fourth = third.drop_first();
        let fifth = fourth.drop_first();
        assert(plan[0] == unpacking(archive) && second[0] == clearing() && third[0] == settling(
            tag,
        ) && fourth[0] == unlinking() && fifth[0] == linking());
        assert(fifth.drop_first().len() == 0);
    }
}

/// An install ends in success where nothing stands in its way: in a world
/// that lets a release be installed, whose registry offers a latest
/// version, with an archive that unpacks to the directory expected of it
/// and to nothing else, and with a manifest whose places lie apart from
/// each other and from the directory of the version record.
pub proof fn law_install_succeeds(
    archive: Seq<u8>,
    tag: Seq<char>,
    m: ManifestView,
    w: World,
    latest: Seq<char>,
)
    requires
        registry_offers(w, latest),
        unpacks_to_release(w, archive, tag),
        unpacks_only_to_release(w, archive, tag),
        is_well_placed(m, tag),
        is_no_place_of(m, CURRENT_VERSION_DIRECTORY@),
        is_ready(w, m),
    ensures
        install_result(archive, tag, m, w) == Ok::<(), ErrorView>(()),
{
    let plan = install_steps(archive, tag, m);
    let release = release_steps(archive, tag);
    let manifest = manifest_steps(m);
    lemma_fixed_places(tag);
    lemma_install_in_two(archive, tag, m);
    lemma_release_goes_through(archive, tag, w);
    lemma_carried_out_in_parts(release, manifest, w);
    let released = w.carried_out(release);
    assert forall|j: int| 0 <= j < m.directories.len() implies !released.has(
        #[trigger] m.directories[j],
    ) || released.has_dir(m.directories[j]) by {
        assert(is_apart(m.directories[j], tag));
        assert(!w.has(m.directories[j]) || w.has_dir(m.directories[j]));
        lemma_release_steps_are_local(archive, tag, w, m.directories[j]);
    }
    lemma_manifest_goes_through(m, tag, released);
    let placed = w.carried_out(plan);
    lemma_install_plan_is_local(archive, tag, m, w, marker());
    lemma_install_plan_is_local(archive, tag, m, w, CURRENT_VERSION_DIRECTORY@);
    assert(placed.has_dir(CURRENT_VERSION_DIRECTORY@) && lies_in(
        marker(),
        CURRENT_VERSION_DIRECTORY@,
    ));
    assert(placed.houses(marker()));
    assert(!placed.has_dir(marker()));
}

/// A setup with the desktop integration of the release, whatever its files
/// hold, in a world that lets a release be installed and where nothing
/// stands where the archive unpacks to, ends in success with the release
/// installed: the directory of the release holds exactly the archive's
/// tree, the link to the executable points into it, every file of the
/// desktop integration stands, kept as it was where it stood before, and the
/// version record holds the latest version, so that it reads as that
/// version without its newlines and spaces where the version is not empty.
pub proof fn law_desktop_setup_installs(
    arch: Seq<char>,
    tag: Seq<char>,
    archive: Seq<u8>,
    appdata: Seq<u8>,
    desktop: Seq<u8>,
    url_handler: Seq<u8>,
    workspace: Seq<u8>,
    icon: Seq<u8>,
    w: World,
    latest: Seq<char>,
    fuel: nat,
)
    requires
        tag_of(arch) == Some(tag),
        release_offers(w, tag, archive),
        registry_offers(w, latest),
        unpacks_to_release(w, archive, tag),
        unpacks_only_to_release(w, archive, tag),
        is_vacant(w, tag),
        is_ready(w, desktop_manifest(appdata, desktop, url_handler, workspace, icon)),
        fuel >= 2 * install_steps(
            archive,
            tag,
            desktop_manifest(appdata, desktop, url_handler, workspace, icon),
        ).len() + 5,
    ensures
        ({
            let m = desktop_manifest(appdata, desktop, url_handler, workspace, icon);
            let run = driven(setup_next(), setup_begun(arch, m), w, fuel);
            let last = run.world;
            let tree = w.unpacked(archive, VSCODE_PATH@);
            &&& run.progress == ProgressView::<SetupView, Result<(), ErrorView>>::Done(Ok(()))
            &&& last.has_dir(INSTALL_PATH@)
            &&& forall|path: Seq<char>| #[trigger]
                within(path, INSTALL_PATH@) ==> {
                    let source = moved(path, INSTALL_PATH@, unpacked(tag));
                    &&& last.has(path) == tree.contains_key(source)
                    &&& last.has(path) ==> last.nodes[path] == tree[source]
                }
            &&& forall|path: Seq<char>| #[trigger] within(path, unpacked(tag)) ==> !last.has(path)
            &&& last.has(LINK_PATH@) && last.nodes[LINK_PATH@] == Node::Link(EXECUTABLE_PATH@)
            &&& forall|i: int|
                0 <= i < m.assets.len() ==> {
                    let path = (#[trigger] m.assets[i]).path;
                    &&& last.has(path)
                    &&& w.has(path) ==> last.nodes[path] == w.nodes[path]
                    &&& !w.has(path) ==> last.nodes[path] == Node::File(m.assets[i].content)
                }
            &&& last.has(marker()) && last.nodes[marker()] == Node::File(encode_utf8(latest))
            &&& latest.len() > 0 ==> current_version(
                last.answer(RequestView::ReadFile { path: marker() }),
            ) == Ok::<Seq<char>, ErrorView>(strip(latest))
        }),
{
    let m = desktop_manifest(appdata, desktop, url_handler, workspace, icon);
    lemma_desktop_is_well_placed(appdata, desktop, url_handler, workspace, icon, tag);
    assert(is_no_place_of(m, CURRENT_VERSION_DIRECTORY@)) by {
        reveal_strlit("/var/lib/vsdown/");
        reveal_strlit("/usr/share/appdata/code.appdata.xml");
        reveal_strlit("/usr/share/applications/code.desktop");
        reveal_strlit("/usr/share/applications/code-url-handler.desktop");
        reveal_strlit("/usr/share/mine/packages/code-workspace.xml");
        reveal_strlit("/usr/share/pixmaps/com.visualstudio.code.png");
        reveal_strlit("/usr/share/appdata");
        reveal_strlit("/usr/share/applications");
        reveal_strlit("/usr/share/mine/packages");
        reveal_strlit("/usr/share/pixmaps");
        assert(CURRENT_VERSION_DIRECTORY@[1] == 'v');
        assert forall|i: int| 0 <= i < m.directories.len() implies #[trigger] m.directories[i]
            != CURRENT_VERSION_DIRECTORY@ by {
            assert(m.directories[i][1] == 'u');
        }
        assert forall|i: int| 0 <= i < m.assets.len() implies (#[trigger] m.assets[i]).path
            != CURRENT_VERSION_DIRECTORY@ by {
            assert(m.assets[i].path[1] == 'u');
        }
    }
    law_install_succeeds(archive, tag, m, w, latest);
    law_setup_runs(arch, tag, archive, m, w, fuel);
    law_setup_installs(arch, tag, archive, m, w, latest, fuel);
    if latest.len() > 0 {
        encode_utf8_valid_utf8(latest);
        encode_utf8_decode_utf8(latest);
        assert(encode_utf8(latest).len() > 0);
    }
}

} // verus!
