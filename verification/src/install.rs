use crate::error::{Error, ErrorView};
use crate::layout::{
    arch_tag, download_address, download_url, marker, marker_path, tag_of, unpacked,
    unpacked_path, EXECUTABLE_PATH, INSTALL_PATH, LINK_PATH, VSCODE_PATH,
};
use crate::lookup::{
    accept, accepted, get_lastest_version, lookup_begun, looking_view, Lookup, Looking,
    LookingView,
};
use crate::manifest::{Asset, AssetView, Manifest, ManifestView};
use crate::plan::{
    proceed, running_view, steps_view, Blame, Guard, Instr, InstrView, Runner, RunnerView,
    Running, RunningView,
};
use crate::wire::{Op, OpView, Progress, ProgressView, Reply, ReplyView, Request, RequestView};
use vstd::prelude::*;
use vstd::string::{StrSliceExecFns, StringExecFns};
use vstd::utf8::encode_utf8;

verus! {

/// The step that writes a file of the desktop integration where none stands.
pub open spec fn placing_of(asset: AssetView) -> InstrView {
    InstrView {
        guard: Guard::IfAbsent,
        op: OpView::CreateFile { path: asset.path, content: asset.content },
        blame: Blame::Asset,
    }
}

/// The step that makes a directory of the desktop integration.
pub open spec fn making_of(path: Seq<char>) -> InstrView {
    InstrView { guard: Guard::Always, op: OpView::CreateDirAll { path }, blame: Blame::Directory }
}

/// The step that links the executable.
pub open spec fn linking() -> InstrView {
    InstrView {
        guard: Guard::Always,
        op: OpView::Symlink { target: EXECUTABLE_PATH@, link: LINK_PATH@ },
        blame: Blame::Link,
    }
}

/// The plan that installs a manifest: its directories are made, then each of
/// its files is written where none stands at its place.
pub open spec fn manifest_steps(m: ManifestView) -> Seq<InstrView> {
    m.directories.map_values(|d: Seq<char>| making_of(d)) + m.assets.map_values(
        |a: AssetView| placing_of(a),
    )
}

/// The step that deletes the link to the executable where a link stands at
/// its place. Anything else that stands there is left alone.
pub open spec fn unlinking() -> InstrView {
    InstrView {
        guard: Guard::IfLink,
        op: OpView::RemoveFile { path: LINK_PATH@ },
        blame: Blame::Plain,
    }
}

/// The plan of the desktop integration: a link to the executable that
/// stands already is deleted, the executable is linked, then the manifest is
/// installed.
pub open spec fn integration_steps(m: ManifestView) -> Seq<InstrView> {
    seq![unlinking(), linking()] + manifest_steps(m)
}

/// The step that unpacks a release archive.
pub open spec fn unpacking(archive: Seq<u8>) -> InstrView {
    InstrView {
        guard: Guard::Always,
        op: OpView::Unpack { archive, into: VSCODE_PATH@ },
        blame: Blame::Plain,
    }
}

/// The step that moves what the archive for `tag` unpacked to the directory
/// of the release.
pub open spec fn settling(tag: Seq<char>) -> InstrView {
    InstrView {
        guard: Guard::Always,
        op: OpView::Rename { from: unpacked(tag), to: INSTALL_PATH@ },
        blame: Blame::Plain,
    }
}

/// The step that deletes the directory of a release that was installed
/// before, where one stands.
pub open spec fn clearing() -> InstrView {
    InstrView {
        guard: Guard::IfPresent,
        op: OpView::RemoveDirAll { path: INSTALL_PATH@ },
        blame: Blame::Plain,
    }
}

/// The plan that puts a release in place: the archive is unpacked, the
/// directory of a release that was installed before is deleted, what was
/// unpacked is moved to the directory of the release, and the desktop
/// integration is installed. Beyond the directory that archives are
/// unpacked into, and the link to the executable, nothing that stands
/// already is deleted or overwritten; the version record is not touched.
pub open spec fn install_steps(archive: Seq<u8>, tag: Seq<char>, m: ManifestView) -> Seq<
    InstrView,
> {
    seq![unpacking(archive), clearing(), settling(tag)] + integration_steps(m)
}

/// The step that writes `buf` to `p` where nothing stands at `p`.
pub fn install_file_inner(p: String, buf: Vec<u8>) -> (step: Instr)
    ensures
        step@ == placing_of(AssetView { path: p@, content: buf@ }),
{
    Instr {
        guard: Guard::IfAbsent,
        op: Op::CreateFile { path: p, content: buf },
        blame: Blame::Asset,
    }
}

/// The plan that installs `manifest`: its directories, then its files.
pub fn plan_manifest(manifest: Manifest) -> (plan: Vec<Instr>)
    ensures
        steps_view(plan@) == manifest_steps(manifest@),
{
    let ghost m = manifest@;
    let Manifest { directories, assets } = manifest;
    let mut plan: Vec<Instr> = Vec::new();
    let mut i: usize = 0;
    while i < directories.len()
        invariant
            i <= directories.len(),
            m.directories == directories@.map_values(|d: String| d@),
            m.assets == assets@.map_values(|a: Asset| a@),
            plan.len() == i,
            forall|j: int| 0 <= j < i ==> (#[trigger] plan@[j])@ == making_of(m.directories[j]),
        decreases directories.len() - i,
    {
        plan.push(
            Instr {
                guard: Guard::Always,
                op: Op::CreateDirAll { path: directories[i].clone() },
                blame: Blame::Directory,
            },
        );
        i += 1;
    }
    let ghost made = plan@.len();
    let mut assets = assets;
    let mut taken: usize = 0;
    assert(m.assets.len() == assets.len());
    while assets.len() > 0
        invariant
            made == m.directories.len(),
            m.assets.len() <= usize::MAX,
            taken + assets.len() == m.assets.len(),
            forall|j: int|
                0 <= j < assets.len() ==> (#[trigger] assets@[j])@ == m.assets[taken + j],
            plan.len() == made + taken,
            forall|j: int| 0 <= j < made ==> (#[trigger] plan@[j])@ == making_of(m.directories[j]),
            forall|j: int|
                made <= j < made + taken ==> (#[trigger] plan@[j])@ == placing_of(
                    m.assets[j - made],
                ),
        decreases assets.len(),
    {
        let asset = assets.remove(0);
        plan.push(install_file_inner(asset.path, asset.content));
        taken += 1;
    }
    proof {
        assert(steps_view(plan@) =~= manifest_steps(m));
    }
    plan
}

/// The plan of the desktop integration: the link to the executable, which
/// replaces a link that stands already, then `manifest`'s directories and
/// files.
pub fn install_beyond(manifest: Manifest) -> (plan: Vec<Instr>)
    ensures
        steps_view(plan@) == integration_steps(manifest@),
{
    let mut plan: Vec<Instr> = Vec::new();
    plan.push(
        Instr {
            guard: Guard::IfLink,
            op: Op::RemoveFile { path: String::from_str(LINK_PATH) },
            blame: Blame::Plain,
        },
    );
    plan.push(
        Instr {
            guard: Guard::Always,
            op: Op::Symlink {
                target: String::from_str(EXECUTABLE_PATH),
                link: String::from_str(LINK_PATH),
            },
            blame: Blame::Link,
        },
    );
    let mut rest = plan_manifest(manifest);
    let ghost link = plan@;
    let ghost files = rest@;
    plan.append(&mut rest);
    proof {
        assert(steps_view(link) =~= seq![unlinking(), linking()]);
        assert(steps_view(plan@) =~= steps_view(link) + steps_view(files));
    }
    plan
}

/// The plan that puts the release in `buf`, made for the architecture tag
/// `arch`, in place.
pub fn plan_install(buf: Vec<u8>, arch: &str, manifest: Manifest) -> (plan: Vec<Instr>)
    ensures
        steps_view(plan@) == install_steps(buf@, arch@, manifest@),
{
    let mut plan: Vec<Instr> = Vec::new();
    plan.push(
        Instr {
            guard: Guard::Always,
            op: Op::Unpack { archive: buf, into: String::from_str(VSCODE_PATH) },
            blame: Blame::Plain,
        },
    );
    plan.push(
        Instr {
            guard: Guard::IfPresent,
            op: Op::RemoveDirAll { path: String::from_str(INSTALL_PATH) },
            blame: Blame::Plain,
        },
    );
    plan.push(
        Instr {
            guard: Guard::Always,
            op: Op::Rename { from: unpacked_path(arch), to: String::from_str(INSTALL_PATH) },
            blame: Blame::Plain,
        },
    );
    let mut integration = install_beyond(manifest);
    let ghost placing = plan@;
    let ghost integrating = integration@;
    plan.append(&mut integration);
    proof {
        assert(steps_view(placing) =~= seq![unpacking(buf@), clearing(), settling(arch@)]);
        assert(steps_view(plan@) =~= steps_view(placing) + steps_view(integrating));
    }
    plan
}

/// The machine that fetches a release archive.
#[derive(Debug, Clone, Copy, PartialEq, Eq)]
pub enum Download {
    /// Waits for the response to the request for the archive for `tag`.
    Connecting { tag: &'static str },
    /// Waits for the body of the response.
    Receiving { tag: &'static str },
}

/// A [`Download`] with its tag as a sequence of characters.
pub enum DownloadView {
    Connecting { tag: Seq<char> },
    Receiving { tag: Seq<char> },
}

impl View for Download {
    type V = DownloadView;

    open spec fn view(&self) -> DownloadView {
        match self {
            Download::Connecting { tag } => DownloadView::Connecting { tag: tag@ },
            Download::Receiving { tag } => DownloadView::Receiving { tag: tag@ },
        }
    }
}

/// The progress of a [`Download`]: in the end the archive and the tag of the
/// architecture that it is made for.
pub type Downloading = Progress<Download, Result<(Vec<u8>, &'static str), Error>>;

/// The view of the progress of a [`Download`].
pub type DownloadingView = ProgressView<DownloadView, Result<(Seq<u8>, Seq<char>), ErrorView>>;

/// The result of a download over views.
pub open spec fn download_result_view(r: Result<(Vec<u8>, &'static str), Error>) -> Result<
    (Seq<u8>, Seq<char>),
    ErrorView,
> {
    match r {
        Ok((archive, tag)) => Ok((archive@, tag@)),
        Err(e) => Err(e@),
    }
}

/// The progress of a [`Download`] over views.
pub open spec fn downloading_view(p: Downloading) -> DownloadingView {
    match p {
        Progress::Ask(download, request) => ProgressView::Ask(download@, request@),
        Progress::Done(r) => ProgressView::Done(download_result_view(r)),
    }
}

/// The number of bytes against which progress is shown: the announced length
/// of the body, or 0 where none was announced.
pub open spec fn expected_length(length: Option<u64>) -> u64 {
    match length {
        Some(n) => n,
        None => 0,
    }
}

/// A download for the architecture `arch` begins with a GET for the archive
/// under the architecture's tag. For an architecture without a tag it ends at
/// once, and nothing is asked for.
pub open spec fn download_begun(arch: Seq<char>) -> DownloadingView {
    match tag_of(arch) {
        Some(tag) => ProgressView::Ask(
            DownloadView::Connecting { tag },
            RequestView::Get { url: download_address(tag) },
        ),
        None => ProgressView::Done(Err(ErrorView::UnsupportedArchitecture)),
    }
}

impl DownloadView {
    /// How the download goes on after `reply`.
    ///
    /// A response of success has its body asked for; anything else ends the
    /// download as [`accepted`] says. The body that is then handed over is the
    /// archive; any other reply to that request is a failure of the network.
    pub open spec fn next(self, reply: ReplyView) -> DownloadingView {
        match self {
            DownloadView::Connecting { tag } => match accepted(reply) {
                Ok(length) => ProgressView::Ask(
                    DownloadView::Receiving { tag },
                    RequestView::ReadBody { expected: expected_length(length) },
                ),
                Err(e) => ProgressView::Done(Err(e)),
            },
            DownloadView::Receiving { tag } => match reply {
                ReplyView::Bytes(archive) => ProgressView::Done(Ok((archive, tag))),
                _ => ProgressView::Done(Err(ErrorView::Network { detail: reply.detail() })),
            },
        }
    }
}

impl Download {
    /// Takes the reply to the request that the download last asked, and goes on.
    pub fn step(self, reply: Reply) -> (p: Downloading)
        ensures
            downloading_view(p) == self@.next(reply@),
    {
        match self {
            Download::Connecting { tag } => match accept(reply) {
                Ok(length) => {
                    let expected: u64 = match length {
                        Some(n) => n,
                        None => 0,
                    };
                    Progress::Ask(Download::Receiving { tag }, Request::ReadBody { expected })
                },
                Err(e) => Progress::Done(Err(e)),
            },
            Download::Receiving { tag } => match reply {
                Reply::Bytes(archive) => Progress::Done(Ok((archive, tag))),
                other => Progress::Done(Err(Error::Network { detail: other.detail() })),
            },
        }
    }
}

/// Starts the download of the release for the architecture `arch`.
pub fn download_vscode(arch: &str) -> (p: Downloading)
    ensures
        downloading_view(p) == download_begun(arch@),
{
    match arch_tag(arch) {
        Some(tag) => Progress::Ask(
            Download::Connecting { tag },
            Request::Get { url: download_url(tag) },
        ),
        None => Progress::Done(Err(Error::UnsupportedArchitecture)),
    }
}

/// The machine that puts a release in place and records its version.
#[derive(Debug, Clone, PartialEq, Eq)]
pub enum Install {
    /// Carries out the plan that puts the release in place.
    Placing(Runner),
    /// Waits for the lookup of the version to record.
    Looking(Lookup),
    /// Waits for the version record to be written.
    Recording,
}

/// An [`Install`] over the view of its plan.
pub enum InstallView {
    Placing(RunnerView),
    Looking(Lookup),
    Recording,
}

impl View for Install {
    type V = InstallView;

    open spec fn view(&self) -> InstallView {
        match self {
            Install::Placing(runner) => InstallView::Placing(runner@),
            Install::Looking(lookup) => InstallView::Looking(*lookup),
            Install::Recording => InstallView::Recording,
        }
    }
}

/// The progress of an [`Install`].
pub type Installing = Progress<Install, Result<(), Error>>;

/// The view of the progress of an [`Install`].
pub type InstallingView = ProgressView<InstallView, Result<(), ErrorView>>;

/// The progress of an [`Install`] over views.
pub open spec fn installing_view(p: Installing) -> InstallingView {
    match p {
        Progress::Ask(install, request) => ProgressView::Ask(install@, request@),
        Progress::Done(r) => ProgressView::Done(crate::plan::unit_result_view(r)),
    }
}

/// The request that writes `version` to the version record, in place of
/// whatever the record held.
pub open spec fn record(version: Seq<char>) -> RequestView {
    RequestView::Perform(OpView::CreateFile { path: marker(), content: encode_utf8(version) })
}

/// How an install goes on with the progress of its lookup: it hands the
/// lookup's requests on, fails as the lookup fails, and with the latest
/// version in hand asks for it to be written to the version record. The
/// record is asked for only then: an install that fails has not touched it.
pub open spec fn install_after_lookup(looking: LookingView) -> InstallingView {
    match looking {
        ProgressView::Ask(lookup, request) => ProgressView::Ask(
            InstallView::Looking(lookup),
            request,
        ),
        ProgressView::Done(Ok(version)) => ProgressView::Ask(
            InstallView::Recording,
            record(version),
        ),
        ProgressView::Done(Err(e)) => ProgressView::Done(Err(e)),
    }
}

/// How an install goes on with the progress of its plan: it hands the plan's
/// requests on, fails as the plan fails, and with the plan carried out
/// begins the lookup of the version to record.
pub open spec fn install_after_plan(running: RunningView) -> InstallingView {
    match running {
        ProgressView::Ask(runner, request) => ProgressView::Ask(
            InstallView::Placing(runner),
            request,
        ),
        ProgressView::Done(Ok(_)) => install_after_lookup(lookup_begun()),
        ProgressView::Done(Err(e)) => ProgressView::Done(Err(e)),
    }
}

/// An install begins as its plan begins.
pub open spec fn install_begun(
    archive: Seq<u8>,
    tag: Seq<char>,
    m: ManifestView,
) -> InstallingView {
    install_after_plan(proceed(install_steps(archive, tag, m)))
}

impl InstallView {
    /// How the install goes on after `reply`. The version record is written
    /// last: with that change made the install has succeeded, and without it
    /// the install ends with an error of the filesystem.
    pub open spec fn next(self, reply: ReplyView) -> InstallingView {
        match self {
            InstallView::Placing(runner) => install_after_plan(runner.step(reply)),
            InstallView::Looking(lookup) => install_after_lookup(lookup.next(reply)),
            InstallView::Recording => if reply == ReplyView::Done {
                ProgressView::Done(Ok(()))
            } else {
                ProgressView::Done(Err(ErrorView::Filesystem { detail: reply.detail() }))
            },
        }
    }
}

/// Goes on with an install from the progress of its lookup.
fn after_lookup(looking: Looking) -> (p: Installing)
    ensures
        installing_view(p) == install_after_lookup(looking_view(looking)),
{
    match looking {
        Progress::Ask(lookup, request) => Progress::Ask(Install::Looking(lookup), request),
        Progress::Done(Ok(version)) => Progress::Ask(
            Install::Recording,
            Request::Perform(
                Op::CreateFile { path: marker_path(), content: version.as_str().as_bytes_vec() },
            ),
        ),
        Progress::Done(Err(e)) => Progress::Done(Err(e)),
    }
}

/// Goes on with an install from the progress of its plan.
fn after_plan(running: Running) -> (p: Installing)
    ensures
        installing_view(p) == install_after_plan(running_view(running)),
{
    match running {
        Progress::Ask(runner, request) => Progress::Ask(Install::Placing(runner), request),
        Progress::Done(Ok(_)) => after_lookup(get_lastest_version()),
        Progress::Done(Err(e)) => Progress::Done(Err(e)),
    }
}

impl Install {
    /// Takes the reply to the request that the install last asked, and goes on.
    pub fn step(self, reply: Reply) -> (p: Installing)
        ensures
            installing_view(p) == self@.next(reply@),
    {
        match self {
            Install::Placing(runner) => after_plan(runner.step(reply)),
            Install::Looking(lookup) => after_lookup(lookup.step(reply)),
            Install::Recording => match reply {
                Reply::Done => Progress::Done(Ok(())),
                other => Progress::Done(Err(Error::Filesystem { detail: other.detail() })),
            },
        }
    }
}

/// Starts the install of the release in `buf`, made for the architecture
/// tag `arch`, with the desktop integration in `manifest`.
pub fn install(buf: Vec<u8>, arch: &str, manifest: Manifest) -> (p: Installing)
    ensures
        installing_view(p) == install_begun(buf@, arch@, manifest@),
{
    after_plan(Runner::start(plan_install(buf, arch, manifest)))
}

/// The machine that fetches the release for the machine's architecture and
/// installs it.
#[derive(Debug, Clone, PartialEq, Eq)]
pub enum Setup {
    /// Fetches the archive; keeps the manifest for the install.
    Fetching { download: Download, manifest: Manifest },
    /// Installs what was fetched.
    Installing(Install),
}

/// A [`Setup`] over the views of its parts.
pub enum SetupView {
    Fetching { download: DownloadView, manifest: ManifestView },
    Installing(InstallView),
}

impl View for Setup {
    type V = SetupView;

    open spec fn view(&self) -> SetupView {
        match self {
            Setup::Fetching { download, manifest } => SetupView::Fetching {
                download: download@,
                manifest: manifest@,
            },
            Setup::Installing(install) => SetupView::Installing(install@),
        }
    }
}

/// The progress of a [`Setup`].
pub type SettingUp = Progress<Setup, Result<(), Error>>;

/// The view of the progress of a [`Setup`].
pub type SettingUpView = ProgressView<SetupView, Result<(), ErrorView>>;

/// The progress of a [`Setup`] over views.
pub open spec fn setting_up_view(p: SettingUp) -> SettingUpView {
    match p {
        Progress::Ask(setup, request) => ProgressView::Ask(setup@, request@),
        Progress::Done(r) => ProgressView::Done(crate::plan::unit_result_view(r)),
    }
}

/// How a setup goes on with the progress of its install: it hands the
/// install's requests on, and ends as the install ends.
pub open spec fn setup_after_install(installing: InstallingView) -> SettingUpView {
    match installing {
        ProgressView::Ask(install, request) => ProgressView::Ask(
            SetupView::Installing(install),
            request,
        ),
        ProgressView::Done(r) => ProgressView::Done(r),
    }
}

/// How a setup goes on with the progress of its download: it hands the
/// download's requests on, fails as the download fails, and with the archive
/// in hand begins the install.
pub open spec fn setup_after_download(
    downloading: DownloadingView,
    m: ManifestView,
) -> SettingUpView {
    match downloading {
        ProgressView::Ask(download, request) => ProgressView::Ask(
            SetupView::Fetching { download, manifest: m },
            request,
        ),
        ProgressView::Done(Ok((archive, tag))) => setup_after_install(
            install_begun(archive, tag, m),
        ),
        ProgressView::Done(Err(e)) => ProgressView::Done(Err(e)),
    }
}

/// A setup for the architecture `arch` begins as the download for it begins.
pub open spec fn setup_begun(arch: Seq<char>, m: ManifestView) -> SettingUpView {
    setup_after_download(download_begun(arch), m)
}

impl SetupView {
    /// How the setup goes on after `reply`.
    pub open spec fn next(self, reply: ReplyView) -> SettingUpView {
        match self {
            SetupView::Fetching { download, manifest } => setup_after_download(
                download.next(reply),
                manifest,
            ),
            SetupView::Installing(install) => setup_after_install(install.next(reply)),
        }
    }
}

/// Goes on with a setup from the progress of its install.
fn after_install(installing: Installing) -> (p: SettingUp)
    ensures
        setting_up_view(p) == setup_after_install(installing_view(installing)),
{
    match installing {
        Progress::Ask(install, request) => Progress::Ask(Setup::Installing(install), request),
        Progress::Done(r) => Progress::Done(r),
    }
}

/// Goes on with a setup from the progress of its download.
fn after_download(downloading: Downloading, manifest: Manifest) -> (p: SettingUp)
    ensures
        setting_up_view(p) == setup_after_download(downloading_view(downloading), manifest@),
{
    match downloading {
        Progress::Ask(download, request) => Progress::Ask(
            Setup::Fetching { download, manifest },
            request,
        ),
        Progress::Done(Ok((archive, tag))) => after_install(install(archive, tag, manifest)),
        Progress::Done(Err(e)) => Progress::Done(Err(e)),
    }
}

impl Setup {
    /// Takes the reply to the request that the setup last asked, and goes on.
    pub fn step(self, reply: Reply) -> (p: SettingUp)
        ensures
            setting_up_view(p) == self@.next(reply@),
    {
        match self {
            Setup::Fetching { download, manifest } => after_download(
                download.step(reply),
                manifest,
            ),
            Setup::Installing(install) => after_install(install.step(reply)),
        }
    }
}

/// Starts the download and install of the release for the architecture
/// `arch`, with the desktop integration in `manifest`.
pub fn install_vscode(arch: &str, manifest: Manifest) -> (p: SettingUp)
    ensures
        setting_up_view(p) == setup_begun(arch@, manifest@),
{
    after_download(download_vscode(arch), manifest)
}

} // verus!
