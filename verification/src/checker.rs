use crate::error::{Error, ErrorView};
use crate::layout::{marker, marker_path, CURRENT_VERSION_DIRECTORY, NO_VERSION};
use crate::lookup::{get_lastest_version, lookup_begun, Lookup, LookingView};
use crate::version::{
    compare, compared, current_version, get_current_version, CheckResult, CheckResultView,
};
use crate::wire::{Op, OpView, Progress, ProgressView, Reply, ReplyView, Request, RequestView};
use vstd::prelude::*;
use vstd::string::{StrSliceExecFns, StringExecFns};
use vstd::utf8::encode_utf8;

verus! {

/// The machine that checks whether the recorded version is the latest one.
#[derive(Debug, Clone, PartialEq, Eq)]
pub enum Check {
    /// Waits for the lookup of the latest version.
    Looking(Lookup),
    /// Knows the latest version; waits for the content of the version record.
    Reading { remote: String },
    /// Found no version recorded; waits for the record's directory to be made.
    Preparing { remote: String },
    /// Waits for the record to be written with the word for no version.
    Seeding { remote: String },
}

/// A [`Check`] with its text as a sequence of characters.
pub enum CheckView {
    Looking(Lookup),
    Reading { remote: Seq<char> },
    Preparing { remote: Seq<char> },
    Seeding { remote: Seq<char> },
}

impl View for Check {
    type V = CheckView;

    open spec fn view(&self) -> CheckView {
        match self {
            Check::Looking(lookup) => CheckView::Looking(*lookup),
            Check::Reading { remote } => CheckView::Reading { remote: remote@ },
            Check::Preparing { remote } => CheckView::Preparing { remote: remote@ },
            Check::Seeding { remote } => CheckView::Seeding { remote: remote@ },
        }
    }
}

/// The progress of a [`Check`].
pub type Checking = Progress<Check, Result<CheckResult, Error>>;

/// The view of the progress of a [`Check`].
pub type CheckingView = ProgressView<CheckView, Result<CheckResultView, ErrorView>>;

/// The result of a check over views.
pub open spec fn check_result_view(r: Result<CheckResult, Error>) -> Result<
    CheckResultView,
    ErrorView,
> {
    match r {
        Ok(found) => Ok(found@),
        Err(e) => Err(e@),
    }
}

/// The progress of a [`Check`] over views.
pub open spec fn checking_view(p: Checking) -> CheckingView {
    match p {
        Progress::Ask(check, request) => ProgressView::Ask(check@, request@),
        Progress::Done(r) => ProgressView::Done(check_result_view(r)),
    }
}

/// How a check goes on with the progress of its lookup: it hands the
/// lookup's requests on, fails as the lookup fails, and with the latest
/// version in hand asks for the content of the version record.
pub open spec fn check_after_lookup(looking: LookingView) -> CheckingView {
    match looking {
        ProgressView::Ask(lookup, request) => ProgressView::Ask(
            CheckView::Looking(lookup),
            request,
        ),
        ProgressView::Done(Ok(remote)) => ProgressView::Ask(
            CheckView::Reading { remote },
            RequestView::ReadFile { path: marker() },
        ),
        ProgressView::Done(Err(e)) => ProgressView::Done(Err(e)),
    }
}

/// The request that makes the directory of the version record.
pub open spec fn prepare_record() -> RequestView {
    RequestView::Perform(OpView::CreateDirAll { path: CURRENT_VERSION_DIRECTORY@ })
}

/// The request that writes the word for no version to a new version record.
pub open spec fn seed_record() -> RequestView {
    RequestView::Perform(
        OpView::CreateFile { path: marker(), content: encode_utf8(NO_VERSION@) },
    )
}

impl CheckView {
    /// How the check goes on after `reply`.
    ///
    /// A record that gives a version is compared with the latest version at
    /// once. For one that gives none, the record's directory is made and the
    /// record is written with the word for no version, which then stands for
    /// the recorded version. A change that could not be made ends the check
    /// with an error of the filesystem.
    pub open spec fn next(self, reply: ReplyView) -> CheckingView {
        match self {
            CheckView::Looking(lookup) => check_after_lookup(lookup.next(reply)),
            CheckView::Reading { remote } => match current_version(reply) {
                Ok(local) => ProgressView::Done(Ok(compared(local, remote))),
                Err(_) => ProgressView::Ask(CheckView::Preparing { remote }, prepare_record()),
            },
            CheckView::Preparing { remote } => if reply == ReplyView::Done {
                ProgressView::Ask(CheckView::Seeding { remote }, seed_record())
            } else {
                ProgressView::Done(Err(ErrorView::Filesystem { detail: reply.detail() }))
            },
            CheckView::Seeding { remote } => if reply == ReplyView::Done {
                ProgressView::Done(Ok(compared(NO_VERSION@, remote)))
            } else {
                ProgressView::Done(Err(ErrorView::Filesystem { detail: reply.detail() }))
            },
        }
    }
}

/// A check begins as a lookup of the latest version begins.
pub open spec fn check_begun() -> CheckingView {
    check_after_lookup(lookup_begun())
}

/// Goes on with a check from the progress of its lookup.
fn after_lookup(looking: Progress<Lookup, Result<String, Error>>) -> (p: Checking)
    ensures
        checking_view(p) == check_after_lookup(crate::lookup::looking_view(looking)),
{
    match looking {
        Progress::Ask(lookup, request) => Progress::Ask(Check::Looking(lookup), request),
        Progress::Done(Ok(remote)) => Progress::Ask(
            Check::Reading { remote },
            Request::ReadFile { path: marker_path() },
        ),
        Progress::Done(Err(e)) => Progress::Done(Err(e)),
    }
}

impl Check {
    /// Takes the reply to the request that the check last asked, and goes on.
    pub fn step(self, reply: Reply) -> (p: Checking)
        ensures
            checking_view(p) == self@.next(reply@),
    {
        match self {
            Check::Looking(lookup) => after_lookup(lookup.step(reply)),
            Check::Reading { remote } => match get_current_version(reply) {
                Ok(local) => Progress::Done(Ok(compare(local, remote))),
                Err(_) => Progress::Ask(
                    Check::Preparing { remote },
                    Request::Perform(
                        Op::CreateDirAll { path: String::from_str(CURRENT_VERSION_DIRECTORY) },
                    ),
                ),
            },
            Check::Preparing { remote } => match reply {
                Reply::Done => Progress::Ask(
                    Check::Seeding { remote },
                    Request::Perform(
                        Op::CreateFile { path: marker_path(), content: NO_VERSION.as_bytes_vec() },
                    ),
                ),
                other => Progress::Done(Err(Error::Filesystem { detail: other.detail() })),
            },
            Check::Seeding { remote } => match reply {
                Reply::Done => Progress::Done(Ok(compare(String::from_str(NO_VERSION), remote))),
                other => Progress::Done(Err(Error::Filesystem { detail: other.detail() })),
            },
        }
    }
}

/// Whether an install follows a check that ended with `outcome`: it does
/// unless the check found the recorded version up to date.
pub open spec fn installs_after(outcome: Result<CheckResultView, ErrorView>) -> bool {
    outcome != Ok::<CheckResultView, ErrorView>(CheckResultView::UpToDate)
}

/// Whether an install follows a check that ended with `outcome`.
pub fn calls_for_install(outcome: &Result<CheckResult, Error>) -> (wanted: bool)
    ensures
        wanted == installs_after(check_result_view(*outcome)),
{
    match outcome {
        Ok(CheckResult::UpToDate) => false,
        _ => true,
    }
}

/// Starts a check of the recorded version against the latest one.
pub fn update_checker() -> (p: Checking)
    ensures
        checking_view(p) == check_begun(),
{
    after_lookup(get_lastest_version())
}

} // verus!
