use crate::error::{Error, ErrorView, FULL_STOP};

use crate::wire::{Op, OpView, Progress, ProgressView, Reply, ReplyView, Request, RequestView};
use vstd::prelude::*;
use vstd::string::StringExecFns;

verus! {

/// The condition under which a step of a plan is taken. It is put as a
/// question about the place that the step's change is made at.
#[derive(Debug, Clone, Copy, PartialEq, Eq)]
pub enum Guard {
    /// Taken without a question.
    Always,
    /// Taken where the place exists.
    IfPresent,
    /// Taken where the place does not exist.
    IfAbsent,
    /// Taken where the place is a symbolic link.
    IfLink,
}

/// How the failure of a step is reported.
#[derive(Debug, Clone, Copy, PartialEq, Eq)]
pub enum Blame {
    /// As an error of the filesystem, with the reason as it was given.
    Plain,
    /// As a directory that could not be created.
    Directory,
    /// As a file of the desktop integration that could not be installed.
    Asset,
    /// As the link to the executable that could not be created.
    Link,
}

/// One step of a plan: a change to the filesystem, the condition under which
/// it is made, and the way its failure is reported.
#[derive(Debug, Clone, PartialEq, Eq)]
pub struct Instr {
    pub guard: Guard,
    pub op: Op,
    pub blame: Blame,
}

/// An [`Instr`] over the view of its change.
pub struct InstrView {
    pub guard: Guard,
    pub op: OpView,
    pub blame: Blame,
}

impl View for Instr {
    type V = InstrView;

    open spec fn view(&self) -> InstrView {
        InstrView { guard: self.guard, op: self.op@, blame: self.blame }
    }
}

/// A plan, step by step, over the views of its changes.
pub open spec fn steps_view(plan: Seq<Instr>) -> Seq<InstrView> {
    plan.map_values(|step: Instr| step@)
}

/// The line for a directory that could not be made, up to its path.
pub const DIRECTORY_TEXT: &'static str = "Failed to create directory ";

/// The line for a file that could not be installed, up to its path.
pub const ASSET_TEXT: &'static str = "Failed to install ";

/// The line for the link that could not be made, up to the reason.
pub const LINK_TEXT: &'static str = "Could not create symlink for the vscode executable! ";

/// What stands between a path and the reason.
pub const COLON: &'static str = ": ";

impl Guard {
    /// Whether the step is taken, given the answer to the guard's question.
    pub open spec fn admits(self, yes: bool) -> bool {
        match self {
            Guard::Always => true,
            Guard::IfPresent => yes,
            Guard::IfAbsent => !yes,
            Guard::IfLink => yes,
        }
    }

    /// The guard's question about the place `path`.
    pub open spec fn question(self, path: Seq<char>) -> RequestView {
        match self {
            Guard::IfLink => RequestView::IsLink { path },
            _ => RequestView::Exists { path },
        }
    }

    /// Whether the step is taken, given the answer to the guard's question.
    pub fn test(&self, yes: bool) -> (taken: bool)
        ensures
            taken == self.admits(yes),
    {
        match self {
            Guard::Always => true,
            Guard::IfPresent => yes,
            Guard::IfAbsent => !yes,
            Guard::IfLink => yes,
        }
    }

    /// The guard's question about the place `path`.
    pub fn ask(&self, path: String) -> (request: Request)
        ensures
            request@ == self.question(path@),
    {
        match self {
            Guard::IfLink => Request::IsLink { path },
            _ => Request::Exists { path },
        }
    }
}

impl Blame {
    /// The error for a change at `subject` that failed for the reason `detail`.
    pub open spec fn error(self, subject: Seq<char>, detail: Seq<char>) -> ErrorView {
        match self {
            Blame::Plain => ErrorView::Filesystem { detail },
            Blame::Directory => ErrorView::Filesystem {
                detail: DIRECTORY_TEXT@ + subject + COLON@ + detail + FULL_STOP@,
            },
            Blame::Asset => ErrorView::Filesystem {
                detail: ASSET_TEXT@ + subject + COLON@ + detail + FULL_STOP@,
            },
            Blame::Link => ErrorView::Symlink { detail: LINK_TEXT@ + detail },
        }
    }

    /// The error for a change at `subject` that failed for the reason `detail`.
    pub fn report(&self, subject: &str, detail: &str) -> (e: Error)
        ensures
            e@ == self.error(subject@, detail@),
    {
        match self {
            Blame::Plain => Error::Filesystem { detail: String::from_str(detail) },
            Blame::Directory => {
                let mut text = String::from_str(DIRECTORY_TEXT);
                text.append(subject);
                text.append(COLON);
                text.append(detail);
                text.append(FULL_STOP);
                Error::Filesystem { detail: text }
            },
            Blame::Asset => {
                let mut text = String::from_str(ASSET_TEXT);
                text.append(subject);
                text.append(COLON);
                text.append(detail);
                text.append(FULL_STOP);
                Error::Filesystem { detail: text }
            },
            Blame::Link => {
                let mut text = String::from_str(LINK_TEXT);
                text.append(detail);
                Error::Symlink { detail: text }
            },
        }
    }
}

/// What a [`Runner`] waits for.
#[derive(Debug, Clone, PartialEq, Eq)]
pub enum Phase {
    /// The answer to the question of the first step that is left.
    Probing,
    /// The completion of the change of the last step that was taken, which
    /// was made at `subject` and is reported as `blame` says.
    Performing { blame: Blame, subject: String },
}

/// A [`Phase`] with its text as a sequence of characters.
pub enum PhaseView {
    Probing,
    Performing { blame: Blame, subject: Seq<char> },
}

impl View for Phase {
    type V = PhaseView;

    open spec fn view(&self) -> PhaseView {
        match self {
            Phase::Probing => PhaseView::Probing,
            Phase::Performing { blame, subject } => PhaseView::Performing {
                blame: *blame,
                subject: subject@,
            },
        }
    }
}

/// The machine that carries a plan out: the steps that are left, and what
/// it waits for.
#[derive(Debug, Clone, PartialEq, Eq)]
pub struct Runner {
    pub rest: Vec<Instr>,
    pub phase: Phase,
}

/// A [`Runner`] over the views of its steps.
pub struct RunnerView {
    pub rest: Seq<InstrView>,
    pub phase: PhaseView,
}

impl View for Runner {
    type V = RunnerView;

    open spec fn view(&self) -> RunnerView {
        RunnerView { rest: steps_view(self.rest@), phase: self.phase@ }
    }
}

/// The progress of a [`Runner`].
pub type Running = Progress<Runner, Result<(), Error>>;

/// The view of the progress of a [`Runner`].
pub type RunningView = ProgressView<RunnerView, Result<(), ErrorView>>;

/// The result of a plan with its error's texts as sequences of characters.
pub open spec fn unit_result_view(r: Result<(), Error>) -> Result<(), ErrorView> {
    match r {
        Ok(_) => Ok(()),
        Err(e) => Err(e@),
    }
}

/// The progress of a [`Runner`] over views.
pub open spec fn running_view(p: Running) -> RunningView {
    match p {
        Progress::Ask(runner, request) => ProgressView::Ask(runner@, request@),
        Progress::Done(r) => ProgressView::Done(unit_result_view(r)),
    }
}

/// How the plan `rest` goes on. With no step left it has succeeded. A first
/// step without a condition is taken: its change is asked for. Of any other
/// first step the guard's question is asked.
pub open spec fn proceed(rest: Seq<InstrView>) -> RunningView {
    if rest.len() == 0 {
        ProgressView::Done(Ok(()))
    } else {
        let head = rest[0];
        if head.guard == Guard::Always {
            ProgressView::Ask(
                RunnerView {
                    rest: rest.drop_first(),
                    phase: PhaseView::Performing { blame: head.blame, subject: head.op.subject() },
                },
                RequestView::Perform(head.op),
            )
        } else {
            ProgressView::Ask(
                RunnerView { rest, phase: PhaseView::Probing },
                head.guard.question(head.op.subject()),
            )
        }
    }
}

impl RunnerView {
    /// How the machine goes on after `reply`.
    ///
    /// An answer that admits the first step has its change asked for; any
    /// other answer drops the step, and the plan goes on with the next. A
    /// change that was made lets the plan go on; one that was not ends the
    /// plan with the error that the step's blame makes of the reason.
    pub open spec fn step(self, reply: ReplyView) -> RunningView {
        match self.phase {
            PhaseView::Probing => {
                if self.rest.len() == 0 {
                    ProgressView::Done(Ok(()))
                } else {
                    let head = self.rest[0];
                    if head.guard.admits(reply.is_yes()) {
                        ProgressView::Ask(
                            RunnerView {
                                rest: self.rest.drop_first(),
                                phase: PhaseView::Performing {
                                    blame: head.blame,
                                    subject: head.op.subject(),
                                },
                            },
                            RequestView::Perform(head.op),
                        )
                    } else {
                        proceed(self.rest.drop_first())
                    }
                }
            },
            PhaseView::Performing { blame, subject } => {
                if reply == ReplyView::Done {
                    proceed(self.rest)
                } else {
                    ProgressView::Done(Err(blame.error(subject, reply.detail())))
                }
            },
        }
    }
}

impl Runner {
    /// Starts on `plan`: asks for the first thing that it needs.
    pub fn start(plan: Vec<Instr>) -> (p: Running)
        ensures
            running_view(p) == proceed(steps_view(plan@)),
    {
        let mut rest = plan;
        if rest.len() == 0 {
            return Progress::Done(Ok(()));
        }
        let ghost before = rest@;
        match rest[0].guard {
            Guard::Always => {
                let head = rest.remove(0);
                proof {
                    assert(steps_view(rest@) =~= steps_view(before).drop_first());
                }
                let subject = String::from_str(head.op.subject());
                Progress::Ask(
                    Runner { rest, phase: Phase::Performing { blame: head.blame, subject } },
                    Request::Perform(head.op),
                )
            },
            guard => {
                let path = String::from_str(rest[0].op.subject());
                let request = guard.ask(path);
                Progress::Ask(Runner { rest, phase: Phase::Probing }, request)
            },
        }
    }

    /// Takes the reply to the request that the machine last asked, and goes on.
    pub fn step(self, reply: Reply) -> (p: Running)
        ensures
            running_view(p) == self@.step(reply@),
    {
        let Runner { rest, phase } = self;
        match phase {
            Phase::Probing => {
                let mut rest = rest;
                if rest.len() == 0 {
                    return Progress::Done(Ok(()));
                }
                let ghost before = rest@;
                let head = rest.remove(0);
                proof {
                    assert(steps_view(rest@) =~= steps_view(before).drop_first());
                }
                if head.guard.test(reply.is_yes()) {
                    let subject = String::from_str(head.op.subject());
                    Progress::Ask(
                        Runner { rest, phase: Phase::Performing { blame: head.blame, subject } },
                        Request::Perform(head.op),
                    )
                } else {
                    Runner::start(rest)
                }
            },
            Phase::Performing { blame, subject } => {
                match reply {
                    Reply::Done => Runner::start(rest),
                    other => {
                        let detail = other.detail();
                        Progress::Done(Err(blame.report(subject.as_str(), detail.as_str())))
                    },
                }
            },
        }
    }
}

} // verus!
