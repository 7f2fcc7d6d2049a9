use crate::error::{Error, ErrorView};
use crate::layout::ANITYA_URL;
use crate::version::version_result_view;
use crate::wire::{Progress, ProgressView, Reply, ReplyView, Request, RequestView};
use vstd::prelude::*;
use vstd::string::StringExecFns;

verus! {

/// The status codes of success: 200 to 299.
pub open spec fn is_success(code: u16) -> bool {
    200 <= code <= 299
}

/// What the reply to a GET stands for: the announced length of the body
/// where a response of success arrived, the status where a response of
/// another status arrived, a failure of the network in any other case.
pub open spec fn accepted(reply: ReplyView) -> Result<Option<u64>, ErrorView> {
    match reply {
        ReplyView::Status { code, length } => if is_success(code) {
            Ok(length)
        } else {
            Err(ErrorView::HttpStatus { code })
        },
        _ => Err(ErrorView::Network { detail: reply.detail() }),
    }
}

/// The result of [`accept`] with its error's texts as sequences of characters.
pub open spec fn accepted_view(r: Result<Option<u64>, Error>) -> Result<Option<u64>, ErrorView> {
    match r {
        Ok(length) => Ok(length),
        Err(e) => Err(e@),
    }
}

/// Reads the reply to a GET.
pub fn accept(reply: Reply) -> (r: Result<Option<u64>, Error>)
    ensures
        accepted_view(r) == accepted(reply@),
{
    match reply {
        Reply::Status { code, length } => if 200 <= code && code <= 299 {
            Ok(length)
        } else {
            Err(Error::HttpStatus { code })
        },
        other => Err(Error::Network { detail: other.detail() }),
    }
}

/// The machine that asks the registry for the latest version.
#[derive(Debug, Clone, Copy, PartialEq, Eq)]
pub enum Lookup {
    /// Waits for the registry's response.
    Connecting,
    /// Waits for the version in the response's body.
    Reading,
}

/// The progress of a [`Lookup`].
pub type Looking = Progress<Lookup, Result<String, Error>>;

/// The view of the progress of a [`Lookup`].
pub type LookingView = ProgressView<Lookup, Result<Seq<char>, ErrorView>>;

/// The progress of a [`Lookup`] over views.
pub open spec fn looking_view(p: Looking) -> LookingView {
    match p {
        Progress::Ask(lookup, request) => ProgressView::Ask(lookup, request@),
        Progress::Done(r) => ProgressView::Done(version_result_view(r)),
    }
}

/// A lookup begins with a GET to the registry.
pub open spec fn lookup_begun() -> LookingView {
    ProgressView::Ask(Lookup::Connecting, RequestView::Get { url: ANITYA_URL@ })
}

impl Lookup {
    /// How the lookup goes on after `reply`.
    ///
    /// A response of success has its version asked for; anything else ends
    /// the lookup as [`accepted`] says. The version that is then handed over
    /// is the result; any other reply to that request is a body that could
    /// not be parsed.
    pub open spec fn next(self, reply: ReplyView) -> LookingView {
        match self {
            Lookup::Connecting => match accepted(reply) {
                Ok(_) => ProgressView::Ask(Lookup::Reading, RequestView::ReadVersion),
                Err(e) => ProgressView::Done(Err(e)),
            },
            Lookup::Reading => match reply {
                ReplyView::Text(version) => ProgressView::Done(Ok(version)),
                _ => ProgressView::Done(Err(ErrorView::Parse { detail: reply.detail() })),
            },
        }
    }

    /// Takes the reply to the request that the lookup last asked, and goes on.
    pub fn step(self, reply: Reply) -> (p: Looking)
        ensures
            looking_view(p) == self.next(reply@),
    {
        match self {
            Lookup::Connecting => match accept(reply) {
                Ok(_) => Progress::Ask(Lookup::Reading, Request::ReadVersion),
                Err(e) => Progress::Done(Err(e)),
            },
            Lookup::Reading => match reply {
                Reply::Text(version) => Progress::Done(Ok(version)),
                other => Progress::Done(Err(Error::Parse { detail: other.detail() })),
            },
        }
    }
}

/// Starts a lookup of the latest version.
pub fn get_lastest_version() -> (p: Looking)
    ensures
        looking_view(p) == lookup_begun(),
{
    Progress::Ask(Lookup::Connecting, Request::Get { url: String::from_str(ANITYA_URL) })
}

} // verus!
