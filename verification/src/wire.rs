use vstd::prelude::*;

verus! {

/// A change to the filesystem.
#[derive(Debug, Clone, PartialEq, Eq)]
pub enum Op {
    /// Read `archive` as a gzip-compressed tar stream and extract it into the
    /// directory `into`, keeping the permissions and owners it records.
    Unpack { archive: Vec<u8>, into: String },
    /// Delete the file or link at `path`.
    RemoveFile { path: String },
    /// Delete the directory at `path` with everything beneath it.
    RemoveDirAll { path: String },
    /// Move `from` to `to`.
    Rename { from: String, to: String },
    /// Create the symbolic link `link`, pointing at `target`.
    Symlink { target: String, link: String },
    /// Create the directory `path` and every missing parent.
    CreateDirAll { path: String },
    /// Open `path` for writing, creating it if needed and emptying it if it
    /// holds anything, and write `content` to it.
    CreateFile { path: String, content: Vec<u8> },
}

/// What a machine asks its driver to do next.
#[derive(Debug, Clone, PartialEq, Eq)]
pub enum Request {
    /// Send an HTTP GET to `url`. Answered by [`Reply::Status`].
    Get { url: String },
    /// Decode the body of the response just received as JSON and take its
    /// `latest_version` string. Answered by [`Reply::Text`].
    ReadVersion,
    /// Read the body of the response just received to its end, showing
    /// progress against `expected` bytes. Answered by [`Reply::Bytes`].
    ReadBody { expected: u64 },
    /// Read the whole file at `path`. Answered by [`Reply::Bytes`].
    ReadFile { path: String },
    /// Does `path` exist? Answered by [`Reply::Flag`].
    Exists { path: String },
    /// Is `path` a symbolic link? Answered by [`Reply::Flag`].
    IsLink { path: String },
    /// Make a change to the filesystem. Answered by [`Reply::Done`].
    Perform(Op),
}

/// The driver's account of the request it was given.
///
/// Each request has one kind of reply that reports success. A machine reads
/// every other reply to that request as the request having failed.
#[derive(Debug, Clone, PartialEq, Eq)]
pub enum Reply {
    /// The change was made.
    Done,
    /// The request failed; the text says why.
    Failed(String),
    /// The answer to a question.
    Flag(bool),
    /// A response arrived, with this status code and announced body length.
    Status { code: u16, length: Option<u64> },
    /// The text that was asked for.
    Text(String),
    /// The bytes that were asked for.
    Bytes(Vec<u8>),
}

/// Where a machine stands after a step.
#[derive(Debug, Clone, PartialEq, Eq)]
pub enum Progress<S, T> {
    /// The machine, now in state `S`, waits for the reply to this request.
    Ask(S, Request),
    /// The machine has finished with this result.
    Done(T),
}

/// An [`Op`] with its texts and bytes as sequences.
pub enum OpView {
    Unpack { archive: Seq<u8>, into: Seq<char> },
    RemoveFile { path: Seq<char> },
    RemoveDirAll { path: Seq<char> },
    Rename { from: Seq<char>, to: Seq<char> },
    Symlink { target: Seq<char>, link: Seq<char> },
    CreateDirAll { path: Seq<char> },
    CreateFile { path: Seq<char>, content: Seq<u8> },
}

/// A [`Request`] with its texts and bytes as sequences.
pub enum RequestView {
    Get { url: Seq<char> },
    ReadVersion,
    ReadBody { expected: u64 },
    ReadFile { path: Seq<char> },
    Exists { path: Seq<char> },
    IsLink { path: Seq<char> },
    Perform(OpView),
}

/// A [`Reply`] with its texts and bytes as sequences.
pub enum ReplyView {
    Done,
    Failed(Seq<char>),
    Flag(bool),
    Status { code: u16, length: Option<u64> },
    Text(Seq<char>),
    Bytes(Seq<u8>),
}

/// A [`Progress`] over the views of a state and of a result.
pub enum ProgressView<S, T> {
    Ask(S, RequestView),
    Done(T),
}

impl View for Op {
    type V = OpView;

    open spec fn view(&self) -> OpView {
        match self {
            Op::Unpack { archive, into } => OpView::Unpack { archive: archive@, into: into@ },
            Op::RemoveFile { path } => OpView::RemoveFile { path: path@ },
            Op::RemoveDirAll { path } => OpView::RemoveDirAll { path: path@ },
            Op::Rename { from, to } => OpView::Rename { from: from@, to: to@ },
            Op::Symlink { target, link } => OpView::Symlink { target: target@, link: link@ },
            Op::CreateDirAll { path } => OpView::CreateDirAll { path: path@ },
            Op::CreateFile { path, content } => OpView::CreateFile {
                path: path@,
                content: content@,
            },
        }
    }
}

impl View for Request {
    type V = RequestView;

    open spec fn view(&self) -> RequestView {
        match self {
            Request::Get { url } => RequestView::Get { url: url@ },
            Request::ReadVersion => RequestView::ReadVersion,
            Request::ReadBody { expected } => RequestView::ReadBody { expected: *expected },
            Request::ReadFile { path } => RequestView::ReadFile { path: path@ },
            Request::Exists { path } => RequestView::Exists { path: path@ },
            Request::IsLink { path } => RequestView::IsLink { path: path@ },
            Request::Perform(op) => RequestView::Perform(op@),
        }
    }
}

impl View for Reply {
    type V = ReplyView;

    open spec fn view(&self) -> ReplyView {
        match self {
            Reply::Done => ReplyView::Done,
            Reply::Failed(detail) => ReplyView::Failed(detail@),
            Reply::Flag(yes) => ReplyView::Flag(*yes),
            Reply::Status { code, length } => ReplyView::Status { code: *code, length: *length },
            Reply::Text(text) => ReplyView::Text(text@),
            Reply::Bytes(bytes) => ReplyView::Bytes(bytes@),
        }
    }
}

impl OpView {
    /// The path that the change is made at: the one a guard asks about.
    pub open spec fn subject(self) -> Seq<char> {
        match self {
            OpView::Unpack { archive, into } => into,
            OpView::RemoveFile { path } => path,
            OpView::RemoveDirAll { path } => path,
            OpView::Rename { from, to } => from,
            OpView::Symlink { target, link } => link,
            OpView::CreateDirAll { path } => path,
            OpView::CreateFile { path, content } => path,
        }
    }
}

impl ReplyView {
    /// A question was answered with yes.
    pub open spec fn is_yes(self) -> bool {
        self == ReplyView::Flag(true)
    }

    /// The reason given for a failure; empty where the reply gives none.
    pub open spec fn detail(self) -> Seq<char> {
        match self {
            ReplyView::Failed(detail) => detail,
            _ => Seq::empty(),
        }
    }
}

impl Op {
    /// The path that the change is made at: the one a guard asks about.
    pub fn subject(&self) -> (path: &str)
        ensures
            path@ == self@.subject(),
    {
        match self {
            Op::Unpack { archive, into } => into.as_str(),
            Op::RemoveFile { path } => path.as_str(),
            Op::RemoveDirAll { path } => path.as_str(),
            Op::Rename { from, to } => from.as_str(),
            Op::Symlink { target, link } => link.as_str(),
            Op::CreateDirAll { path } => path.as_str(),
            Op::CreateFile { path, content } => path.as_str(),
        }
    }
}

impl Reply {
    /// A question was answered with yes.
    pub fn is_yes(&self) -> (yes: bool)
        ensures
            yes == self@.is_yes(),
    {
        match self {
            Reply::Flag(yes) => *yes,
            _ => false,
        }
    }

    /// The reason given for a failure; empty where the reply gives none.
    pub fn detail(self) -> (text: String)
        ensures
            text@ == self@.detail(),
    {
        match self {
            Reply::Failed(detail) => detail,
            _ => String::new(),
        }
    }
}

} // verus!
