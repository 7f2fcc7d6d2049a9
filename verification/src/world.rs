use crate::error::ErrorView;
use crate::plan::{Guard, InstrView};
use crate::wire::{OpView, ProgressView, ReplyView, RequestView};
use vstd::prelude::*;

verus! {

/// What stands at a path.
pub enum Node {
    /// A file with this content.
    File(Seq<u8>),
    /// A directory.
    Dir,
    /// A symbolic link to this target.
    Link(Seq<char>),
}

/// A model of what a driver acts on, to state what a run of a machine does
/// as a whole.
///
/// The model is small on purpose. A path names at most one node, and a node
/// is found by its exact path: links are not followed, and paths are not
/// brought to one form. A change is made or fails by what stands in the
/// model alone, as [`World::can`] says; one that fails leaves everything as
/// it was. A file can be written where some directory above it stands: the
/// model does not ask for each of them.
pub struct World {
    /// The nodes of the filesystem by their paths.
    pub nodes: Map<Seq<char>, Node>,
    /// What unpacking an archive into a directory leaves there, by the paths
    /// at which it is left; nothing for bytes that cannot be unpacked.
    pub archives: spec_fn(Seq<u8>, Seq<char>) -> Option<Map<Seq<char>, Node>>,
    /// What the remote endpoints reply.
    pub remote: spec_fn(RequestView) -> ReplyView,
    /// The reason given for a request that fails.
    pub excuse: Seq<char>,
}

/// `path` is `root` or lies beneath it.
pub open spec fn within(path: Seq<char>, root: Seq<char>) -> bool {
    path == root || (path.len() > root.len() && path.subrange(0, root.len() as int) == root
        && path[root.len() as int] == '/')
}

/// `path` lies in the directory `dir` or beneath it, where `dir` may be
/// written with or without a closing `/`.
pub open spec fn lies_in(path: Seq<char>, dir: Seq<char>) -> bool {
    &&& 0 < dir.len() < path.len()
    &&& path.subrange(0, dir.len() as int) == dir
    &&& dir.last() == '/' || path[dir.len() as int] == '/'
}

/// The path at which what stood at `path`, at or beneath `from`, stands once
/// `from` was moved to `to`.
pub open spec fn moved(path: Seq<char>, from: Seq<char>, to: Seq<char>) -> Seq<char> {
    to + path.subrange(from.len() as int, path.len() as int)
}

/// The change `op` can reach `path`: what stands at any other path is left
/// as it is.
pub open spec fn reaches(op: OpView, path: Seq<char>) -> bool {
    match op {
        OpView::Unpack { archive, into } => within(path, into) && path != into,
        OpView::RemoveFile { path: place } => path == place,
        OpView::RemoveDirAll { path: place } => within(path, place),
        OpView::Rename { from, to } => within(path, from) || within(path, to),
        OpView::Symlink { target, link } => path == link,
        OpView::CreateDirAll { path: place } => path == place,
        OpView::CreateFile { path: place, content } => path == place,
    }
}

impl World {
    /// Something stands at `path`.
    pub open spec fn has(self, path: Seq<char>) -> bool {
        self.nodes.contains_key(path)
    }

    /// A symbolic link stands at `path`.
    pub open spec fn has_link(self, path: Seq<char>) -> bool {
        self.nodes.contains_key(path) && self.nodes[path] is Link
    }

    /// A directory stands at `path`.
    pub open spec fn has_dir(self, path: Seq<char>) -> bool {
        self.nodes.contains_key(path) && self.nodes[path] is Dir
    }

    /// A file stands at `path`.
    pub open spec fn has_file(self, path: Seq<char>) -> bool {
        self.nodes.contains_key(path) && self.nodes[path] is File
    }

    /// A directory stands above `path`.
    pub open spec fn houses(self, path: Seq<char>) -> bool {
        exists|dir: Seq<char>| self.has_dir(dir) && #[trigger] lies_in(path, dir)
    }

    /// What unpacking `archive` into `into` leaves beneath `into`.
    pub open spec fn unpacked(self, archive: Seq<u8>, into: Seq<char>) -> Map<Seq<char>, Node> {
        match (self.archives)(archive, into) {
            Some(tree) => tree.restrict(
                Set::new(|path: Seq<char>| within(path, into) && path != into),
            ),
            None => Map::empty(),
        }
    }

    /// The change `op` can be made. An archive is unpacked where its bytes
    /// can be. A file or link is deleted where one stands, and a directory
    /// or link is deleted with all beneath it where one stands. What stands
    /// is moved. A link is made where nothing stands at its place. A
    /// directory is made unless a file stands at its place. A file is
    /// written unless a directory stands at its place, where a directory
    /// stands above it.
    pub open spec fn can(self, op: OpView) -> bool {
        match op {
            OpView::Unpack { archive, into } => (self.archives)(archive, into) is Some,
            OpView::RemoveFile { path } => self.has(path) && !self.has_dir(path),
            OpView::RemoveDirAll { path } => self.has(path) && !self.has_file(path),
            OpView::Rename { from, to } => self.has(from),
            OpView::Symlink { target, link } => !self.has(link),
            OpView::CreateDirAll { path } => !self.has_file(path),
            OpView::CreateFile { path, content } => !self.has_dir(path) && self.houses(path),
        }
    }

    /// The nodes after the change `op` was made.
    pub open spec fn changed(self, op: OpView) -> Map<Seq<char>, Node> {
        match op {
            OpView::Unpack { archive, into } => self.nodes.union_prefer_right(
                self.unpacked(archive, into),
            ),
            OpView::RemoveFile { path } => self.nodes.remove(path),
            OpView::RemoveDirAll { path } => self.nodes.remove_keys(
                Set::new(|below: Seq<char>| within(below, path)),
            ),
            OpView::Rename { from, to } => Map::new(
                |path: Seq<char>|
                    if within(path, to) {
                        self.nodes.contains_key(moved(path, to, from))
                    } else {
                        !within(path, from) && self.nodes.contains_key(path)
                    },
                |path: Seq<char>|
                    if within(path, to) {
                        self.nodes[moved(path, to, from)]
                    } else {
                        self.nodes[path]
                    },
            ),
            OpView::Symlink { target, link } => self.nodes.insert(link, Node::Link(target)),
            OpView::CreateDirAll { path } => if self.nodes.contains_key(path) {
                self.nodes
            } else {
                self.nodes.insert(path, Node::Dir)
            },
            OpView::CreateFile { path, content } => self.nodes.insert(path, Node::File(content)),
        }
    }

    /// The reply to `request`.
    pub open spec fn answer(self, request: RequestView) -> ReplyView {
        match request {
            RequestView::ReadFile { path } => if self.nodes.contains_key(path) {
                match self.nodes[path] {
                    Node::File(content) => ReplyView::Bytes(content),
                    _ => ReplyView::Failed(self.excuse),
                }
            } else {
                ReplyView::Failed(self.excuse)
            },
            RequestView::Exists { path } => ReplyView::Flag(self.has(path)),
            RequestView::IsLink { path } => ReplyView::Flag(self.has_link(path)),
            RequestView::Perform(op) => if self.can(op) {
                ReplyView::Done
            } else {
                ReplyView::Failed(self.excuse)
            },
            _ => (self.remote)(request),
        }
    }

    /// The world after `request` was answered.
    pub open spec fn after(self, request: RequestView) -> World {
        match request {
            RequestView::Perform(op) => if self.can(op) {
                World { nodes: self.changed(op), ..self }
            } else {
                self
            },
            _ => self,
        }
    }

    /// The guard's condition holds of `path`.
    pub open spec fn meets(self, guard: Guard, path: Seq<char>) -> bool {
        guard.admits(self.answer(guard.question(path)).is_yes())
    }

    /// The step's condition holds, and its change cannot be made.
    pub open spec fn fails(self, step: InstrView) -> bool {
        self.meets(step.guard, step.op.subject()) && !self.can(step.op)
    }

    /// The world after one step of a plan: with the step's change where its
    /// condition holds, as it was where it does not.
    pub open spec fn settled(self, step: InstrView) -> World {
        if self.meets(step.guard, step.op.subject()) {
            self.after(RequestView::Perform(step.op))
        } else {
            self
        }
    }

    /// The world after a plan was carried out, step by step, up to the
    /// first step that fails.
    pub open spec fn carried_out(self, plan: Seq<InstrView>) -> World
        decreases plan.len(),
    {
        if plan.len() == 0 || self.fails(plan[0]) {
            self
        } else {
            self.settled(plan[0]).carried_out(plan.drop_first())
        }
    }

    /// How a plan ends: in success where no step fails, else with the error
    /// that the blame of the first step that fails makes of the reason.
    pub open spec fn result_of(self, plan: Seq<InstrView>) -> Result<(), ErrorView>
        decreases plan.len(),
    {
        if plan.len() == 0 {
            Ok(())
        } else if self.fails(plan[0]) {
            Err(plan[0].blame.error(plan[0].op.subject(), self.excuse))
        } else {
            self.settled(plan[0]).result_of(plan.drop_first())
        }
    }

    /// The changes that are made when a plan is carried out, in their order.
    pub open spec fn changes(self, plan: Seq<InstrView>) -> Seq<OpView>
        decreases plan.len(),
    {
        if plan.len() == 0 || self.fails(plan[0]) {
            Seq::empty()
        } else if self.meets(plan[0].guard, plan[0].op.subject()) {
            seq![plan[0].op] + self.settled(plan[0]).changes(plan.drop_first())
        } else {
            self.changes(plan.drop_first())
        }
    }
}

/// A run of a machine: where it stands, the world it leaves, and the
/// requests it has asked, in their order.
pub struct Run<S, T> {
    pub progress: ProgressView<S, T>,
    pub world: World,
    pub asked: Seq<RequestView>,
}

/// The run of a machine from `progress` in the world `w`, for at most `fuel`
/// requests: each request is answered by the world and changes it, and the
/// machine goes on by `next`.
pub open spec fn driven<S, T>(
    next: spec_fn(S, ReplyView) -> ProgressView<S, T>,
    progress: ProgressView<S, T>,
    w: World,
    fuel: nat,
) -> Run<S, T>
    decreases fuel,
{
    match progress {
        ProgressView::Done(_) => Run { progress, world: w, asked: Seq::empty() },
        ProgressView::Ask(state, request) => if fuel == 0 {
            Run { progress, world: w, asked: Seq::empty() }
        } else {
            let rest = driven(
                next,
                next(state, w.answer(request)),
                w.after(request),
                (fuel - 1) as nat,
            );
            Run { progress: rest.progress, world: rest.world, asked: seq![request] + rest.asked }
        },
    }
}

} // verus!
