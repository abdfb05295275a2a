//! Steps that put files into the tree that an image is made of.

use vstd::prelude::*;
use vstd::string::*;

verus! {

/// One thing to be done to files.
#[derive(Debug, PartialEq, Eq)]
pub enum Act {
    /// Go on only if something is at `path`.
    Require { path: String },
    /// Create a directory and those above it.
    MakeDir { path: String },
    /// Copy a file.
    Copy { from: String, to: String },
    /// Move a file.
    Rename { from: String, to: String },
    /// Write a text file.
    Write { to: String, text: String },
    /// Give a file the permissions 0755.
    MakeExecutable { path: String },
}

/// What an act says.
#[verifier::ext_equal]
pub enum ActView {
    Require { path: Seq<char> },
    MakeDir { path: Seq<char> },
    Copy { from: Seq<char>, to: Seq<char> },
    Rename { from: Seq<char>, to: Seq<char> },
    Write { to: Seq<char>, text: Seq<char> },
    MakeExecutable { path: Seq<char> },
}

impl View for Act {
    type V = ActView;

    open spec fn view(&self) -> ActView {
        match *self {
            Act::Require { path } => ActView::Require { path: path@ },
            Act::MakeDir { path } => ActView::MakeDir { path: path@ },
            Act::Copy { from, to } => ActView::Copy { from: from@, to: to@ },
            Act::Rename { from, to } => ActView::Rename { from: from@, to: to@ },
            Act::Write { to, text } => ActView::Write { to: to@, text: text@ },
            Act::MakeExecutable { path } => ActView::MakeExecutable { path: path@ },
        }
    }
}

/// An act, and what is shown where it fails. Steps are done in order; the
/// first that fails is the last.
#[derive(Debug, PartialEq, Eq)]
pub struct Step {
    pub act: Act,
    pub message: String,
}

/// What a step says.
#[verifier::ext_equal]
pub struct StepView {
    pub act: ActView,
    pub message: Seq<char>,
}

impl View for Step {
    type V = StepView;

    open spec fn view(&self) -> StepView {
        StepView { act: self.act@, message: self.message@ }
    }
}

/// The step that does `act`, or shows `message`.
pub open spec fn step(act: ActView, message: Seq<char>) -> StepView {
    StepView { act, message }
}

/// What steps say.
pub open spec fn step_views(v: Seq<Step>) -> Seq<StepView> {
    Seq::new(v.len(), |i: int| v[i]@)
}

/// Puts a step behind others.
pub fn push_step(steps: &mut Vec<Step>, act: Act, message: String)
    ensures
        step_views(final(steps)@) == step_views(old(steps)@).push(step(act@, message@)),
{
    steps.push(Step { act, message });
    assert(step_views(steps@) =~= step_views(old(steps)@).push(step(act@, message@)));
}

/// A tree of files: what they hold, which are executable, and the directories
/// that were made.
#[verifier::ext_equal]
pub struct FilesView {
    pub files: Map<Seq<char>, Seq<u8>>,
    pub executable: Set<Seq<char>>,
    pub dirs: Set<Seq<char>>,
}

/// The tree after an act that succeeded.
pub open spec fn after_act(t: FilesView, act: ActView) -> FilesView {
    match act {
        ActView::Require { .. } => t,
        ActView::MakeDir { path } => FilesView { dirs: t.dirs.insert(path), ..t },
        ActView::Copy { from, to } => FilesView { files: t.files.insert(to, t.files[from]), ..t },
        ActView::Rename { from, to } => FilesView {
            files: t.files.remove(from).insert(to, t.files[from]),
            ..t
        },
        ActView::Write { to, text } => FilesView {
            files: t.files.insert(to, vstd::utf8::encode_utf8(text)),
            ..t
        },
        ActView::MakeExecutable { path } => FilesView {
            executable: t.executable.insert(path),
            ..t
        },
    }
}

/// The tree after steps that succeeded.
pub open spec fn after_steps(t: FilesView, steps: Seq<StepView>) -> FilesView
    decreases steps.len(),
{
    if steps.len() == 0 {
        t
    } else {
        after_act(after_steps(t, steps.drop_last()), steps.last().act)
    }
}

/// Steps behind others take up what those left.
pub proof fn lemma_after_more_steps(t: FilesView, a: Seq<StepView>, b: Seq<StepView>)
    ensures
        after_steps(t, a + b) == after_steps(after_steps(t, a), b),
    decreases b.len(),
{
    if b.len() == 0 {
        assert(a + b =~= a);
    } else {
        lemma_after_more_steps(t, a, b.drop_last());
        assert((a + b).drop_last() =~= a + b.drop_last());
        assert((a + b).last() == b.last());
    }
}

/// Whether what is shown where a step fails names the file that was to be made.
pub open spec fn names_its_file(s: StepView) -> bool {
    match s.act {
        ActView::Require { path } => crate::text::shows(s.message, path),
        ActView::MakeDir { path } => crate::text::shows(s.message, path),
        ActView::Copy { from, to } => crate::text::shows(s.message, from) && crate::text::shows(
            s.message,
            to,
        ),
        ActView::Rename { from, to } => crate::text::shows(s.message, from)
            && crate::text::shows(s.message, to),
        ActView::Write { to, .. } => crate::text::shows(s.message, to),
        ActView::MakeExecutable { path } => crate::text::shows(s.message, path),
    }
}

/// The message of a copy names both files.
pub proof fn lemma_copy_is_named(from: Seq<char>, to: Seq<char>)
    ensures
        crate::text::shows("copy "@ + from + " -> "@ + to, from),
        crate::text::shows("copy "@ + from + " -> "@ + to, to),
{
    let none = Seq::<char>::empty();
    let m = "copy "@ + from + " -> "@ + to;
    crate::text::lemma_shows(m, "copy "@, from, " -> "@ + to);
    crate::text::lemma_shows(m, "copy "@ + from + " -> "@, to, none);
}

} // verus!
