//! The exchange between a command's decisions and the program that carries
//! them out: each step prints lines and then asks for one piece of outside
//! work, finishes, or gives up.

use vstd::prelude::*;
use vstd::string::*;
use crate::node::{NodesFile, NodeEntryView};

verus! {

/// One line of output.
#[derive(Debug, PartialEq, Eq)]
pub enum Line {
    /// A line on standard output.
    Stdout(String),
    /// A line on standard error.
    Stderr(String),
    /// An Ollama model and its size in bytes, printed as `  {name} ({size:.1}GB)`.
    ModelSize { name: String, bytes: u64 },
}

pub enum LineView {
    Stdout(Seq<char>),
    Stderr(Seq<char>),
    ModelSize(Seq<char>, u64),
}

impl View for Line {
    type V = LineView;

    open spec fn view(&self) -> LineView {
        match self {
            Line::Stdout(s) => LineView::Stdout(s@),
            Line::Stderr(s) => LineView::Stderr(s@),
            Line::ModelSize { name, bytes } => LineView::ModelSize(name@, *bytes),
        }
    }
}

/// Outside work that a step asks for.
#[derive(Debug, PartialEq, Eq)]
pub enum Request {
    /// Run a shell command inside the ComfyUI container; the reply is `Output`.
    Container(String),
    /// Run a shell command on the server host; the reply is `Output`.
    Host(String),
    /// Write the node inventory; the reply is `Saved`.
    SaveNodes(NodesFile),
    /// Whether a local path exists; the reply is `Found`.
    Exists(String),
    /// The paths of the entries of a local directory; the reply is `Entries`.
    ListDir(String),
    /// Copy a local file to the server host with scp; the reply is `Copied`.
    Copy { from: String, to: String },
}

pub enum RequestView {
    Container(Seq<char>),
    Host(Seq<char>),
    SaveNodes(Seq<NodeEntryView>),
    Exists(Seq<char>),
    ListDir(Seq<char>),
    Copy(Seq<char>, Seq<char>),
}

impl View for Request {
    type V = RequestView;

    open spec fn view(&self) -> RequestView {
        match self {
            Request::Container(s) => RequestView::Container(s@),
            Request::Host(s) => RequestView::Host(s@),
            Request::SaveNodes(f) => RequestView::SaveNodes(f@),
            Request::Exists(s) => RequestView::Exists(s@),
            Request::ListDir(s) => RequestView::ListDir(s@),
            Request::Copy { from, to } => RequestView::Copy(from@, to@),
        }
    }
}

/// How a copy to the server ended.
#[derive(Debug, PartialEq, Eq)]
pub enum CopyOutcome {
    /// scp exited with success.
    Done,
    /// scp ran and failed; its standard error.
    Failed(String),
    /// scp could not be started; the reason.
    NotStarted(String),
}

pub enum CopyOutcomeView {
    Done,
    Failed(Seq<char>),
    NotStarted(Seq<char>),
}

impl View for CopyOutcome {
    type V = CopyOutcomeView;

    open spec fn view(&self) -> CopyOutcomeView {
        match self {
            CopyOutcome::Done => CopyOutcomeView::Done,
            CopyOutcome::Failed(s) => CopyOutcomeView::Failed(s@),
            CopyOutcome::NotStarted(s) => CopyOutcomeView::NotStarted(s@),
        }
    }
}

/// The answer to a request.
#[derive(Debug, PartialEq, Eq)]
pub enum Reply {
    /// What a remote command printed (`Ok`), or why it failed (`Err`).
    Output(Result<String, String>),
    /// Whether the path exists.
    Found(bool),
    /// The directory's entries.
    Entries(Vec<String>),
    /// How the copy ended.
    Copied(CopyOutcome),
    /// The inventory was written.
    Saved,
}

pub enum ReplyView {
    Output(Result<Seq<char>, Seq<char>>),
    Found(bool),
    Entries(Seq<Seq<char>>),
    Copied(CopyOutcomeView),
    Saved,
}

pub open spec fn result_view(r: Result<String, String>) -> Result<Seq<char>, Seq<char>> {
    match r {
        Ok(s) => Ok(s@),
        Err(e) => Err(e@),
    }
}

impl View for Reply {
    type V = ReplyView;

    open spec fn view(&self) -> ReplyView {
        match self {
            Reply::Output(r) => ReplyView::Output(result_view(*r)),
            Reply::Found(b) => ReplyView::Found(*b),
            Reply::Entries(v) => ReplyView::Entries(v@.map_values(|s: String| s@)),
            Reply::Copied(c) => ReplyView::Copied(c@),
            Reply::Saved => ReplyView::Saved,
        }
    }
}

/// What follows a step's output.
#[derive(Debug, PartialEq, Eq)]
pub enum Next {
    /// Carry out the request and resume with its reply.
    Ask(Request),
    /// The command is done.
    Finish,
    /// The command stops here with a fatal error.
    Abort(String),
}

pub enum NextView {
    Ask(RequestView),
    Finish,
    Abort(Seq<char>),
}

impl View for Next {
    type V = NextView;

    open spec fn view(&self) -> NextView {
        match self {
            Next::Ask(r) => NextView::Ask(r@),
            Next::Finish => NextView::Finish,
            Next::Abort(s) => NextView::Abort(s@),
        }
    }
}

/// Lines to print, then what follows.
#[derive(Debug, PartialEq, Eq)]
pub struct Step {
    pub lines: Vec<Line>,
    pub next: Next,
}

pub struct StepView {
    pub lines: Seq<LineView>,
    pub next: NextView,
}

impl View for Step {
    type V = StepView;

    open spec fn view(&self) -> StepView {
        StepView { lines: self.lines@.map_values(|l: Line| l@), next: self.next@ }
    }
}

/// The view of a list of lines.
pub open spec fn lines_view(v: Seq<Line>) -> Seq<LineView> {
    v.map_values(|l: Line| l@)
}

/// Appends a line on standard output.
pub fn say(lines: &mut Vec<Line>, s: String)
    ensures
        lines_view(final(lines)@) == lines_view(old(lines)@).push(LineView::Stdout(s@)),
{
    let ghost s_view = s@;
    lines.push(Line::Stdout(s));
    assert(lines_view(lines@) =~= lines_view(old(lines)@).push(LineView::Stdout(s_view)));
}

/// Appends a line on standard error.
pub fn warn(lines: &mut Vec<Line>, s: String)
    ensures
        lines_view(final(lines)@) == lines_view(old(lines)@).push(LineView::Stderr(s@)),
{
    let ghost s_view = s@;
    lines.push(Line::Stderr(s));
    assert(lines_view(lines@) =~= lines_view(old(lines)@).push(LineView::Stderr(s_view)));
}

/// The text `a` followed by `b`.
pub fn cat(a: &str, b: &str) -> (r: String)
    ensures
        r@ == a@ + b@,
{
    let mut r = String::from_str(a);
    r.append(b);
    r
}

/// The text `a`, `b` and `c` in turn.
pub fn cat3(a: &str, b: &str, c: &str) -> (r: String)
    ensures
        r@ == a@ + b@ + c@,
{
    let mut r = String::from_str(a);
    r.append(b);
    r.append(c);
    r
}

/// The text `a`, `b`, `c` and `d` in turn.
pub fn cat4(a: &str, b: &str, c: &str, d: &str) -> (r: String)
    ensures
        r@ == a@ + b@ + c@ + d@,
{
    let mut r = String::from_str(a);
    r.append(b);
    r.append(c);
    r.append(d);
    r
}

/// A step with the given lines and what follows.
pub fn step(lines: Vec<Line>, next: Next) -> (r: Step)
    ensures
        r@ == (StepView { lines: lines_view(lines@), next: next@ }),
{
    Step { lines, next }
}

} // verus!
