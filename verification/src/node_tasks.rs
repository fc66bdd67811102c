//! The node commands, one step at a time: each step reports what the last
//! reply showed and asks for the next remote command.

use vstd::prelude::*;
use vstd::string::*;
use crate::node::{
    NodeEntry, NodeEntryView, NodesFile, clone_command, clone_command_for, commit_query,
    commit_query_for, delete_command, delete_command_for, entries_view, exists_query,
    exists_query_for, found_on_server, get_server_commit, has_node, is_target, lists,
    node_exists_on_server, node_name_from_repo, node_row, node_status_row, opt_view,
    pull_command, pull_command_for, remove_named, repo_node_name, select_targets, server_commit,
    status_row, format_row, targets, without_name,
};
use crate::server::{unexpected, unexpected_step};
use crate::session::{
    Line, LineView, Next, NextView, Reply, ReplyView, Request, RequestView, Step, StepView, cat,
    cat3, lines_view, say, step, warn,
};
use crate::text::{contains, debug_quoted, debug_text, has_substring, repeat, repeated, trim, trimmed};

verus! {

/// A node command, as given on the command line.
#[allow(inconsistent_fields)]
pub enum NodeCmd {
    /// Compare the inventory with the server.
    Status,
    /// Install the nodes the server lacks (only `name`, where given).
    Install { name: Option<String> },
    /// Update the installed nodes (only `name`, where given).
    Update { name: Option<String> },
    /// Record the server's commits in the inventory (only for `name`, where given).
    Pin { name: Option<String> },
    /// Install a new node from `repo` and list it in the inventory.
    Add { repo: String, desc: Option<String> },
    /// Delete a node from the server and the inventory.
    Remove { name: String },
}

// ---------------------------------------------------------------- status

/// `node status`: the table of recorded and installed commits.
pub struct StatusTask {
    pub nodes: Vec<NodeEntry>,
    /// The node whose commit was asked for last.
    pub at: usize,
}

/// The header of the status table and its rule.
pub open spec fn status_header() -> Seq<LineView> {
    seq![
        LineView::Stdout(status_row("NAME"@, "EXPECTED"@, "SERVER"@, "STATUS"@)),
        LineView::Stdout(repeated("-"@, 75)),
    ]
}

/// Ask for the commit of node `j`, or finish after the last node.
pub open spec fn status_ask(nodes: Seq<NodeEntryView>, j: int) -> NextView {
    if j < nodes.len() {
        NextView::Ask(RequestView::Container(commit_query(nodes[j].name)))
    } else {
        NextView::Finish
    }
}

pub open spec fn status_task_start(nodes: Seq<NodeEntryView>) -> StepView {
    StepView { lines: status_header(), next: status_ask(nodes, 0) }
}

pub open spec fn status_task_after(nodes: Seq<NodeEntryView>, at: int, r: ReplyView) -> (
    int,
    StepView,
) {
    match r {
        ReplyView::Output(o) => if 0 <= at < nodes.len() {
            (
                at + 1,
                StepView {
                    lines: seq![LineView::Stdout(node_row(nodes[at], server_commit(o)))],
                    next: status_ask(nodes, at + 1),
                },
            )
        } else {
            (at, unexpected())
        },
        _ => (at, unexpected()),
    }
}

impl StatusTask {
    fn ask(&self) -> (r: Next)
        ensures
            r@ == status_ask(entries_view(self.nodes@), self.at as int),
    {
        if self.at < self.nodes.len() {
            Next::Ask(Request::Container(commit_query_for(self.nodes[self.at].name.as_str())))
        } else {
            Next::Finish
        }
    }

    pub fn start(nodes: Vec<NodeEntry>) -> (r: (StatusTask, Step))
        ensures
            r.0.nodes == nodes,
            r.0.at == 0,
            r.1@ == status_task_start(entries_view(nodes@)),
    {
        let mut lines: Vec<Line> = Vec::new();
        say(&mut lines, format_row("NAME", "EXPECTED", "SERVER", "STATUS"));
        say(&mut lines, repeat("-", 75));
        let t = StatusTask { nodes, at: 0 };
        let next = t.ask();
        let s = step(lines, next);
        assert(s@.lines =~= status_header());
        (t, s)
    }

    pub fn resume(&mut self, reply: Reply) -> (r: Step)
        ensures
            final(self).nodes == old(self).nodes,
            (final(self).at as int, r@) == status_task_after(
                entries_view(old(self).nodes@),
                old(self).at as int,
                reply@,
            ),
    {
        let o = match reply {
            Reply::Output(o) => o,
            _ => {
                return unexpected_step();
            },
        };
        if self.at >= self.nodes.len() {
            return unexpected_step();
        }
        let commit = get_server_commit(&o);
        let mut lines: Vec<Line> = Vec::new();
        say(&mut lines, node_status_row(&self.nodes[self.at], &commit));
        proof {
            assert(opt_view(commit) == server_commit(crate::session::result_view(o)));
        }
        self.at = self.at + 1;
        let next = self.ask();
        let s = step(lines, next);
        assert(s@.lines =~= status_task_after(
            entries_view(old(self).nodes@),
            old(self).at as int,
            reply@,
        ).1.lines);
        s
    }
}

// ---------------------------------------------------------------- install

/// `node install`: clone the named nodes that the server lacks.
pub struct InstallTask {
    pub targets: Vec<NodeEntry>,
    /// The target being dealt with.
    pub at: usize,
    /// Whether its clone was asked for (else its existence check).
    pub cloning: bool,
}

/// The closing notice of `node install`.
pub open spec fn install_notice() -> Seq<char> {
    "\nComfyUI 재시작 필요: comfyui-workflows restart (또는 수동)"@
}

/// How a node name looks in the report of a missing target.
pub open spec fn name_debug(name: Option<Seq<char>>) -> Seq<char> {
    match name {
        Some(n) => "Some("@ + debug_text(n) + ")"@,
        None => "None"@,
    }
}

/// After `lines`, check target `j`, or close the command after the last one.
pub open spec fn install_next(ts: Seq<NodeEntryView>, j: int, lines: Seq<LineView>) -> (
    int,
    bool,
    StepView,
) {
    if j < ts.len() {
        (
            j,
            false,
            StepView {
                lines,
                next: NextView::Ask(RequestView::Container(exists_query(ts[j].name))),
            },
        )
    } else {
        (j, false, StepView { lines: lines.push(LineView::Stdout(install_notice())), next: NextView::Finish })
    }
}

pub open spec fn install_task_start(ts: Seq<NodeEntryView>, name: Option<Seq<char>>) -> StepView {
    if ts.len() == 0 {
        StepView {
            lines: seq![LineView::Stderr("노드를 찾을 수 없습니다: "@ + name_debug(name))],
            next: NextView::Finish,
        }
    } else {
        install_next(ts, 0, Seq::empty()).2
    }
}

pub open spec fn install_task_after(ts: Seq<NodeEntryView>, at: int, cloning: bool, r: ReplyView) -> (
    int,
    bool,
    StepView,
) {
    match r {
        ReplyView::Output(o) => if !(0 <= at < ts.len()) {
            (at, cloning, unexpected())
        } else if !cloning {
            if found_on_server(o) {
                install_next(
                    ts,
                    at + 1,
                    seq![LineView::Stdout("  [skip] "@ + ts[at].name + " (already exists)"@)],
                )
            } else {
                (
                    at,
                    true,
                    StepView {
                        lines: seq![
                            LineView::Stdout("  [install] "@ + ts[at].name + " from "@ + ts[at].repo),
                        ],
                        next: NextView::Ask(
                            RequestView::Container(clone_command(ts[at].repo, ts[at].name)),
                        ),
                    },
                )
            }
        } else {
            install_next(
                ts,
                at + 1,
                seq![
                    match o {
                        Ok(_) => LineView::Stdout("    installed"@),
                        Err(e) => LineView::Stderr("    FAILED: "@ + e),
                    },
                ],
            )
        },
        _ => (at, cloning, unexpected()),
    }
}

/// How a node name looks in the report of a missing target.
fn format_name_debug(name: &Option<String>) -> (r: String)
    ensures
        r@ == name_debug(opt_view(*name)),
{
    match name {
        Some(n) => {
            let d = debug_quoted(n.as_str());
            cat3("Some(", d.as_str(), ")")
        },
        None => String::from_str("None"),
    }
}

impl InstallTask {
    /// Moves to target `at + 1` after `lines`.
    fn advance(&mut self, lines: Vec<Line>) -> (r: Step)
        requires
            old(self).at < old(self).targets@.len(),
        ensures
            final(self).targets == old(self).targets,
            (final(self).at as int, final(self).cloning, r@) == install_next(
                entries_view(old(self).targets@),
                old(self).at + 1,
                lines_view(lines@),
            ),
    {
        let mut lines = lines;
        let n = self.targets.len();
        self.at = self.at + 1;
        self.cloning = false;
        if self.at < self.targets.len() {
            let q = exists_query_for(self.targets[self.at].name.as_str());
            step(lines, Next::Ask(Request::Container(q)))
        } else {
            say(&mut lines, String::from_str("\nComfyUI 재시작 필요: comfyui-workflows restart (또는 수동)"));
            step(lines, Next::Finish)
        }
    }

    pub fn start(nodes: &Vec<NodeEntry>, name: &Option<String>) -> (r: (InstallTask, Step))
        ensures
            entries_view(r.0.targets@) == targets(entries_view(nodes@), opt_view(*name)),
            r.0.at == 0,
            !r.0.cloning,
            r.1@ == install_task_start(r.0.targets@.map_values(|e: NodeEntry| e@), opt_view(*name)),
    {
        let ts = select_targets(nodes, name);
        let mut lines: Vec<Line> = Vec::new();
        if ts.len() == 0 {
            let d = format_name_debug(name);
            warn(&mut lines, cat("노드를 찾을 수 없습니다: ", d.as_str()));
            let s = step(lines, Next::Finish);
            assert(s@.lines =~= install_task_start(entries_view(ts@), opt_view(*name)).lines);
            return (InstallTask { targets: ts, at: 0, cloning: false }, s);
        }
        let q = exists_query_for(ts[0].name.as_str());
        let s = step(lines, Next::Ask(Request::Container(q)));
        assert(s@.lines =~= Seq::<LineView>::empty());
        (InstallTask { targets: ts, at: 0, cloning: false }, s)
    }

    pub fn resume(&mut self, reply: Reply) -> (r: Step)
        ensures
            final(self).targets == old(self).targets,
            (final(self).at as int, final(self).cloning, r@) == install_task_after(
                entries_view(old(self).targets@),
                old(self).at as int,
                old(self).cloning,
                reply@,
            ),
    {
        let o = match reply {
            Reply::Output(o) => o,
            _ => {
                return unexpected_step();
            },
        };
        if self.at >= self.targets.len() {
            return unexpected_step();
        }
        let mut lines: Vec<Line> = Vec::new();
        if !self.cloning {
            if node_exists_on_server(&o) {
                say(&mut lines, cat3("  [skip] ", self.targets[self.at].name.as_str(), " (already exists)"));
                assert(lines_view(lines@) =~= seq![LineView::Stdout("  [skip] "@ + entries_view(old(self).targets@)[old(self).at as int].name + " (already exists)"@)]);
                self.advance(lines)
            } else {
                let t = &self.targets[self.at];
                let mut msg = cat3("  [install] ", t.name.as_str(), " from ");
                msg.append(t.repo.as_str());
                say(&mut lines, msg);
                let cmd = clone_command_for(t.repo.as_str(), t.name.as_str());
                self.cloning = true;
                let s = step(lines, Next::Ask(Request::Container(cmd)));
                assert(s@.lines =~= install_task_after(
                    entries_view(old(self).targets@),
                    old(self).at as int,
                    old(self).cloning,
                    reply@,
                ).2.lines);
                s
            }
        } else {
            match &o {
                Ok(_) => say(&mut lines, String::from_str("    installed")),
                Err(e) => warn(&mut lines, cat("    FAILED: ", e.as_str())),
            }
            assert(lines_view(lines@) =~= seq![
                match crate::session::result_view(o) {
                    Ok(_) => LineView::Stdout("    installed"@),
                    Err(e) => LineView::Stderr("    FAILED: "@ + e),
                },
            ]);
            self.advance(lines)
        }
    }
}

// ---------------------------------------------------------------- update

/// `node update`: pull the named nodes that the server has.
pub struct UpdateTask {
    pub targets: Vec<NodeEntry>,
    /// The target being dealt with.
    pub at: usize,
    /// Whether its pull was asked for (else its existence check).
    pub pulling: bool,
}

/// After `lines`, check target `j`, or finish after the last one.
pub open spec fn update_next(ts: Seq<NodeEntryView>, j: int, lines: Seq<LineView>) -> (
    int,
    bool,
    StepView,
) {
    if j < ts.len() {
        (
            j,
            false,
            StepView {
                lines,
                next: NextView::Ask(RequestView::Container(exists_query(ts[j].name))),
            },
        )
    } else {
        (j, false, StepView { lines, next: NextView::Finish })
    }
}

pub open spec fn update_task_start(ts: Seq<NodeEntryView>) -> StepView {
    update_next(ts, 0, Seq::empty()).2
}

/// What a pull reports: whether the node was already up to date.
pub open spec fn pull_line(o: Result<Seq<char>, Seq<char>>) -> LineView {
    match o {
        Ok(out) => if has_substring(trimmed(out), "Already up to date"@) {
            LineView::Stdout("    up to date"@)
        } else {
            LineView::Stdout("    updated"@)
        },
        Err(e) => LineView::Stderr("    FAILED: "@ + e),
    }
}

pub open spec fn update_task_after(ts: Seq<NodeEntryView>, at: int, pulling: bool, r: ReplyView) -> (
    int,
    bool,
    StepView,
) {
    match r {
        ReplyView::Output(o) => if !(0 <= at < ts.len()) {
            (at, pulling, unexpected())
        } else if !pulling {
            if !found_on_server(o) {
                update_next(
                    ts,
                    at + 1,
                    seq![LineView::Stdout("  [missing] "@ + ts[at].name + " — install first"@)],
                )
            } else {
                (
                    at,
                    true,
                    StepView {
                        lines: seq![LineView::Stdout("  [update] "@ + ts[at].name)],
                        next: NextView::Ask(RequestView::Container(pull_command(ts[at].name))),
                    },
                )
            }
        } else {
            update_next(ts, at + 1, seq![pull_line(o)])
        },
        _ => (at, pulling, unexpected()),
    }
}

impl UpdateTask {
    fn advance(&mut self, lines: Vec<Line>) -> (r: Step)
        requires
            old(self).at < old(self).targets@.len(),
        ensures
            final(self).targets == old(self).targets,
            (final(self).at as int, final(self).pulling, r@) == update_next(
                entries_view(old(self).targets@),
                old(self).at + 1,
                lines_view(lines@),
            ),
    {
        let n = self.targets.len();
        self.at = self.at + 1;
        self.pulling = false;
        if self.at < self.targets.len() {
            let q = exists_query_for(self.targets[self.at].name.as_str());
            step(lines, Next::Ask(Request::Container(q)))
        } else {
            step(lines, Next::Finish)
        }
    }

    pub fn start(nodes: &Vec<NodeEntry>, name: &Option<String>) -> (r: (UpdateTask, Step))
        ensures
            entries_view(r.0.targets@) == targets(entries_view(nodes@), opt_view(*name)),
            r.0.at == 0,
            !r.0.pulling,
            r.1@ == update_task_start(entries_view(r.0.targets@)),
    {
        let ts = select_targets(nodes, name);
        let lines: Vec<Line> = Vec::new();
        let next = if ts.len() > 0 {
            Next::Ask(Request::Container(exists_query_for(ts[0].name.as_str())))
        } else {
            Next::Finish
        };
        let s = step(lines, next);
        assert(s@.lines =~= Seq::<LineView>::empty());
        (UpdateTask { targets: ts, at: 0, pulling: false }, s)
    }

    pub fn resume(&mut self, reply: Reply) -> (r: Step)
        ensures
            final(self).targets == old(self).targets,
            (final(self).at as int, final(self).pulling, r@) == update_task_after(
                entries_view(old(self).targets@),
                old(self).at as int,
                old(self).pulling,
                reply@,
            ),
    {
        let o = match reply {
            Reply::Output(o) => o,
            _ => {
                return unexpected_step();
            },
        };
        if self.at >= self.targets.len() {
            return unexpected_step();
        }
        let mut lines: Vec<Line> = Vec::new();
        if !self.pulling {
            if !node_exists_on_server(&o) {
                say(
                    &mut lines,
                    cat3("  [missing] ", self.targets[self.at].name.as_str(), " — install first"),
                );
                assert(lines_view(lines@) =~= seq![LineView::Stdout("  [missing] "@ + entries_view(old(self).targets@)[old(self).at as int].name + " — install first"@)]);
                self.advance(lines)
            } else {
                let t = &self.targets[self.at];
                say(&mut lines, cat("  [update] ", t.name.as_str()));
                let cmd = pull_command_for(t.name.as_str());
                self.pulling = true;
                let s = step(lines, Next::Ask(Request::Container(cmd)));
                assert(s@.lines =~= update_task_after(
                    entries_view(old(self).targets@),
                    old(self).at as int,
                    old(self).pulling,
                    reply@,
                ).2.lines);
                s
            }
        } else {
            match &o {
                Ok(out) => {
                    if contains(trim(out.as_str()), "Already up to date") {
                        say(&mut lines, String::from_str("    up to date"));
                    } else {
                        say(&mut lines, String::from_str("    updated"));
                    }
                },
                Err(e) => warn(&mut lines, cat("    FAILED: ", e.as_str())),
            }
            assert(lines_view(lines@) =~= seq![pull_line(crate::session::result_view(o))]);
            self.advance(lines)
        }
    }
}

// ---------------------------------------------------------------- pin

/// `node pin`: record in the inventory the commits that the server has.
pub struct PinTask {
    pub file: NodesFile,
    pub name: Option<String>,
    /// The node whose commit was asked for last.
    pub at: usize,
    /// Whether a recorded commit was changed.
    pub changed: bool,
    /// Whether the inventory's writing was asked for.
    pub saving: bool,
}

/// Where a pin stands: the inventory as changed so far, the node being
/// asked about, whether a commit changed, whether the writing was asked for.
pub struct PinState {
    pub nodes: Seq<NodeEntryView>,
    pub at: int,
    pub changed: bool,
    pub saving: bool,
}

/// The first node from `from` on that the command names; the number of nodes
/// where there is none.
pub open spec fn next_target(nodes: Seq<NodeEntryView>, name: Option<Seq<char>>, from: int) -> int
    decreases nodes.len() - from,
{
    if from < 0 || from >= nodes.len() {
        nodes.len() as int
    } else if is_target(nodes[from], name) {
        from
    } else {
        next_target(nodes, name, from + 1)
    }
}

/// After `lines`, ask for the commit of the next named node; after the last
/// one, ask to write the inventory where a commit changed, else finish.
pub open spec fn pin_continue(
    nodes: Seq<NodeEntryView>,
    name: Option<Seq<char>>,
    from: int,
    changed: bool,
    lines: Seq<LineView>,
) -> (PinState, StepView) {
    let j = next_target(nodes, name, from);
    if j < nodes.len() {
        (
            PinState { nodes, at: j, changed, saving: false },
            StepView {
                lines,
                next: NextView::Ask(RequestView::Container(commit_query(nodes[j].name))),
            },
        )
    } else if changed {
        (
            PinState { nodes, at: j, changed, saving: true },
            StepView { lines, next: NextView::Ask(RequestView::SaveNodes(nodes)) },
        )
    } else {
        (PinState { nodes, at: j, changed, saving: false }, StepView { lines, next: NextView::Finish })
    }
}

pub open spec fn pin_task_start(nodes: Seq<NodeEntryView>, name: Option<Seq<char>>) -> (
    PinState,
    StepView,
) {
    pin_continue(nodes, name, 0, false, Seq::empty())
}

/// `e` with its commit set to `c`.
pub open spec fn with_commit(e: NodeEntryView, c: Seq<char>) -> NodeEntryView {
    NodeEntryView { commit: c, ..e }
}

pub open spec fn pin_task_after(st: PinState, name: Option<Seq<char>>, r: ReplyView) -> (
    PinState,
    StepView,
) {
    match r {
        ReplyView::Output(o) => if st.saving || !(0 <= st.at < st.nodes.len()) {
            (st, unexpected())
        } else {
            let e = st.nodes[st.at];
            match server_commit(o) {
                Some(c) => if c != e.commit {
                    pin_continue(
                        st.nodes.update(st.at, with_commit(e, c)),
                        name,
                        st.at + 1,
                        true,
                        seq![LineView::Stdout("  [pin] "@ + e.name + " "@ + e.commit + " -> "@ + c)],
                    )
                } else {
                    pin_continue(
                        st.nodes,
                        name,
                        st.at + 1,
                        st.changed,
                        seq![LineView::Stdout("  [ok]  "@ + e.name + " "@ + e.commit)],
                    )
                },
                None => pin_continue(
                    st.nodes,
                    name,
                    st.at + 1,
                    st.changed,
                    seq![LineView::Stdout("  [skip] "@ + e.name + " (not on server)"@)],
                ),
            }
        },
        ReplyView::Saved => if st.saving {
            (
                PinState { saving: false, ..st },
                StepView {
                    lines: seq![LineView::Stdout("\nnodes.yaml updated"@)],
                    next: NextView::Finish,
                },
            )
        } else {
            (st, unexpected())
        },
        _ => (st, unexpected()),
    }
}

impl PinTask {
    pub open spec fn state(&self) -> PinState {
        PinState { nodes: self.file@, at: self.at as int, changed: self.changed, saving: self.saving }
    }

    /// Moves to the next named node from `from` on after `lines`.
    fn proceed(&mut self, from: usize, lines: Vec<Line>) -> (r: Step)
        requires
            from <= old(self).file.nodes@.len(),
        ensures
            final(self).name == old(self).name,
            (final(self).state(), r@) == pin_continue(
                old(self).file@,
                opt_view(old(self).name),
                from as int,
                old(self).changed,
                lines_view(lines@),
            ),
    {
        let n = self.file.nodes.len();
        let mut j = from;
        while j < n && !crate::node::names(&self.name, &self.file.nodes[j])
            invariant
                n == self.file.nodes@.len(),
                from <= j <= n,
                next_target(self.file@, opt_view(self.name), from as int) == next_target(
                    self.file@,
                    opt_view(self.name),
                    j as int,
                ),
            decreases n - j,
        {
            assert(self.file@[j as int] == self.file.nodes@[j as int]@);
            j += 1;
        }
        assert(next_target(self.file@, opt_view(self.name), j as int) == j) by {
            if j < n {
                assert(self.file@[j as int] == self.file.nodes@[j as int]@);
            }
        }
        self.at = j;
        self.saving = false;
        let ghost expect = pin_continue(
            old(self).file@,
            opt_view(old(self).name),
            from as int,
            old(self).changed,
            lines_view(lines@),
        );
        if j < n {
            assert(self.file@[j as int] == self.file.nodes@[j as int]@);
            let q = commit_query_for(self.file.nodes[j].name.as_str());
            let s = step(lines, Next::Ask(Request::Container(q)));
            assert(self.state() == expect.0);
            assert(s@ == expect.1);
            s
        } else if self.changed {
            self.saving = true;
            let copy = copy_nodes(&self.file.nodes);
            let s = step(lines, Next::Ask(Request::SaveNodes(NodesFile { nodes: copy })));
            assert(self.state() == expect.0);
            assert(s@ == expect.1);
            s
        } else {
            let s = step(lines, Next::Finish);
            assert(self.state() == expect.0);
            assert(s@ == expect.1);
            s
        }
    }

    pub fn start(file: NodesFile, name: Option<String>) -> (r: (PinTask, Step))
        ensures
            r.0.name == name,
            (r.0.state(), r.1@) == pin_task_start(file@, opt_view(name)),
    {
        let mut t = PinTask { file, name, at: 0, changed: false, saving: false };
        let lines: Vec<Line> = Vec::new();
        assert(lines_view(lines@) =~= Seq::<LineView>::empty());
        let s = t.proceed(0, lines);
        (t, s)
    }

    pub fn resume(&mut self, reply: Reply) -> (r: Step)
        ensures
            final(self).name == old(self).name,
            (final(self).state(), r@) == pin_task_after(
                old(self).state(),
                opt_view(old(self).name),
                reply@,
            ),
    {
        match reply {
            Reply::Output(o) => {
                if self.saving || self.at >= self.file.nodes.len() {
                    return unexpected_step();
                }
                let at = self.at;
                let mut lines: Vec<Line> = Vec::new();
                let commit = get_server_commit(&o);
                let ghost e = self.file@[at as int];
                match commit {
                    Some(c) => {
                        if c != self.file.nodes[at].commit {
                            let mut msg = cat3("  [pin] ", self.file.nodes[at].name.as_str(), " ");
                            msg.append(self.file.nodes[at].commit.as_str());
                            msg.append(" -> ");
                            msg.append(c.as_str());
                            say(&mut lines, msg);
                            let mut entry = self.file.nodes[at].copied();
                            entry.commit = c;
                            self.file.nodes.set(at, entry);
                            self.changed = true;
                            assert(self.file@ =~= old(self).file@.update(
                                at as int,
                                with_commit(e, entry.commit@),
                            ));
                        } else {
                            let mut msg = cat3("  [ok]  ", self.file.nodes[at].name.as_str(), " ");
                            msg.append(self.file.nodes[at].commit.as_str());
                            say(&mut lines, msg);
                        }
                    },
                    None => {
                        say(
                            &mut lines,
                            cat3("  [skip] ", self.file.nodes[at].name.as_str(), " (not on server)"),
                        );
                    },
                }
                assert(lines_view(lines@) =~= pin_task_after(
                    old(self).state(),
                    opt_view(old(self).name),
                    reply@,
                ).1.lines);
                self.proceed(at + 1, lines)
            },
            Reply::Saved => {
                if !self.saving {
                    return unexpected_step();
                }
                self.saving = false;
                let mut lines: Vec<Line> = Vec::new();
                say(&mut lines, String::from_str("\nnodes.yaml updated"));
                let s = step(lines, Next::Finish);
                assert(s@.lines =~= seq![LineView::Stdout("\nnodes.yaml updated"@)]);
                s
            },
            _ => unexpected_step(),
        }
    }
}

/// A copy of a list of nodes.
pub fn copy_nodes(nodes: &Vec<NodeEntry>) -> (r: Vec<NodeEntry>)
    ensures
        entries_view(r@) == entries_view(nodes@),
{
    let n = nodes.len();
    let mut out: Vec<NodeEntry> = Vec::new();
    let mut i: usize = 0;
    while i < n
        invariant
            n == nodes@.len(),
            i <= n,
            entries_view(out@) =~= entries_view(nodes@).subrange(0, i as int),
        decreases n - i,
    {
        let e = nodes[i].copied();
        let ghost before = entries_view(out@);
        out.push(e);
        assert(entries_view(out@) =~= before.push(e@));
        assert(entries_view(nodes@).subrange(0, i + 1) =~= entries_view(nodes@).subrange(0, i as int).push(e@));
        i += 1;
    }
    out
}

// ---------------------------------------------------------------- add

/// `node add`: install a node from its repository and list it.
pub struct AddTask {
    pub file: NodesFile,
    pub name: String,
    pub repo: String,
    pub description: String,
    /// 0: cloning; 1: asking its commit; 2: writing the inventory; 3: done.
    pub stage: u8,
}

/// The closing notice after a change of installed nodes.
pub open spec fn restart_notice() -> Seq<char> {
    "ComfyUI 재시작 필요"@
}

pub open spec fn add_task_start(nodes: Seq<NodeEntryView>, repo: Seq<char>) -> (u8, StepView) {
    let name = repo_node_name(repo);
    if lists(nodes, name) {
        (
            3,
            StepView {
                lines: seq![LineView::Stderr(name + " 는 이미 nodes.yaml에 있습니다"@)],
                next: NextView::Finish,
            },
        )
    } else {
        (
            0,
            StepView {
                lines: seq![LineView::Stdout("  [install] "@ + name + " from "@ + repo)],
                next: NextView::Ask(RequestView::Container(clone_command(repo, name))),
            },
        )
    }
}

/// The entry that `node add` lists.
pub open spec fn added_entry(
    name: Seq<char>,
    repo: Seq<char>,
    description: Seq<char>,
    o: Result<Seq<char>, Seq<char>>,
) -> NodeEntryView {
    NodeEntryView {
        name,
        repo,
        commit: match server_commit(o) {
            Some(c) => c,
            None => "unknown"@,
        },
        description,
    }
}

pub open spec fn add_task_after(
    nodes: Seq<NodeEntryView>,
    name: Seq<char>,
    repo: Seq<char>,
    description: Seq<char>,
    stage: u8,
    r: ReplyView,
) -> (Seq<NodeEntryView>, u8, StepView) {
    match r {
        ReplyView::Output(o) => if stage == 0 {
            match o {
                Ok(_) => (
                    nodes,
                    1,
                    StepView {
                        lines: seq![LineView::Stdout("    installed"@)],
                        next: NextView::Ask(RequestView::Container(commit_query(name))),
                    },
                ),
                Err(e) => (
                    nodes,
                    3,
                    StepView {
                        lines: seq![LineView::Stderr("    FAILED: "@ + e)],
                        next: NextView::Finish,
                    },
                ),
            }
        } else if stage == 1 {
            let grown = nodes.push(added_entry(name, repo, description, o));
            (
                grown,
                2,
                StepView { lines: Seq::empty(), next: NextView::Ask(RequestView::SaveNodes(grown)) },
            )
        } else {
            (nodes, stage, unexpected())
        },
        ReplyView::Saved => if stage == 2 {
            (
                nodes,
                3,
                StepView {
                    lines: seq![
                        LineView::Stdout("\n"@ + name + " added to nodes.yaml"@),
                        LineView::Stdout(restart_notice()),
                    ],
                    next: NextView::Finish,
                },
            )
        } else {
            (nodes, stage, unexpected())
        },
        _ => (nodes, stage, unexpected()),
    }
}

impl AddTask {
    pub fn start(file: NodesFile, repo: String, desc: Option<String>) -> (r: (AddTask, Step))
        ensures
            r.0.file@ == file@,
            r.0.name@ == repo_node_name(repo@),
            r.0.repo@ == repo@,
            r.0.description@ == (match desc {
                Some(d) => d@,
                None => Seq::<char>::empty(),
            }),
            (r.0.stage, r.1@) == add_task_start(file@, repo@),
    {
        let name = node_name_from_repo(repo.as_str());
        let description = match desc {
            Some(d) => d,
            None => String::new(),
        };
        let mut lines: Vec<Line> = Vec::new();
        if has_node(&file.nodes, name.as_str()) {
            warn(&mut lines, cat(name.as_str(), " 는 이미 nodes.yaml에 있습니다"));
            let s = step(lines, Next::Finish);
            assert(s@.lines =~= add_task_start(file@, repo@).1.lines);
            return (AddTask { file, name, repo, description, stage: 3 }, s);
        }
        let mut msg = cat3("  [install] ", name.as_str(), " from ");
        msg.append(repo.as_str());
        say(&mut lines, msg);
        let cmd = clone_command_for(repo.as_str(), name.as_str());
        let s = step(lines, Next::Ask(Request::Container(cmd)));
        assert(s@.lines =~= add_task_start(file@, repo@).1.lines);
        (AddTask { file, name, repo, description, stage: 0 }, s)
    }

    pub fn resume(&mut self, reply: Reply) -> (r: Step)
        ensures
            final(self).name == old(self).name,
            final(self).repo == old(self).repo,
            final(self).description == old(self).description,
            (final(self).file@, final(self).stage, r@) == add_task_after(
                old(self).file@,
                old(self).name@,
                old(self).repo@,
                old(self).description@,
                old(self).stage,
                reply@,
            ),
    {
        let mut lines: Vec<Line> = Vec::new();
        match reply {
            Reply::Output(o) => {
                if self.stage == 0 {
                    match &o {
                        Ok(_) => {
                            say(&mut lines, String::from_str("    installed"));
                            self.stage = 1;
                            let q = commit_query_for(self.name.as_str());
                            let s = step(lines, Next::Ask(Request::Container(q)));
                            assert(s@.lines =~= seq![LineView::Stdout("    installed"@)]);
                            s
                        },
                        Err(e) => {
                            warn(&mut lines, cat("    FAILED: ", e.as_str()));
                            self.stage = 3;
                            let s = step(lines, Next::Finish);
                            assert(s@.lines =~= seq![LineView::Stderr("    FAILED: "@ + e@)]);
                            s
                        },
                    }
                } else if self.stage == 1 {
                    let commit = match get_server_commit(&o) {
                        Some(c) => c,
                        None => String::from_str("unknown"),
                    };
                    let entry = NodeEntry {
                        name: self.name.clone(),
                        repo: self.repo.clone(),
                        commit,
                        description: self.description.clone(),
                    };
                    let ghost ev = entry@;
                    self.file.nodes.push(entry);
                    self.stage = 2;
                    assert(self.file@ =~= old(self).file@.push(ev));
                    let copy = copy_nodes(&self.file.nodes);
                    let s = step(lines, Next::Ask(Request::SaveNodes(NodesFile { nodes: copy })));
                    assert(s@.lines =~= Seq::<LineView>::empty());
                    s
                } else {
                    unexpected_step()
                }
            },
            Reply::Saved => {
                if self.stage != 2 {
                    return unexpected_step();
                }
                self.stage = 3;
                say(&mut lines, cat3("\n", self.name.as_str(), " added to nodes.yaml"));
                say(&mut lines, String::from_str("ComfyUI 재시작 필요"));
                let s = step(lines, Next::Finish);
                assert(s@.lines =~= add_task_after(
                    old(self).file@,
                    old(self).name@,
                    old(self).repo@,
                    old(self).description@,
                    old(self).stage,
                    reply@,
                ).2.lines);
                s
            },
            _ => unexpected_step(),
        }
    }
}

// ---------------------------------------------------------------- remove

/// `node remove`: delete a node from the server and the inventory.
pub struct RemoveTask {
    /// The inventory without the node.
    pub file: NodesFile,
    pub name: String,
    /// 0: deleting; 1: writing the inventory; 2: done.
    pub stage: u8,
}

pub open spec fn remove_task_start(nodes: Seq<NodeEntryView>, name: Seq<char>) -> (u8, StepView) {
    if without_name(nodes, name).len() == nodes.len() {
        (
            2,
            StepView {
                lines: seq![LineView::Stderr(name + " 는 nodes.yaml에 없습니다"@)],
                next: NextView::Finish,
            },
        )
    } else {
        (
            0,
            StepView {
                lines: seq![LineView::Stdout("  [remove] "@ + name + " from server"@)],
                next: NextView::Ask(RequestView::Container(delete_command(name))),
            },
        )
    }
}

pub open spec fn remove_task_after(kept: Seq<NodeEntryView>, name: Seq<char>, stage: u8, r: ReplyView) -> (
    u8,
    StepView,
) {
    match r {
        ReplyView::Output(o) => if stage == 0 {
            (
                1,
                StepView {
                    lines: seq![
                        match o {
                            Ok(_) => LineView::Stdout("    removed"@),
                            Err(e) => LineView::Stderr("    WARNING: "@ + e),
                        },
                    ],
                    next: NextView::Ask(RequestView::SaveNodes(kept)),
                },
            )
        } else {
            (stage, unexpected())
        },
        ReplyView::Saved => if stage == 1 {
            (
                2,
                StepView {
                    lines: seq![
                        LineView::Stdout("\n"@ + name + " removed from nodes.yaml"@),
                        LineView::Stdout(restart_notice()),
                    ],
                    next: NextView::Finish,
                },
            )
        } else {
            (stage, unexpected())
        },
        _ => (stage, unexpected()),
    }
}

impl RemoveTask {
    pub fn start(file: NodesFile, name: String) -> (r: (RemoveTask, Step))
        ensures
            r.0.file@ == without_name(file@, name@),
            r.0.name == name,
            (r.0.stage, r.1@) == remove_task_start(file@, name@),
    {
        let kept = remove_named(&file.nodes, name.as_str());
        let mut lines: Vec<Line> = Vec::new();
        if kept.len() == file.nodes.len() {
            warn(&mut lines, cat(name.as_str(), " 는 nodes.yaml에 없습니다"));
            let s = step(lines, Next::Finish);
            assert(s@.lines =~= remove_task_start(file@, name@).1.lines);
            return (RemoveTask { file: NodesFile { nodes: kept }, name, stage: 2 }, s);
        }
        say(&mut lines, cat3("  [remove] ", name.as_str(), " from server"));
        let cmd = delete_command_for(name.as_str());
        let s = step(lines, Next::Ask(Request::Container(cmd)));
        assert(s@.lines =~= remove_task_start(file@, name@).1.lines);
        (RemoveTask { file: NodesFile { nodes: kept }, name, stage: 0 }, s)
    }

    pub fn resume(&mut self, reply: Reply) -> (r: Step)
        ensures
            final(self).file == old(self).file,
            final(self).name == old(self).name,
            (final(self).stage, r@) == remove_task_after(
                old(self).file@,
                old(self).name@,
                old(self).stage,
                reply@,
            ),
    {
        let mut lines: Vec<Line> = Vec::new();
        match reply {
            Reply::Output(o) => {
                if self.stage != 0 {
                    return unexpected_step();
                }
                match &o {
                    Ok(_) => say(&mut lines, String::from_str("    removed")),
                    Err(e) => warn(&mut lines, cat("    WARNING: ", e.as_str())),
                }
                self.stage = 1;
                let copy = copy_nodes(&self.file.nodes);
                let s = step(lines, Next::Ask(Request::SaveNodes(NodesFile { nodes: copy })));
                assert(s@.lines =~= remove_task_after(
                    old(self).file@,
                    old(self).name@,
                    old(self).stage,
                    reply@,
                ).1.lines);
                s
            },
            Reply::Saved => {
                if self.stage != 1 {
                    return unexpected_step();
                }
                self.stage = 2;
                say(&mut lines, cat3("\n", self.name.as_str(), " removed from nodes.yaml"));
                say(&mut lines, String::from_str("ComfyUI 재시작 필요"));
                let s = step(lines, Next::Finish);
                assert(s@.lines =~= remove_task_after(
                    old(self).file@,
                    old(self).name@,
                    old(self).stage,
                    reply@,
                ).1.lines);
                s
            },
            _ => unexpected_step(),
        }
    }
}

// ---------------------------------------------------------------- session

/// A node command under way.
pub enum NodeSession {
    Status(StatusTask),
    Install(InstallTask),
    Update(UpdateTask),
    Pin(PinTask),
    Add(AddTask),
    Remove(RemoveTask),
}

/// `session` and its first step are how `cmd` starts on inventory `nodes`.
pub open spec fn node_started(cmd: NodeCmd, nodes: Seq<NodeEntryView>, session: NodeSession, first: StepView) -> bool {
    match cmd {
        NodeCmd::Status => session matches NodeSession::Status(t) && entries_view(t.nodes@) == nodes
            && t.at == 0 && first == status_task_start(nodes),
        NodeCmd::Install { name } => session matches NodeSession::Install(t) && entries_view(
            t.targets@,
        ) == targets(nodes, opt_view(name)) && t.at == 0 && !t.cloning && first
            == install_task_start(targets(nodes, opt_view(name)), opt_view(name)),
        NodeCmd::Update { name } => session matches NodeSession::Update(t) && entries_view(
            t.targets@,
        ) == targets(nodes, opt_view(name)) && t.at == 0 && !t.pulling && first
            == update_task_start(targets(nodes, opt_view(name))),
        NodeCmd::Pin { name } => session matches NodeSession::Pin(t) && t.name == name && (
        t.state(), first) == pin_task_start(nodes, opt_view(name)),
        NodeCmd::Add { repo, desc } => session matches NodeSession::Add(t) && t.file@ == nodes
            && t.name@ == repo_node_name(repo@) && t.repo@ == repo@ && t.description@ == (match desc {
            Some(d) => d@,
            None => Seq::<char>::empty(),
        }) && (t.stage, first) == add_task_start(nodes, repo@),
        NodeCmd::Remove { name } => session matches NodeSession::Remove(t) && t.file@
            == without_name(nodes, name@) && t.name == name && (t.stage, first) == remove_task_start(
            nodes,
            name@,
        ),
    }
}

/// `after` and `s` are how `before` goes on from reply `r`.
pub open spec fn node_resumed(before: NodeSession, after: NodeSession, r: ReplyView, s: StepView) -> bool {
    match before {
        NodeSession::Status(a) => after matches NodeSession::Status(b) && b.nodes == a.nodes && (
        b.at as int, s) == status_task_after(entries_view(a.nodes@), a.at as int, r),
        NodeSession::Install(a) => after matches NodeSession::Install(b) && b.targets == a.targets
            && (b.at as int, b.cloning, s) == install_task_after(
            entries_view(a.targets@),
            a.at as int,
            a.cloning,
            r,
        ),
        NodeSession::Update(a) => after matches NodeSession::Update(b) && b.targets == a.targets
            && (b.at as int, b.pulling, s) == update_task_after(
            entries_view(a.targets@),
            a.at as int,
            a.pulling,
            r,
        ),
        NodeSession::Pin(a) => after matches NodeSession::Pin(b) && b.name == a.name && (
        b.state(), s) == pin_task_after(a.state(), opt_view(a.name), r),
        NodeSession::Add(a) => after matches NodeSession::Add(b) && b.name == a.name && b.repo
            == a.repo && b.description == a.description && (b.file@, b.stage, s) == add_task_after(
            a.file@,
            a.name@,
            a.repo@,
            a.description@,
            a.stage,
            r,
        ),
        NodeSession::Remove(a) => after matches NodeSession::Remove(b) && b.file == a.file && b.name
            == a.name && (b.stage, s) == remove_task_after(a.file@, a.name@, a.stage, r),
    }
}

/// Starts node command `cmd` on the inventory `file`.
pub fn run(cmd: NodeCmd, file: NodesFile) -> (r: (NodeSession, Step))
    ensures
        node_started(cmd, file@, r.0, r.1@),
{
    match cmd {
        NodeCmd::Status => {
            let (t, s) = StatusTask::start(file.nodes);
            (NodeSession::Status(t), s)
        },
        NodeCmd::Install { name } => {
            let (t, s) = InstallTask::start(&file.nodes, &name);
            (NodeSession::Install(t), s)
        },
        NodeCmd::Update { name } => {
            let (t, s) = UpdateTask::start(&file.nodes, &name);
            (NodeSession::Update(t), s)
        },
        NodeCmd::Pin { name } => {
            let (t, s) = PinTask::start(file, name);
            (NodeSession::Pin(t), s)
        },
        NodeCmd::Add { repo, desc } => {
            let (t, s) = AddTask::start(file, repo, desc);
            (NodeSession::Add(t), s)
        },
        NodeCmd::Remove { name } => {
            let (t, s) = RemoveTask::start(file, name);
            (NodeSession::Remove(t), s)
        },
    }
}

impl NodeSession {
    /// Takes the reply to the last request and gives the next step.
    pub fn resume(&mut self, reply: Reply) -> (r: Step)
        ensures
            node_resumed(*old(self), *final(self), reply@, r@),
    {
        match self {
            NodeSession::Status(t) => t.resume(reply),
            NodeSession::Install(t) => t.resume(reply),
            NodeSession::Update(t) => t.resume(reply),
            NodeSession::Pin(t) => t.resume(reply),
            NodeSession::Add(t) => t.resume(reply),
            NodeSession::Remove(t) => t.resume(reply),
        }
    }
}

} // verus!
