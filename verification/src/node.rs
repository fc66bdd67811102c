//! The custom-node inventory (`nodes.yaml`) and what the node commands run
//! and report.

use vstd::prelude::*;
use vstd::string::*;
use crate::session::{cat, cat3, cat4, result_view};
use crate::text::{
    after_last, after_last_char, pad_right, padded, trim, trim_end_char, trim_end_str, trimmed,
    trimmed_end_char, trimmed_end_str,
};

pub use crate::node_tasks::{run, NodeCmd, NodeSession};

verus! {

/// One custom node of the inventory.
#[derive(Debug, Clone, PartialEq, Eq)]
pub struct NodeEntry {
    pub name: String,
    pub repo: String,
    pub commit: String,
    pub description: String,
}

pub struct NodeEntryView {
    pub name: Seq<char>,
    pub repo: Seq<char>,
    pub commit: Seq<char>,
    pub description: Seq<char>,
}

impl View for NodeEntry {
    type V = NodeEntryView;

    open spec fn view(&self) -> NodeEntryView {
        NodeEntryView {
            name: self.name@,
            repo: self.repo@,
            commit: self.commit@,
            description: self.description@,
        }
    }
}

impl NodeEntry {
    /// A copy of the entry.
    pub fn copied(&self) -> (r: NodeEntry)
        ensures
            r@ == self@,
    {
        NodeEntry {
            name: self.name.clone(),
            repo: self.repo.clone(),
            commit: self.commit.clone(),
            description: self.description.clone(),
        }
    }
}

/// The inventory: the nodes in the order in which they are listed.
#[derive(Debug, PartialEq, Eq)]
pub struct NodesFile {
    pub nodes: Vec<NodeEntry>,
}

pub open spec fn entries_view(v: Seq<NodeEntry>) -> Seq<NodeEntryView> {
    v.map_values(|e: NodeEntry| e@)
}

impl View for NodesFile {
    type V = Seq<NodeEntryView>;

    open spec fn view(&self) -> Seq<NodeEntryView> {
        entries_view(self.nodes@)
    }
}

/// The comment lines written above the inventory.
pub open spec fn nodes_header() -> Seq<char> {
    "# ComfyUI Custom Nodes — ai-img (60105)\n# Managed by comfyui-workflows CLI\n\n"@
}

/// The text of the inventory file: the header, then the YAML of the inventory.
pub fn nodes_file_text(yaml: &str) -> (r: String)
    ensures
        r@ == nodes_header() + yaml@,
{
    cat("# ComfyUI Custom Nodes — ai-img (60105)\n# Managed by comfyui-workflows CLI\n\n", yaml)
}

/// The query for the commit that node `name` has checked out.
pub open spec fn commit_query(name: Seq<char>) -> Seq<char> {
    "cd /opt/comfyui/custom_nodes/"@ + name + " && git rev-parse --short HEAD 2>/dev/null"@
}

/// The query whether node `name` is installed.
pub open spec fn exists_query(name: Seq<char>) -> Seq<char> {
    "test -d /opt/comfyui/custom_nodes/"@ + name + " && echo yes"@
}

/// The command that installs node `name` from `repo`.
pub open spec fn clone_command(repo: Seq<char>, name: Seq<char>) -> Seq<char> {
    "cd /opt/comfyui/custom_nodes && git clone "@ + repo + " "@ + name
}

/// The command that updates node `name`.
pub open spec fn pull_command(name: Seq<char>) -> Seq<char> {
    "cd /opt/comfyui/custom_nodes/"@ + name + " && git pull --ff-only 2>&1"@
}

/// The command that deletes node `name` from the server.
pub open spec fn delete_command(name: Seq<char>) -> Seq<char> {
    "rm -rf /opt/comfyui/custom_nodes/"@ + name
}

pub fn commit_query_for(name: &str) -> (r: String)
    ensures
        r@ == commit_query(name@),
{
    cat3("cd /opt/comfyui/custom_nodes/", name, " && git rev-parse --short HEAD 2>/dev/null")
}

pub fn exists_query_for(name: &str) -> (r: String)
    ensures
        r@ == exists_query(name@),
{
    cat3("test -d /opt/comfyui/custom_nodes/", name, " && echo yes")
}

pub fn clone_command_for(repo: &str, name: &str) -> (r: String)
    ensures
        r@ == clone_command(repo@, name@),
{
    cat4("cd /opt/comfyui/custom_nodes && git clone ", repo, " ", name)
}

pub fn pull_command_for(name: &str) -> (r: String)
    ensures
        r@ == pull_command(name@),
{
    cat3("cd /opt/comfyui/custom_nodes/", name, " && git pull --ff-only 2>&1")
}

pub fn delete_command_for(name: &str) -> (r: String)
    ensures
        r@ == delete_command(name@),
{
    cat("rm -rf /opt/comfyui/custom_nodes/", name)
}

/// The commit that a commit query reports: its trimmed output, where the query
/// succeeded and printed something.
pub open spec fn server_commit(o: Result<Seq<char>, Seq<char>>) -> Option<Seq<char>> {
    match o {
        Ok(out) => if trimmed(out).len() > 0 {
            Some(trimmed(out))
        } else {
            None
        },
        Err(_) => None,
    }
}

/// The commit that the server's copy of a node has checked out, from the
/// reply to its commit query (`commit_query`).
pub fn get_server_commit(reply: &Result<String, String>) -> (r: Option<String>)
    ensures
        match r {
            Some(c) => server_commit(result_view(*reply)) == Some(c@),
            None => server_commit(result_view(*reply)) is None,
        },
{
    match reply {
        Ok(out) => {
            let t = trim(out.as_str());
            if t.unicode_len() > 0 {
                Some(String::from_str(t))
            } else {
                None
            }
        },
        Err(_) => None,
    }
}

/// Whether an existence query found the node: it succeeded and printed `yes`.
pub open spec fn found_on_server(o: Result<Seq<char>, Seq<char>>) -> bool {
    match o {
        Ok(out) => trimmed(out) == "yes"@,
        Err(_) => false,
    }
}

/// Whether the server has a node, from the reply to its existence query
/// (`exists_query`).
pub fn node_exists_on_server(reply: &Result<String, String>) -> (r: bool)
    ensures
        r == found_on_server(result_view(*reply)),
{
    match reply {
        Ok(out) => crate::text::str_eq(trim(out.as_str()), "yes"),
        Err(_) => false,
    }
}

/// The name of the node that `repo` holds: the last path segment of the URL,
/// after trailing slashes and then trailing `.git` are dropped.
pub open spec fn repo_node_name(repo: Seq<char>) -> Seq<char> {
    after_last(trimmed_end_str(trimmed_end_char(repo, '/'), ".git"@), '/')
}

/// The name of the node that `repo` holds.
pub fn node_name_from_repo(repo: &str) -> (r: String)
    ensures
        r@ == repo_node_name(repo@),
{
    let a = trim_end_char(repo, '/');
    let b = trim_end_str(a, ".git");
    String::from_str(after_last_char(b, '/'))
}

/// How the server's copy of a node compares with the inventory.
#[derive(Debug, PartialEq, Eq)]
pub enum NodeState {
    /// The server has the recorded commit.
    InSync,
    /// The server has another commit.
    Drift,
    /// The server does not have the node.
    Missing,
}

/// How a node with recorded commit `expected` compares, given the commit the
/// server reports (none where it does not have the node).
pub fn node_state(expected: &str, server: &Option<String>) -> (r: NodeState)
    ensures
        r == NodeState::InSync <==> (server is Some && server->Some_0@ == expected@),
        r == NodeState::Drift <==> (server is Some && server->Some_0@ != expected@),
        r == NodeState::Missing <==> server is None,
{
    match server {
        Some(c) => if crate::text::str_eq(c.as_str(), expected) {
            NodeState::InSync
        } else {
            NodeState::Drift
        },
        None => NodeState::Missing,
    }
}

/// A row of the node status table: name, expected commit, server commit, state.
pub open spec fn status_row(name: Seq<char>, expected: Seq<char>, server: Seq<char>, state: Seq<char>) -> Seq<char> {
    padded(name, 40) + " "@ + padded(expected, 10) + " "@ + padded(server, 10) + " "@ + state
}

/// The status row of `node` given the commit the server reports.
pub open spec fn node_row(node: NodeEntryView, server: Option<Seq<char>>) -> Seq<char> {
    match server {
        Some(c) => status_row(
            node.name,
            node.commit,
            c,
            if c == node.commit {
                "OK"@
            } else {
                "DRIFT"@
            },
        ),
        None => status_row(node.name, node.commit, "-"@, "MISSING"@),
    }
}

pub fn format_row(name: &str, expected: &str, server: &str, state: &str) -> (r: String)
    ensures
        r@ == status_row(name@, expected@, server@, state@),
{
    let mut r = pad_right(name, 40);
    r.append(" ");
    let e = pad_right(expected, 10);
    r.append(e.as_str());
    r.append(" ");
    let s = pad_right(server, 10);
    r.append(s.as_str());
    r.append(" ");
    r.append(state);
    r
}

/// The status row of `node` given the commit the server reports.
pub fn node_status_row(node: &NodeEntry, server: &Option<String>) -> (r: String)
    ensures
        r@ == node_row(node@, match server {
            Some(c) => Some(c@),
            None => None,
        }),
{
    let state = node_state(node.commit.as_str(), server);
    match server {
        Some(c) => match state {
            NodeState::InSync => format_row(node.name.as_str(), node.commit.as_str(), c.as_str(), "OK"),
            _ => format_row(node.name.as_str(), node.commit.as_str(), c.as_str(), "DRIFT"),
        },
        None => format_row(node.name.as_str(), node.commit.as_str(), "-", "MISSING"),
    }
}

/// Whether a node is among those a command names (all where it names none).
pub open spec fn is_target(e: NodeEntryView, name: Option<Seq<char>>) -> bool {
    match name {
        Some(n) => e.name == n,
        None => true,
    }
}

/// Whether the command's node name (if any) names node `e`.
pub fn names(name: &Option<String>, e: &NodeEntry) -> (r: bool)
    ensures
        r == is_target(e@, opt_view(*name)),
{
    match name {
        Some(wanted) => *wanted == e.name,
        None => true,
    }
}

/// The nodes a command names, in inventory order.
pub open spec fn targets(nodes: Seq<NodeEntryView>, name: Option<Seq<char>>) -> Seq<NodeEntryView>
    decreases nodes.len(),
{
    if nodes.len() == 0 {
        nodes
    } else if is_target(nodes.last(), name) {
        targets(nodes.drop_last(), name).push(nodes.last())
    } else {
        targets(nodes.drop_last(), name)
    }
}

/// The nodes other than those called `name`, in inventory order.
pub open spec fn without_name(nodes: Seq<NodeEntryView>, name: Seq<char>) -> Seq<NodeEntryView>
    decreases nodes.len(),
{
    if nodes.len() == 0 {
        nodes
    } else if nodes.last().name != name {
        without_name(nodes.drop_last(), name).push(nodes.last())
    } else {
        without_name(nodes.drop_last(), name)
    }
}

pub open spec fn opt_view(o: Option<String>) -> Option<Seq<char>> {
    match o {
        Some(s) => Some(s@),
        None => None,
    }
}

/// The nodes a command names.
pub fn select_targets(nodes: &Vec<NodeEntry>, name: &Option<String>) -> (r: Vec<NodeEntry>)
    ensures
        entries_view(r@) == targets(entries_view(nodes@), opt_view(*name)),
{
    let n = nodes.len();
    let mut out: Vec<NodeEntry> = Vec::new();
    let mut i: usize = 0;
    let ghost all = entries_view(nodes@);
    while i < n
        invariant
            n == nodes@.len(),
            all == entries_view(nodes@),
            i <= n,
            entries_view(out@) == targets(all.subrange(0, i as int), opt_view(*name)),
        decreases n - i,
    {
        let e = &nodes[i];
        let keep = match name {
            Some(wanted) => *wanted == e.name,
            None => true,
        };
        let ghost before = entries_view(out@);
        assert(all.subrange(0, i + 1).drop_last() =~= all.subrange(0, i as int));
        assert(all.subrange(0, i + 1).last() == e@);
        if keep {
            out.push(e.copied());
            assert(entries_view(out@) =~= before.push(e@));
        }
        i += 1;
    }
    assert(all.subrange(0, n as int) =~= all);
    out
}

/// The inventory without the nodes called `name`.
pub fn remove_named(nodes: &Vec<NodeEntry>, name: &str) -> (r: Vec<NodeEntry>)
    ensures
        entries_view(r@) == without_name(entries_view(nodes@), name@),
{
    let n = nodes.len();
    let mut out: Vec<NodeEntry> = Vec::new();
    let mut i: usize = 0;
    let ghost all = entries_view(nodes@);
    while i < n
        invariant
            n == nodes@.len(),
            all == entries_view(nodes@),
            i <= n,
            entries_view(out@) == without_name(all.subrange(0, i as int), name@),
        decreases n - i,
    {
        let e = &nodes[i];
        let ghost before = entries_view(out@);
        assert(all.subrange(0, i + 1).drop_last() =~= all.subrange(0, i as int));
        assert(all.subrange(0, i + 1).last() == e@);
        if !crate::text::str_eq(e.name.as_str(), name) {
            out.push(e.copied());
            assert(entries_view(out@) =~= before.push(e@));
        }
        i += 1;
    }
    assert(all.subrange(0, n as int) =~= all);
    out
}

/// Whether the inventory lists a node called `name`.
pub open spec fn lists(nodes: Seq<NodeEntryView>, name: Seq<char>) -> bool {
    exists|i: int| 0 <= i < nodes.len() && nodes[i].name == name
}

/// Whether the inventory lists a node called `name`.
pub fn has_node(nodes: &Vec<NodeEntry>, name: &str) -> (r: bool)
    ensures
        r == lists(entries_view(nodes@), name@),
{
    let n = nodes.len();
    let mut i: usize = 0;
    while i < n
        invariant
            n == nodes@.len(),
            i <= n,
            forall|j: int| 0 <= j < i ==> entries_view(nodes@)[j].name != name@,
        decreases n - i,
    {
        if crate::text::str_eq(nodes[i].name.as_str(), name) {
            assert(entries_view(nodes@)[i as int].name == name@);
            return true;
        }
        i += 1;
    }
    false
}

} // verus!
