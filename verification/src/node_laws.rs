//! What holds of the node commands beyond each single step.

use vstd::prelude::*;
use crate::node::{
    is_target, node_row, status_row, entries_view, NodeEntryView, clone_command, exists_query, found_on_server, lists, pull_command,
    repo_node_name, server_commit, without_name,
};
use crate::node_tasks::{
    NodeSession, node_resumed, PinState, add_task_start, added_entry, install_task_after, next_target, pin_task_after,
    pin_task_start, remove_task_start, update_task_after, with_commit, install_task_start,
    install_notice, status_task_after, update_task_start, add_task_after, remove_task_after,
};
use crate::session::{LineView, NextView, ReplyView, RequestView};
use crate::text::{after_last, has_substring, trimmed, trimmed_end_char, trimmed_end_str};

verus! {

/// No two nodes of the inventory have the same name.
pub open spec fn names_unique(nodes: Seq<NodeEntryView>) -> bool {
    forall|i: int, j: int| 0 <= i < j < nodes.len() ==> nodes[i].name != nodes[j].name
}

proof fn lemma_after_last_free(s: Seq<char>, c: char)
    ensures
        !after_last(s, c).contains(c),
    decreases s.len(),
{
    if s.len() > 0 && s.last() != c {
        lemma_after_last_free(s.drop_last(), c);
        let t = after_last(s.drop_last(), c);
        assert forall|i: int| 0 <= i < t.push(s.last()).len() implies t.push(s.last())[i] != c by {
            if i < t.len() {
                assert(t[i] != c);
            }
        }
    }
}

/// The name that `node add` takes from a repository URL holds no `/`.
pub proof fn lemma_repo_name_has_no_slash(repo: Seq<char>)
    ensures
        !repo_node_name(repo).contains('/'),
{
    lemma_after_last_free(trimmed_end_str(trimmed_end_char(repo, '/'), ".git"@), '/');
}

/// A trailing `/` on a repository URL does not change the node's name.
pub proof fn lemma_repo_name_ignores_trailing_slash(repo: Seq<char>)
    ensures
        repo_node_name(repo.push('/')) == repo_node_name(repo),
{
    assert(repo.push('/').drop_last() =~= repo);
}

/// A `.git` ending on a repository URL that does not end in `/` does not change
/// the node's name.
pub proof fn lemma_repo_name_ignores_git_suffix(repo: Seq<char>)
    requires
        repo.len() == 0 || repo.last() != '/',
    ensures
        repo_node_name(repo + ".git"@) == repo_node_name(repo),
{
    reveal_strlit(".git");
    let s = repo + ".git"@;
    assert(s.last() == 't');
    assert(trimmed_end_char(s, '/') == s);
    assert(trimmed_end_char(repo, '/') == repo);
    assert(".git"@.is_suffix_of(s)) by {
        assert(s.subrange(s.len() - 4, s.len() as int) =~= ".git"@);
    }
    assert(s.subrange(0, s.len() - 4) =~= repo);
}

/// `node add` refuses a repository whose node the inventory already lists,
/// and otherwise goes on to install it.
pub proof fn lemma_add_refuses_listed(nodes: Seq<NodeEntryView>, repo: Seq<char>)
    ensures
        add_task_start(nodes, repo).0 == 3 <==> lists(nodes, repo_node_name(repo)),
        !lists(nodes, repo_node_name(repo)) ==> add_task_start(nodes, repo).1.next
            == NextView::Ask(RequestView::Container(clone_command(repo, repo_node_name(repo)))),
{
}

/// The entry that `node add` lists keeps the names of the inventory distinct.
pub proof fn lemma_add_keeps_names_unique(
    nodes: Seq<NodeEntryView>,
    repo: Seq<char>,
    description: Seq<char>,
    o: Result<Seq<char>, Seq<char>>,
)
    requires
        names_unique(nodes),
        add_task_start(nodes, repo).0 == 0,
    ensures
        names_unique(nodes.push(added_entry(repo_node_name(repo), repo, description, o))),
{
    let grown = nodes.push(added_entry(repo_node_name(repo), repo, description, o));
    assert forall|i: int, j: int| 0 <= i < j < grown.len() implies grown[i].name
        != grown[j].name by {
        if j == nodes.len() {
            assert(!lists(nodes, repo_node_name(repo)));
            assert(nodes[i].name != repo_node_name(repo));
        }
    }
}

proof fn lemma_without_name(nodes: Seq<NodeEntryView>, name: Seq<char>)
    ensures
        without_name(nodes, name).len() <= nodes.len(),
        without_name(nodes, name).len() == nodes.len() <==> !lists(nodes, name),
        forall|i: int|
            0 <= i < without_name(nodes, name).len() ==> (#[trigger] without_name(nodes, name)[i]).name
                != name && nodes.contains(without_name(nodes, name)[i]),
        forall|i: int|
            0 <= i < nodes.len() && (#[trigger] nodes[i]).name != name ==> without_name(
                nodes,
                name,
            ).contains(nodes[i]),
    decreases nodes.len(),
{
    if nodes.len() > 0 {
        let init = nodes.drop_last();
        lemma_without_name(init, name);
        let w = without_name(init, name);
        assert forall|i: int| 0 <= i < init.len() implies nodes[i] == init[i] by {}
        if nodes.last().name != name {
            assert(without_name(nodes, name) == w.push(nodes.last()));
            assert forall|i: int|
                0 <= i < nodes.len() && (#[trigger] nodes[i]).name != name implies w.push(
                nodes.last(),
            ).contains(nodes[i]) by {
                if i < init.len() {
                    assert(init[i] == nodes[i]);
                    let k = choose|k: int| 0 <= k < w.len() && w[k] == init[i];
                    assert(w.push(nodes.last())[k] == nodes[i]);
                } else {
                    assert(w.push(nodes.last())[w.len() as int] == nodes[i]);
                }
            }
            assert forall|i: int| 0 <= i < w.push(nodes.last()).len() implies nodes.contains(
                w.push(nodes.last())[i],
            ) by {
                if i < w.len() {
                    let k = choose|k: int| 0 <= k < init.len() && init[k] == w[i];
                    assert(nodes[k] == w[i]);
                } else {
                    assert(nodes[nodes.len() - 1] == nodes.last());
                }
            }
            if lists(nodes, name) {
                let k = choose|k: int| 0 <= k < nodes.len() && nodes[k].name == name;
                assert(k < init.len());
                assert(init[k].name == name);
            }
            if lists(init, name) {
                let k = choose|k: int| 0 <= k < init.len() && init[k].name == name;
                assert(nodes[k].name == name);
            }
        } else {
            assert(without_name(nodes, name) == w);
            assert(lists(nodes, name)) by {
                assert(nodes[nodes.len() - 1].name == name);
            }
            assert forall|i: int|
                0 <= i < nodes.len() && (#[trigger] nodes[i]).name != name implies w.contains(
                nodes[i],
            ) by {
                assert(i < init.len());
                assert(init[i] == nodes[i]);
            }
            assert forall|i: int| 0 <= i < w.len() implies nodes.contains(w[i]) by {
                let k = choose|k: int| 0 <= k < init.len() && init[k] == w[i];
                assert(nodes[k] == w[i]);
            }
        }
    }
}

/// `node remove` refuses a name the inventory does not list; otherwise the
/// inventory it writes lists no node of that name and keeps every other node.
pub proof fn lemma_remove_drops_exactly_the_name(nodes: Seq<NodeEntryView>, name: Seq<char>)
    ensures
        remove_task_start(nodes, name).0 == 2 <==> !lists(nodes, name),
        !lists(without_name(nodes, name), name),
        forall|i: int|
            0 <= i < nodes.len() && nodes[i].name != name ==> without_name(nodes, name).contains(
                #[trigger] nodes[i],
            ),
        forall|i: int|
            0 <= i < without_name(nodes, name).len() ==> nodes.contains(
                #[trigger] without_name(nodes, name)[i],
            ),
{
    lemma_without_name(nodes, name);
    if lists(without_name(nodes, name), name) {
        let k = choose|k: int|
            0 <= k < without_name(nodes, name).len() && without_name(nodes, name)[k].name == name;
        assert(without_name(nodes, name)[k].name != name);
    }
}

/// A `node pin` step changes at most the commit of the node it asked about,
/// and that only to the commit the server reports where it differs.
pub proof fn lemma_pin_step_changes_only_that_commit(
    st: PinState,
    name: Option<Seq<char>>,
    o: Result<Seq<char>, Seq<char>>,
)
    requires
        !st.saving,
        0 <= st.at < st.nodes.len(),
    ensures
        ({
            let after = pin_task_after(st, name, ReplyView::Output(o)).0;
            &&& after.nodes.len() == st.nodes.len()
            &&& forall|i: int| 0 <= i < st.nodes.len() && i != st.at ==> after.nodes[i] == st.nodes[i]
            &&& after.nodes[st.at] == match server_commit(o) {
                Some(c) => with_commit(st.nodes[st.at], c),
                None => st.nodes[st.at],
            }
            &&& after.changed == (st.changed || after.nodes != st.nodes)
        }),
{
    let after = pin_task_after(st, name, ReplyView::Output(o)).0;
    match server_commit(o) {
        Some(c) => {
            if c != st.nodes[st.at].commit {
                assert(after.nodes[st.at] != st.nodes[st.at]);
            } else {
                assert(with_commit(st.nodes[st.at], c) == st.nodes[st.at]);
            }
        },
        None => {},
    }
}

/// A `node pin` writes the inventory only after it changed a commit, and
/// writes it as changed.
pub proof fn lemma_pin_saves_only_changes(st: PinState, name: Option<Seq<char>>, r: ReplyView)
    ensures
        ({
            let (after, s) = pin_task_after(st, name, r);
            s.next matches NextView::Ask(RequestView::SaveNodes(saved)) ==> after.changed && saved
                == after.nodes
        }),
{
}

/// `node install` asks to clone a node only when the server reported that it
/// lacks it, and then clones that node from its repository.
pub proof fn lemma_install_clones_only_missing(
    ts: Seq<NodeEntryView>,
    at: int,
    o: Result<Seq<char>, Seq<char>>,
)
    requires
        0 <= at < ts.len(),
    ensures
        ({
            let (_, cloning, s) = install_task_after(ts, at, false, ReplyView::Output(o));
            &&& cloning == !found_on_server(o)
            &&& cloning ==> s.next == NextView::Ask(
                RequestView::Container(clone_command(ts[at].repo, ts[at].name)),
            )
            &&& !cloning && at + 1 < ts.len() ==> s.next == NextView::Ask(
                RequestView::Container(exists_query(ts[at + 1].name)),
            )
        }),
{
}

/// `node update` pulls a node only when the server reported that it has it.
pub proof fn lemma_update_pulls_only_installed(
    ts: Seq<NodeEntryView>,
    at: int,
    o: Result<Seq<char>, Seq<char>>,
)
    requires
        0 <= at < ts.len(),
    ensures
        ({
            let (_, pulling, s) = update_task_after(ts, at, false, ReplyView::Output(o));
            &&& pulling == found_on_server(o)
            &&& pulling ==> s.next == NextView::Ask(
                RequestView::Container(pull_command(ts[at].name)),
            )
        }),
{
}

/// Entry `e` after a pin whose commit query replied `o`.
pub open spec fn pinned(e: NodeEntryView, o: Result<Seq<char>, Seq<char>>) -> NodeEntryView {
    match server_commit(o) {
        Some(c) => with_commit(e, c),
        None => e,
    }
}

/// Where a pin of every node stands after the commit queries replied `os`,
/// one after another.
pub open spec fn pin_fold(st: PinState, os: Seq<Result<Seq<char>, Seq<char>>>) -> PinState
    decreases os.len(),
{
    if os.len() == 0 {
        st
    } else {
        pin_fold(pin_task_after(st, None, ReplyView::Output(os[0])).0, os.drop_first())
    }
}

/// The inventory with the first `k` nodes pinned.
pub open spec fn pinned_upto(
    nodes: Seq<NodeEntryView>,
    os: Seq<Result<Seq<char>, Seq<char>>>,
    k: int,
) -> Seq<NodeEntryView> {
    Seq::new(
        nodes.len(),
        |i: int|
            if i < k {
                pinned(nodes[i], os[i])
            } else {
                nodes[i]
            },
    )
}

/// Where a pin of every node stands after `k` replies.
pub open spec fn pin_state_at(
    nodes: Seq<NodeEntryView>,
    os: Seq<Result<Seq<char>, Seq<char>>>,
    k: int,
) -> PinState {
    let now = pinned_upto(nodes, os, k);
    PinState { nodes: now, at: k, changed: now != nodes, saving: k == nodes.len() && now != nodes }
}

proof fn lemma_next_target_all(nodes: Seq<NodeEntryView>, k: int)
    requires
        0 <= k,
    ensures
        next_target(nodes, None, k) == if k < nodes.len() {
            k
        } else {
            nodes.len() as int
        },
{
}

proof fn lemma_pin_one_step(
    nodes: Seq<NodeEntryView>,
    os: Seq<Result<Seq<char>, Seq<char>>>,
    k: int,
)
    requires
        os.len() == nodes.len(),
        0 <= k < nodes.len(),
    ensures
        pin_task_after(pin_state_at(nodes, os, k), None, ReplyView::Output(os[k])).0
            == pin_state_at(nodes, os, k + 1),
{
    let st = pin_state_at(nodes, os, k);
    let now = pinned_upto(nodes, os, k);
    let next = pinned_upto(nodes, os, k + 1);
    lemma_next_target_all(next, k + 1);
    lemma_next_target_all(now, k + 1);
    assert(now[k] == nodes[k]);
    let after = pin_task_after(st, None, ReplyView::Output(os[k])).0;
    match server_commit(os[k]) {
        Some(c) => {
            if c != nodes[k].commit {
                assert(now.update(k, with_commit(nodes[k], c)) =~= next);
                assert(next != nodes) by {
                    assert(next[k] != nodes[k]);
                }
            } else {
                assert(with_commit(nodes[k], c) == nodes[k]);
                assert(now =~= next);
            }
        },
        None => {
            assert(now =~= next);
        },
    }
    if now != nodes {
        assert(next != nodes) by {
            if next == nodes {
                assert forall|i: int| 0 <= i < nodes.len() implies now[i] == nodes[i] by {
                    if i < k {
                        assert(next[i] == now[i]);
                    }
                }
                assert(now =~= nodes);
            }
        }
    }
    assert(after.nodes == next);
}

proof fn lemma_pin_fold_from(
    nodes: Seq<NodeEntryView>,
    os: Seq<Result<Seq<char>, Seq<char>>>,
    k: int,
)
    requires
        os.len() == nodes.len(),
        0 <= k <= nodes.len(),
    ensures
        pin_fold(pin_state_at(nodes, os, k), os.subrange(k, os.len() as int)) == pin_state_at(
            nodes,
            os,
            nodes.len() as int,
        ),
    decreases nodes.len() - k,
{
    if k < nodes.len() {
        lemma_pin_one_step(nodes, os, k);
        let rest = os.subrange(k, os.len() as int);
        assert(rest[0] == os[k]);
        assert(rest.drop_first() =~= os.subrange(k + 1, os.len() as int));
        lemma_pin_fold_from(nodes, os, k + 1);
    } else {
        assert(os.subrange(k, os.len() as int).len() == 0);
    }
}

/// `node pin` of every node records the commit the server reports for each
/// node that the server has, keeps the others, and asks to write the inventory
/// exactly when a recorded commit changed.
pub proof fn lemma_pin_records_server_commits(
    nodes: Seq<NodeEntryView>,
    os: Seq<Result<Seq<char>, Seq<char>>>,
)
    requires
        os.len() == nodes.len(),
    ensures
        ({
            let last = pin_fold(pin_task_start(nodes, None).0, os);
            &&& last.nodes == Seq::new(nodes.len(), |i: int| pinned(nodes[i], os[i]))
            &&& last.at == nodes.len()
            &&& last.changed == (last.nodes != nodes)
            &&& last.saving == last.changed
        }),
{
    lemma_next_target_all(nodes, 0);
    assert(pinned_upto(nodes, os, 0) =~= nodes);
    assert(pin_task_start(nodes, None).0 == pin_state_at(nodes, os, 0));
    assert(os.subrange(0, os.len() as int) =~= os);
    lemma_pin_fold_from(nodes, os, 0);
    assert(pinned_upto(nodes, os, nodes.len() as int) =~= Seq::new(
        nodes.len(),
        |i: int| pinned(nodes[i], os[i]),
    ));
}

/// How much is left of a node command: the remote requests it can still ask for.
pub open spec fn node_work_left(s: NodeSession) -> int {
    match s {
        NodeSession::Status(t) => t.nodes@.len() - t.at,
        NodeSession::Install(t) => 2 * (t.targets@.len() - t.at) + if t.cloning {
            0int
        } else {
            1int
        },
        NodeSession::Update(t) => 2 * (t.targets@.len() - t.at) + if t.pulling {
            0int
        } else {
            1int
        },
        NodeSession::Pin(t) => 2 * (t.file.nodes@.len() - t.at) + if t.saving {
            1int
        } else {
            0int
        },
        NodeSession::Add(t) => 3 - t.stage,
        NodeSession::Remove(t) => 2 - t.stage,
    }
}

/// Every node command ends: each step that asks for more work leaves less of
/// it, so a command asks for at most as many requests as it had work left.
pub proof fn lemma_node_commands_end(before: NodeSession, after: NodeSession, r: ReplyView, s: crate::session::StepView)
    requires
        node_resumed(before, after, r, s),
        s.next is Ask,
    ensures
        0 <= node_work_left(after) < node_work_left(before),
{
    match before {
        NodeSession::Pin(a) => {
            let name = crate::node::opt_view(a.name);
            if 0 <= a.at < a.file@.len() {
                let e = a.file@[a.at as int];
                lemma_pin_next_target_bounds(a.file@, name, a.at + 1);
                match r {
                    ReplyView::Output(o) => match server_commit(o) {
                        Some(c) => lemma_pin_next_target_bounds(
                            a.file@.update(a.at as int, with_commit(e, c)),
                            name,
                            a.at + 1,
                        ),
                        None => {},
                    },
                    _ => {},
                }
            }
        },
        _ => {},
    }
}

proof fn lemma_pin_next_target_bounds(nodes: Seq<NodeEntryView>, name: Option<Seq<char>>, from: int)
    requires
        0 <= from,
    ensures
        from <= next_target(nodes, name, from) <= nodes.len() || next_target(nodes, name, from)
            == nodes.len(),
        next_target(nodes, name, from) <= nodes.len(),
    decreases nodes.len() - from,
{
    if from < nodes.len() && !crate::node::is_target(nodes[from], name) {
        lemma_pin_next_target_bounds(nodes, name, from + 1);
    }
}

// ---------------------------------------------------------------- repeated commands

/// A status row right after a pin against the same reply: the entry's commit is
/// the server's, so the row reads `OK` where the server has the node and
/// `MISSING` where it has not, never `DRIFT`.
pub proof fn lemma_pinned_row_never_drifts(e: NodeEntryView, o: Result<Seq<char>, Seq<char>>)
    ensures
        node_row(pinned(e, o), server_commit(o)) == match server_commit(o) {
            Some(c) => status_row(e.name, c, c, "OK"@),
            None => status_row(e.name, e.commit, "-"@, "MISSING"@),
        },
{
}

/// `node status` right after `node pin` of every node, with the server's
/// checkouts unchanged (its commit queries reply `os` again), prints for each
/// node an `OK` row where the server has it and a `MISSING` row otherwise.
pub proof fn lemma_node_status_after_pin_shows_no_drift(
    nodes: Seq<NodeEntryView>,
    os: Seq<Result<Seq<char>, Seq<char>>>,
    i: int,
)
    requires
        os.len() == nodes.len(),
        0 <= i < nodes.len(),
    ensures
        ({
            let after_pin = pin_fold(pin_task_start(nodes, None).0, os).nodes;
            status_task_after(after_pin, i, ReplyView::Output(os[i])).1.lines == seq![
                LineView::Stdout(
                    match server_commit(os[i]) {
                        Some(c) => status_row(nodes[i].name, c, c, "OK"@),
                        None => status_row(nodes[i].name, nodes[i].commit, "-"@, "MISSING"@),
                    },
                ),
            ]
        }),
{
    lemma_pin_records_server_commits(nodes, os);
    lemma_pinned_row_never_drifts(nodes[i], os[i]);
}

/// The line `node install` prints for a target the server already has.
pub open spec fn skip_line(e: NodeEntryView) -> LineView {
    LineView::Stdout("  [skip] "@ + e.name + " (already exists)"@)
}

/// Where `node install` stands after the replies `os`, one after another,
/// with the lines it printed and what it asked for along the way.
pub open spec fn install_fold(
    ts: Seq<NodeEntryView>,
    at: int,
    cloning: bool,
    os: Seq<Result<Seq<char>, Seq<char>>>,
) -> (int, bool, Seq<LineView>, Seq<NextView>)
    decreases os.len(),
{
    if os.len() == 0 {
        (at, cloning, Seq::empty(), Seq::empty())
    } else {
        let (a, c, s) = install_task_after(ts, at, cloning, ReplyView::Output(os[0]));
        let (a2, c2, l2, n2) = install_fold(ts, a, c, os.drop_first());
        (a2, c2, s.lines + l2, seq![s.next] + n2)
    }
}

/// What `node install` asks after dealing with target `i`.
pub open spec fn install_check_after(ts: Seq<NodeEntryView>, i: int) -> NextView {
    if i + 1 < ts.len() {
        NextView::Ask(RequestView::Container(exists_query(ts[i + 1].name)))
    } else {
        NextView::Finish
    }
}

proof fn lemma_install_all_found_from(
    ts: Seq<NodeEntryView>,
    os: Seq<Result<Seq<char>, Seq<char>>>,
    k: int,
)
    requires
        os.len() == ts.len(),
        0 <= k <= ts.len(),
        forall|i: int| 0 <= i < os.len() ==> found_on_server(#[trigger] os[i]),
    ensures
        install_fold(ts, k, false, os.subrange(k, os.len() as int)) == (
            ts.len() as int,
            false,
            if k < ts.len() {
                Seq::new((ts.len() - k) as nat, |i: int| skip_line(ts[k + i])).push(
                    LineView::Stdout(install_notice()),
                )
            } else {
                Seq::<LineView>::empty()
            },
            Seq::new((ts.len() - k) as nat, |i: int| install_check_after(ts, k + i)),
        ),
    decreases ts.len() - k,
{
    let rest = os.subrange(k, os.len() as int);
    if k < ts.len() {
        assert(rest[0] == os[k]);
        assert(rest.drop_first() =~= os.subrange(k + 1, os.len() as int));
        lemma_install_all_found_from(ts, os, k + 1);
        let (a, c, s) = install_task_after(ts, k, false, ReplyView::Output(os[k]));
        let (a2, c2, l2, n2) = install_fold(ts, a, c, rest.drop_first());
        assert(s.lines + l2 =~= Seq::new((ts.len() - k) as nat, |i: int| skip_line(ts[k + i])).push(
            LineView::Stdout(install_notice()),
        ));
        assert(seq![s.next] + n2 =~= Seq::new(
            (ts.len() - k) as nat,
            |i: int| install_check_after(ts, k + i),
        ));
    } else {
        assert(rest.len() == 0);
        assert(Seq::new((ts.len() - k) as nat, |i: int| install_check_after(ts, k + i))
            =~= Seq::<NextView>::empty());
    }
}

/// A second `node install` after one whose clones all succeeded, with the
/// server unchanged since (every existence check finds its node), clones
/// nothing: it only checks each target, prints a `[skip]` line for each one,
/// then the closing notice.
pub proof fn lemma_second_install_clones_nothing(
    ts: Seq<NodeEntryView>,
    name: Option<Seq<char>>,
    os: Seq<Result<Seq<char>, Seq<char>>>,
)
    requires
        ts.len() > 0,
        os.len() == ts.len(),
        forall|i: int| 0 <= i < os.len() ==> found_on_server(#[trigger] os[i]),
    ensures
        install_task_start(ts, name).next == NextView::Ask(
            RequestView::Container(exists_query(ts[0].name)),
        ),
        install_task_start(ts, name).lines.len() == 0,
        install_fold(ts, 0, false, os) == (
            ts.len() as int,
            false,
            Seq::new(ts.len(), |i: int| skip_line(ts[i])).push(LineView::Stdout(install_notice())),
            Seq::new(ts.len(), |i: int| install_check_after(ts, i)),
        ),
{
    assert(os.subrange(0, os.len() as int) =~= os);
    lemma_install_all_found_from(ts, os, 0);
    assert(Seq::new((ts.len() - 0) as nat, |i: int| skip_line(ts[0 + i])) =~= Seq::new(
        ts.len(),
        |i: int| skip_line(ts[i]),
    ));
    assert(Seq::new((ts.len() - 0) as nat, |i: int| install_check_after(ts, 0 + i)) =~= Seq::new(
        ts.len(),
        |i: int| install_check_after(ts, i),
    ));
}

/// A pin against reply `o` leaves an entry as it is.
pub open spec fn settled(e: NodeEntryView, o: Result<Seq<char>, Seq<char>>) -> bool {
    pinned(e, o) == e
}

/// Every node that the command names already records what the server reports
/// for it (`replies[i]` is the reply to node `i`'s commit query).
pub open spec fn already_pinned(
    nodes: Seq<NodeEntryView>,
    name: Option<Seq<char>>,
    replies: Seq<Result<Seq<char>, Seq<char>>>,
) -> bool {
    &&& replies.len() == nodes.len()
    &&& forall|i: int|
        0 <= i < nodes.len() && is_target(nodes[i], name) ==> settled(nodes[i], #[trigger] replies[i])
}

/// A pin of an already pinned inventory: nothing changed, nothing written,
/// and it asks about a named node or has passed the last one.
pub open spec fn quiet_pin(st: PinState, nodes: Seq<NodeEntryView>, name: Option<Seq<char>>) -> bool {
    &&& st.nodes == nodes
    &&& !st.changed
    &&& !st.saving
    &&& (st.at == nodes.len() || (0 <= st.at < nodes.len() && is_target(nodes[st.at], name)))
}

/// Pinning an entry twice against the same reply pins it once: after a pin,
/// the inventory is already pinned for those replies.
pub proof fn lemma_pinned_settles(e: NodeEntryView, o: Result<Seq<char>, Seq<char>>)
    ensures
        settled(pinned(e, o), o),
{
}

proof fn lemma_next_target_named(nodes: Seq<NodeEntryView>, name: Option<Seq<char>>, from: int)
    requires
        0 <= from,
    ensures
        next_target(nodes, name, from) == nodes.len() || (from <= next_target(nodes, name, from)
            < nodes.len() && is_target(nodes[next_target(nodes, name, from)], name)),
    decreases nodes.len() - from,
{
    if from < nodes.len() && !is_target(nodes[from], name) {
        lemma_next_target_named(nodes, name, from + 1);
    }
}

/// A repeated `node pin` starts quietly.
pub proof fn lemma_repin_starts_quiet(nodes: Seq<NodeEntryView>, name: Option<Seq<char>>)
    ensures
        quiet_pin(pin_task_start(nodes, name).0, nodes, name),
        !(pin_task_start(nodes, name).1.next matches NextView::Ask(RequestView::SaveNodes(_))),
        pin_task_start(nodes, name).1.lines.len() == 0,
{
    lemma_next_target_named(nodes, name, 0);
}

/// `node pin` again, with the server's commits unchanged since the last pin
/// (every named node already records what the server reports), changes
/// nothing, never asks to write `nodes.yaml`, and prints only `[ok]` and
/// `[skip]` lines, no `[pin]` line, whichever nodes it names.
pub proof fn lemma_repin_is_quiet(
    st: PinState,
    nodes: Seq<NodeEntryView>,
    name: Option<Seq<char>>,
    replies: Seq<Result<Seq<char>, Seq<char>>>,
)
    requires
        already_pinned(nodes, name, replies),
        quiet_pin(st, nodes, name),
        st.at < nodes.len(),
    ensures
        ({
            let (after, s) = pin_task_after(st, name, ReplyView::Output(replies[st.at]));
            let e = nodes[st.at];
            &&& quiet_pin(after, nodes, name)
            &&& !(s.next matches NextView::Ask(RequestView::SaveNodes(_)))
            &&& s.lines == seq![
                match server_commit(replies[st.at]) {
                    Some(_) => LineView::Stdout("  [ok]  "@ + e.name + " "@ + e.commit),
                    None => LineView::Stdout("  [skip] "@ + e.name + " (not on server)"@),
                },
            ]
        }),
{
    let e = nodes[st.at];
    assert(settled(e, replies[st.at]));
    match server_commit(replies[st.at]) {
        Some(c) => {
            assert(with_commit(e, c) == e);
            assert(c == e.commit);
        },
        None => {},
    }
    lemma_next_target_named(nodes, name, st.at + 1);
}

/// After `node pin` of every node against replies `os`, the inventory is
/// already pinned for `os`: a second pin against the same server changes
/// nothing (`lemma_repin_starts_quiet`, `lemma_repin_is_quiet`).
pub proof fn lemma_pin_leaves_inventory_pinned(
    nodes: Seq<NodeEntryView>,
    os: Seq<Result<Seq<char>, Seq<char>>>,
)
    requires
        os.len() == nodes.len(),
    ensures
        already_pinned(pin_fold(pin_task_start(nodes, None).0, os).nodes, None, os),
{
    lemma_pin_records_server_commits(nodes, os);
    let after = pin_fold(pin_task_start(nodes, None).0, os).nodes;
    assert forall|i: int| 0 <= i < after.len() && is_target(after[i], None) implies settled(
        after[i],
        #[trigger] os[i],
    ) by {
        lemma_pinned_settles(nodes[i], os[i]);
    }
}

/// Where a pin stands after at most `k` more commit queries, the query about
/// node `i` replied by `replies[i]`; it stops once every named node was asked
/// about.
pub open spec fn pin_run(
    st: PinState,
    name: Option<Seq<char>>,
    replies: Seq<Result<Seq<char>, Seq<char>>>,
    k: nat,
) -> PinState
    decreases k,
{
    if k == 0 || st.saving || !(0 <= st.at < st.nodes.len()) {
        st
    } else {
        pin_run(pin_task_after(st, name, ReplyView::Output(replies[st.at])).0, name, replies, (k - 1) as nat)
    }
}

/// The inventory with each named node before `k` pinned against its reply.
pub open spec fn targets_pinned_upto(
    nodes: Seq<NodeEntryView>,
    name: Option<Seq<char>>,
    replies: Seq<Result<Seq<char>, Seq<char>>>,
    k: int,
) -> Seq<NodeEntryView> {
    Seq::new(
        nodes.len(),
        |i: int|
            if i < k && is_target(nodes[i], name) {
                pinned(nodes[i], replies[i])
            } else {
                nodes[i]
            },
    )
}

/// What a pin keeps true from one step to the next, `steps` steps in.
pub open spec fn pin_progress(
    st: PinState,
    nodes: Seq<NodeEntryView>,
    name: Option<Seq<char>>,
    replies: Seq<Result<Seq<char>, Seq<char>>>,
    steps: nat,
) -> bool {
    &&& 0 <= st.at <= nodes.len()
    &&& st.nodes == targets_pinned_upto(nodes, name, replies, st.at)
    &&& (st.at == nodes.len() || (steps <= st.at && is_target(nodes[st.at], name)))
    &&& (st.saving ==> st.at == nodes.len())
}

proof fn lemma_next_target_skips(nodes: Seq<NodeEntryView>, name: Option<Seq<char>>, from: int)
    requires
        0 <= from,
    ensures
        forall|i: int| from <= i < next_target(nodes, name, from) ==> !is_target(nodes[i], name),
    decreases nodes.len() - from,
{
    if from < nodes.len() && !is_target(nodes[from], name) {
        lemma_next_target_skips(nodes, name, from + 1);
    }
}

proof fn lemma_targets_pinned_skip(
    nodes: Seq<NodeEntryView>,
    name: Option<Seq<char>>,
    replies: Seq<Result<Seq<char>, Seq<char>>>,
    from: int,
)
    requires
        0 <= from,
    ensures
        targets_pinned_upto(nodes, name, replies, next_target(nodes, name, from))
            == targets_pinned_upto(nodes, name, replies, from),
{
    lemma_next_target_skips(nodes, name, from);
    lemma_next_target_named(nodes, name, from);
    assert(targets_pinned_upto(nodes, name, replies, next_target(nodes, name, from))
        =~= targets_pinned_upto(nodes, name, replies, from));
}

proof fn lemma_pin_progress_step(
    st: PinState,
    nodes: Seq<NodeEntryView>,
    name: Option<Seq<char>>,
    replies: Seq<Result<Seq<char>, Seq<char>>>,
    steps: nat,
)
    requires
        replies.len() == nodes.len(),
        pin_progress(st, nodes, name, replies, steps),
        !st.saving,
        0 <= st.at < st.nodes.len(),
    ensures
        pin_progress(
            pin_task_after(st, name, ReplyView::Output(replies[st.at])).0,
            nodes,
            name,
            replies,
            steps + 1,
        ),
{
    let k = st.at;
    let e = nodes[k];
    let now = targets_pinned_upto(nodes, name, replies, k);
    let next = targets_pinned_upto(nodes, name, replies, k + 1);
    assert(now[k] == e);
    lemma_next_target_named(nodes, name, k + 1);
    lemma_targets_pinned_skip(nodes, name, replies, k + 1);
    match server_commit(replies[k]) {
        Some(c) => {
            if c != e.commit {
                assert(now.update(k, with_commit(e, c)) =~= next);
            } else {
                assert(with_commit(e, c) == e);
                assert(now =~= next);
            }
        },
        None => {
            assert(now =~= next);
        },
    }
    let after = pin_task_after(st, name, ReplyView::Output(replies[k])).0;
    assert(after.nodes == next);
    assert(next.len() == nodes.len());
    assert forall|i: int| 0 <= i < nodes.len() implies #[trigger] next[i].name == nodes[i].name by {
        if i < k + 1 && is_target(nodes[i], name) {
            match server_commit(replies[i]) {
                Some(c) => assert(pinned(nodes[i], replies[i]) == with_commit(nodes[i], c)),
                None => {},
            }
        }
    }
    lemma_next_target_same_names(next, nodes, name, k + 1);
}

proof fn lemma_next_target_same_names(
    a: Seq<NodeEntryView>,
    b: Seq<NodeEntryView>,
    name: Option<Seq<char>>,
    from: int,
)
    requires
        a.len() == b.len(),
        forall|i: int| 0 <= i < b.len() ==> #[trigger] a[i].name == b[i].name,
    ensures
        next_target(a, name, from) == next_target(b, name, from),
    decreases b.len() - from,
{
    if 0 <= from < b.len() {
        assert(a[from].name == b[from].name);
        lemma_next_target_same_names(a, b, name, from + 1);
    }
}

proof fn lemma_pin_run_progress(
    st: PinState,
    nodes: Seq<NodeEntryView>,
    name: Option<Seq<char>>,
    replies: Seq<Result<Seq<char>, Seq<char>>>,
    steps: nat,
    k: nat,
)
    requires
        replies.len() == nodes.len(),
        pin_progress(st, nodes, name, replies, steps),
    ensures
        pin_progress(pin_run(st, name, replies, k), nodes, name, replies, steps + k)
            || pin_run(st, name, replies, k).at == nodes.len(),
        pin_progress(pin_run(st, name, replies, k), nodes, name, replies, 0),
    decreases k,
{
    if k == 0 || st.saving || !(0 <= st.at < st.nodes.len()) {
        if !st.saving && !(0 <= st.at < st.nodes.len()) {
            assert(st.nodes.len() == nodes.len());
        }
    } else {
        lemma_pin_progress_step(st, nodes, name, replies, steps);
        let after = pin_task_after(st, name, ReplyView::Output(replies[st.at])).0;
        lemma_pin_run_progress(after, nodes, name, replies, steps + 1, (k - 1) as nat);
    }
}

/// `node pin [name]` records, for each node it names, the commit the server
/// reports where the server has the node, and leaves every other entry as it
/// is; once it has asked about every named node the inventory is already
/// pinned for the same replies, so a second `node pin` with the same name
/// against an unchanged server stays quiet (`lemma_second_pin_is_quiet`).
pub proof fn lemma_pin_records_named_commits(
    nodes: Seq<NodeEntryView>,
    name: Option<Seq<char>>,
    replies: Seq<Result<Seq<char>, Seq<char>>>,
)
    requires
        replies.len() == nodes.len(),
    ensures
        ({
            let last = pin_run(pin_task_start(nodes, name).0, name, replies, nodes.len());
            &&& last.at == nodes.len()
            &&& last.nodes == Seq::new(
                nodes.len(),
                |i: int|
                    if is_target(nodes[i], name) {
                        pinned(nodes[i], replies[i])
                    } else {
                        nodes[i]
                    },
            )
            &&& already_pinned(last.nodes, name, replies)
        }),
{
    let start = pin_task_start(nodes, name).0;
    lemma_next_target_named(nodes, name, 0);
    lemma_targets_pinned_skip(nodes, name, replies, 0);
    assert(targets_pinned_upto(nodes, name, replies, 0) =~= nodes);
    assert(pin_progress(start, nodes, name, replies, 0));
    lemma_pin_run_progress(start, nodes, name, replies, 0, nodes.len());
    let last = pin_run(start, name, replies, nodes.len());
    assert(last.at == nodes.len());
    assert(last.nodes =~= Seq::new(
        nodes.len(),
        |i: int|
            if is_target(nodes[i], name) {
                pinned(nodes[i], replies[i])
            } else {
                nodes[i]
            },
    ));
    assert forall|i: int|
        0 <= i < last.nodes.len() && is_target(last.nodes[i], name) implies settled(
        last.nodes[i],
        #[trigger] replies[i],
    ) by {
        if is_target(nodes[i], name) {
            lemma_pinned_settles(nodes[i], replies[i]);
        } else {
            assert(last.nodes[i] == nodes[i]);
        }
    }
}

/// `node pin [name]` run twice against a server whose commits did not change
/// in between: at every step of the second run the inventory is still the one
/// the first run left, nothing is marked changed, `nodes.yaml` is never asked
/// to be written, and each line it prints is an `[ok]` or `[skip]` line, never
/// a `[pin]` line.
pub proof fn lemma_second_pin_is_quiet(
    nodes: Seq<NodeEntryView>,
    name: Option<Seq<char>>,
    replies: Seq<Result<Seq<char>, Seq<char>>>,
    k: nat,
)
    requires
        replies.len() == nodes.len(),
    ensures
        ({
            let first = pin_run(pin_task_start(nodes, name).0, name, replies, nodes.len()).nodes;
            let second = pin_run(pin_task_start(first, name).0, name, replies, k);
            &&& quiet_pin(second, first, name)
            &&& !(pin_task_start(first, name).1.next matches NextView::Ask(RequestView::SaveNodes(_)))
            &&& (second.at < first.len() ==> {
                let (after, s) = pin_task_after(second, name, ReplyView::Output(replies[second.at]));
                let e = first[second.at];
                &&& !(s.next matches NextView::Ask(RequestView::SaveNodes(_)))
                &&& s.lines == seq![
                    match server_commit(replies[second.at]) {
                        Some(_) => LineView::Stdout("  [ok]  "@ + e.name + " "@ + e.commit),
                        None => LineView::Stdout("  [skip] "@ + e.name + " (not on server)"@),
                    },
                ]
            })
        }),
{
    lemma_pin_records_named_commits(nodes, name, replies);
    let first = pin_run(pin_task_start(nodes, name).0, name, replies, nodes.len()).nodes;
    lemma_repin_starts_quiet(first, name);
    lemma_repin_run_quiet(pin_task_start(first, name).0, first, name, replies, k);
    let second = pin_run(pin_task_start(first, name).0, name, replies, k);
    if second.at < first.len() {
        lemma_repin_is_quiet(second, first, name, replies);
    }
}

proof fn lemma_repin_run_quiet(
    st: PinState,
    nodes: Seq<NodeEntryView>,
    name: Option<Seq<char>>,
    replies: Seq<Result<Seq<char>, Seq<char>>>,
    k: nat,
)
    requires
        already_pinned(nodes, name, replies),
        quiet_pin(st, nodes, name),
    ensures
        quiet_pin(pin_run(st, name, replies, k), nodes, name),
    decreases k,
{
    if !(k == 0 || st.saving || !(0 <= st.at < st.nodes.len())) {
        lemma_repin_is_quiet(st, nodes, name, replies);
        let after = pin_task_after(st, name, ReplyView::Output(replies[st.at])).0;
        lemma_repin_run_quiet(after, nodes, name, replies, (k - 1) as nat);
    }
}

// ---------------------------------------------------------------- every target in turn

/// The existence check of node `name` on the server.
pub open spec fn asks_exists(name: Seq<char>) -> NextView {
    NextView::Ask(RequestView::Container("test -d /opt/comfyui/custom_nodes/"@ + name + " && echo yes"@))
}

/// `node install` begins with the existence check of its first target.
pub proof fn lemma_install_checks_first_target(ts: Seq<NodeEntryView>, name: Option<Seq<char>>)
    requires
        ts.len() > 0,
    ensures
        install_task_start(ts, name).next == asks_exists(ts[0].name),
        install_task_start(ts, name).lines.len() == 0,
{
}

/// `node install` goes on to the next target whatever the existence check of
/// target `at` replied: where the server has the node it reports the skip and
/// checks target `at + 1` (or closes with the restart notice after the last
/// target); otherwise it asks to clone that same node from its repository.
pub proof fn lemma_install_check_moves_on(
    ts: Seq<NodeEntryView>,
    at: int,
    o: Result<Seq<char>, Seq<char>>,
)
    requires
        0 <= at < ts.len(),
    ensures
        ({
            let (j, cloning, s) = install_task_after(ts, at, false, ReplyView::Output(o));
            let skip = LineView::Stdout("  [skip] "@ + ts[at].name + " (already exists)"@);
            if o matches Ok(out) && trimmed(out) == "yes"@ {
                &&& j == at + 1
                &&& !cloning
                &&& if at + 1 < ts.len() {
                    s.lines == seq![skip] && s.next == asks_exists(ts[at + 1].name)
                } else {
                    s.lines == seq![skip, LineView::Stdout("\nComfyUI 재시작 필요: comfyui-workflows restart (또는 수동)"@)] && s.next
                        == NextView::Finish
                }
            } else {
                &&& j == at
                &&& cloning
                &&& s.next == NextView::Ask(
                    RequestView::Container(
                        "cd /opt/comfyui/custom_nodes && git clone "@ + ts[at].repo + " "@
                            + ts[at].name,
                    ),
                )
            }
        }),
{
}

/// After the clone of target `at`, whatever it replied, `node install`
/// reports it (`installed`, or `FAILED` with the error) and checks target
/// `at + 1`; after the last target it closes with the restart notice. No
/// target is left out.
pub proof fn lemma_install_goes_on_after_clone(
    ts: Seq<NodeEntryView>,
    at: int,
    o: Result<Seq<char>, Seq<char>>,
)
    requires
        0 <= at < ts.len(),
    ensures
        ({
            let (j, cloning, s) = install_task_after(ts, at, true, ReplyView::Output(o));
            let report = match o {
                Ok(_) => LineView::Stdout("    installed"@),
                Err(e) => LineView::Stderr("    FAILED: "@ + e),
            };
            &&& j == at + 1
            &&& !cloning
            &&& if at + 1 < ts.len() {
                s.lines == seq![report] && s.next == asks_exists(ts[at + 1].name)
            } else {
                s.lines == seq![report, LineView::Stdout("\nComfyUI 재시작 필요: comfyui-workflows restart (또는 수동)"@)] && s.next
                    == NextView::Finish
            }
        }),
{
}

/// `node update` begins with the existence check of its first target, or
/// finishes at once where it has none.
pub proof fn lemma_update_checks_first_target(ts: Seq<NodeEntryView>)
    ensures
        ts.len() > 0 ==> update_task_start(ts).next == asks_exists(ts[0].name),
        ts.len() == 0 ==> update_task_start(ts).next == NextView::Finish,
        update_task_start(ts).lines.len() == 0,
{
}

/// `node update` goes on whatever the existence check of target `at`
/// replied: a node the server lacks is reported missing and target `at + 1`
/// is checked (or the command finishes); an installed one is pulled.
pub proof fn lemma_update_check_moves_on(
    ts: Seq<NodeEntryView>,
    at: int,
    o: Result<Seq<char>, Seq<char>>,
)
    requires
        0 <= at < ts.len(),
    ensures
        ({
            let (j, pulling, s) = update_task_after(ts, at, false, ReplyView::Output(o));
            if o matches Ok(out) && trimmed(out) == "yes"@ {
                &&& j == at
                &&& pulling
                &&& s.next == NextView::Ask(
                    RequestView::Container(
                        "cd /opt/comfyui/custom_nodes/"@ + ts[at].name
                            + " && git pull --ff-only 2>&1"@,
                    ),
                )
            } else {
                &&& j == at + 1
                &&& !pulling
                &&& s.lines == seq![LineView::Stdout("  [missing] "@ + ts[at].name + " — install first"@)]
                &&& if at + 1 < ts.len() {
                    s.next == asks_exists(ts[at + 1].name)
                } else {
                    s.next == NextView::Finish
                }
            }
        }),
{
}

/// After the pull of target `at`, whatever it printed, `node update` reports
/// it (`up to date` where git said so, `updated` otherwise, `FAILED` with the
/// error) and checks target `at + 1`, or finishes after the last target. No
/// installed target is left unpulled.
pub proof fn lemma_update_goes_on_after_pull(
    ts: Seq<NodeEntryView>,
    at: int,
    o: Result<Seq<char>, Seq<char>>,
)
    requires
        0 <= at < ts.len(),
    ensures
        ({
            let (j, pulling, s) = update_task_after(ts, at, true, ReplyView::Output(o));
            let report = match o {
                Ok(out) => if has_substring(trimmed(out), "Already up to date"@) {
                    LineView::Stdout("    up to date"@)
                } else {
                    LineView::Stdout("    updated"@)
                },
                Err(e) => LineView::Stderr("    FAILED: "@ + e),
            };
            &&& j == at + 1
            &&& !pulling
            &&& s.lines == seq![report]
            &&& if at + 1 < ts.len() {
                s.next == asks_exists(ts[at + 1].name)
            } else {
                s.next == NextView::Finish
            }
        }),
{
}

/// `node status` reports every node in turn: the reply to node `at`'s commit
/// query gives its row, which reads `OK` where the server's commit is the
/// recorded one, `DRIFT` where it is another, and `MISSING` (server column
/// `-`) where the server has none; then it asks for the commit of node
/// `at + 1`, or finishes after the last node.
pub proof fn lemma_node_status_reports_every_node(
    nodes: Seq<NodeEntryView>,
    at: int,
    o: Result<Seq<char>, Seq<char>>,
)
    requires
        0 <= at < nodes.len(),
    ensures
        ({
            let (j, s) = status_task_after(nodes, at, ReplyView::Output(o));
            let e = nodes[at];
            &&& j == at + 1
            &&& s.lines == seq![
                LineView::Stdout(
                    match server_commit(o) {
                        Some(c) => status_row(
                            e.name,
                            e.commit,
                            c,
                            if c == e.commit {
                                "OK"@
                            } else {
                                "DRIFT"@
                            },
                        ),
                        None => status_row(e.name, e.commit, "-"@, "MISSING"@),
                    },
                ),
            ]
            &&& if at + 1 < nodes.len() {
                s.next == NextView::Ask(
                    RequestView::Container(
                        "cd /opt/comfyui/custom_nodes/"@ + nodes[at + 1].name
                            + " && git rev-parse --short HEAD 2>/dev/null"@,
                    ),
                )
            } else {
                s.next == NextView::Finish
            }
        }),
        (o matches Ok(out) && trimmed(out).len() > 0) ==> server_commit(o) == Some(trimmed(o->Ok_0)),
        !(o matches Ok(out) && trimmed(out).len() > 0) ==> server_commit(o) is None,
{
}

/// `node add` lists the node only once it is cloned, and lists exactly one
/// more entry: after a successful clone it asks the commit of the node it
/// cloned; the inventory it then asks to write is the old one with one entry
/// appended, holding the node's name, its repository, the commit the server
/// reports (`unknown` where it reports none) and the description. A failed
/// clone writes nothing.
pub proof fn lemma_add_appends_one_entry(
    nodes: Seq<NodeEntryView>,
    name: Seq<char>,
    repo: Seq<char>,
    description: Seq<char>,
    o: Result<Seq<char>, Seq<char>>,
)
    ensures
        ({
            let (n0, st0, s0) = add_task_after(nodes, name, repo, description, 0, ReplyView::Output(o));
            &&& n0 == nodes
            &&& match o {
                Ok(_) => st0 == 1 && s0.next == NextView::Ask(
                    RequestView::Container(
                        "cd /opt/comfyui/custom_nodes/"@ + name
                            + " && git rev-parse --short HEAD 2>/dev/null"@,
                    ),
                ),
                Err(e) => st0 == 3 && s0.next == NextView::Finish && s0.lines == seq![
                    LineView::Stderr("    FAILED: "@ + e),
                ],
            }
        }),
        ({
            let (n1, st1, s1) = add_task_after(nodes, name, repo, description, 1, ReplyView::Output(o));
            &&& st1 == 2
            &&& n1.len() == nodes.len() + 1
            &&& n1.subrange(0, nodes.len() as int) == nodes
            &&& n1.last().name == name
            &&& n1.last().repo == repo
            &&& n1.last().description == description
            &&& n1.last().commit == if o matches Ok(out) && trimmed(out).len() > 0 {
                trimmed(o->Ok_0)
            } else {
                "unknown"@
            }
            &&& s1.next == NextView::Ask(RequestView::SaveNodes(n1))
        }),
{
    let (n1, _, _) = add_task_after(nodes, name, repo, description, 1, ReplyView::Output(o));
    assert(n1.subrange(0, nodes.len() as int) =~= nodes);
}

/// `node remove` writes the inventory without the node whatever the deletion
/// on the server replied (a failed deletion is only a warning).
pub proof fn lemma_remove_writes_whatever_the_deletion(
    kept: Seq<NodeEntryView>,
    name: Seq<char>,
    o: Result<Seq<char>, Seq<char>>,
)
    ensures
        ({
            let (st, s) = remove_task_after(kept, name, 0, ReplyView::Output(o));
            &&& st == 1
            &&& s.next == NextView::Ask(RequestView::SaveNodes(kept))
            &&& s.lines == seq![
                match o {
                    Ok(_) => LineView::Stdout("    removed"@),
                    Err(e) => LineView::Stderr("    WARNING: "@ + e),
                },
            ]
        }),
        remove_task_after(kept, name, 1, ReplyView::Saved).1.next == NextView::Finish,
{
}

} // verus!
