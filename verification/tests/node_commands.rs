use comfyui_workflows::node::{
    commit_query_for, get_server_commit, node_exists_on_server, node_name_from_repo, node_state,
    node_status_row, nodes_file_text, run, NodeCmd, NodeEntry, NodeSession, NodeState, NodesFile,
};
use comfyui_workflows::session::{Line, Next, Reply, Request, Step};

fn entry(name: &str, repo: &str, commit: &str) -> NodeEntry {
    NodeEntry {
        name: name.to_string(),
        repo: repo.to_string(),
        commit: commit.to_string(),
        description: String::new(),
    }
}

fn inventory() -> NodesFile {
    NodesFile {
        nodes: vec![
            entry("ComfyUI-Manager", "https://github.com/ltdrdata/ComfyUI-Manager.git", "abc1234"),
            entry("was-node-suite", "https://github.com/WASasquatch/was-node-suite-comfyui", "def5678"),
        ],
    }
}

fn out(s: &str) -> Line {
    Line::Stdout(s.to_string())
}

fn err(s: &str) -> Line {
    Line::Stderr(s.to_string())
}

fn container(s: &str) -> Next {
    Next::Ask(Request::Container(s.to_string()))
}

fn ok(s: &str) -> Reply {
    Reply::Output(Ok(s.to_string()))
}

fn failed(s: &str) -> Reply {
    Reply::Output(Err(s.to_string()))
}

#[test]
fn node_name_is_last_url_segment() {
    assert_eq!(node_name_from_repo("https://github.com/ltdrdata/ComfyUI-Manager.git"), "ComfyUI-Manager");
    assert_eq!(node_name_from_repo("https://github.com/ltdrdata/ComfyUI-Manager.git/"), "ComfyUI-Manager");
    assert_eq!(node_name_from_repo("https://github.com/ltdrdata/ComfyUI-Manager"), "ComfyUI-Manager");
    assert_eq!(node_name_from_repo("https://github.com/a/b///"), "b");
    assert_eq!(node_name_from_repo("x.git.git"), "x");
    assert_eq!(node_name_from_repo("plain"), "plain");
    assert_eq!(node_name_from_repo("https://github.com/a/b/.git"), "");
}

#[test]
fn node_name_laws_on_examples() {
    for repo in ["https://h/a/b", "b", "https://h/a/b.git"] {
        let slash = format!("{}/", repo);
        assert_eq!(node_name_from_repo(&slash), node_name_from_repo(repo));
        let git = format!("{}.git", repo);
        assert_eq!(node_name_from_repo(&git), node_name_from_repo(repo));
        assert!(!node_name_from_repo(repo).contains('/'));
    }
}

#[test]
fn server_commit_is_trimmed_output() {
    assert_eq!(get_server_commit(&Ok("abc1234\n".to_string())), Some("abc1234".to_string()));
    assert_eq!(get_server_commit(&Ok(" \n".to_string())), None);
    assert_eq!(get_server_commit(&Err("명령 실패: x".to_string())), None);
}

#[test]
fn existence_needs_yes() {
    assert!(node_exists_on_server(&Ok("yes\n".to_string())));
    assert!(!node_exists_on_server(&Ok("".to_string())));
    assert!(!node_exists_on_server(&Ok("yes yes".to_string())));
    assert!(!node_exists_on_server(&Err("명령 실패: ".to_string())));
}

#[test]
fn node_state_classifies() {
    assert_eq!(node_state("abc", &Some("abc".to_string())), NodeState::InSync);
    assert_eq!(node_state("abc", &Some("abd".to_string())), NodeState::Drift);
    assert_eq!(node_state("abc", &None), NodeState::Missing);
}

#[test]
fn status_row_is_padded() {
    let e = entry("n", "r", "abc");
    let row = node_status_row(&e, &Some("abd".to_string()));
    assert_eq!(row, format!("{:<40} {:<10} {:<10} {}", "n", "abc", "abd", "DRIFT"));
    let row = node_status_row(&e, &None);
    assert_eq!(row, format!("{:<40} {:<10} {:<10} {}", "n", "abc", "-", "MISSING"));
}

#[test]
fn commit_query_names_the_node() {
    assert_eq!(
        commit_query_for("X"),
        "cd /opt/comfyui/custom_nodes/X && git rev-parse --short HEAD 2>/dev/null"
    );
}

#[test]
fn inventory_text_has_header() {
    assert_eq!(
        nodes_file_text("nodes: []\n"),
        "# ComfyUI Custom Nodes — ai-img (60105)\n# Managed by comfyui-workflows CLI\n\nnodes: []\n"
    );
}

#[test]
fn status_reports_each_node() {
    let (mut s, first) = run(NodeCmd::Status, inventory());
    assert_eq!(first.lines[0], out(&format!("{:<40} {:<10} {:<10} {}", "NAME", "EXPECTED", "SERVER", "STATUS")));
    assert_eq!(first.lines[1], out(&"-".repeat(75)));
    assert_eq!(first.next, container(&commit_query_for("ComfyUI-Manager")));
    let second = s.resume(ok("abc1234\n"));
    assert_eq!(second.lines, vec![out(&format!("{:<40} {:<10} {:<10} {}", "ComfyUI-Manager", "abc1234", "abc1234", "OK"))]);
    assert_eq!(second.next, container(&commit_query_for("was-node-suite")));
    let third = s.resume(failed("x"));
    assert_eq!(third.lines, vec![out(&format!("{:<40} {:<10} {:<10} {}", "was-node-suite", "def5678", "-", "MISSING"))]);
    assert_eq!(third.next, Next::Finish);
    let fourth = s.resume(ok(""));
    assert!(matches!(fourth.next, Next::Abort(_)));
}

#[test]
fn install_skips_present_and_clones_missing() {
    let (mut s, first) = run(NodeCmd::Install { name: None }, inventory());
    assert!(first.lines.is_empty());
    assert_eq!(first.next, container("test -d /opt/comfyui/custom_nodes/ComfyUI-Manager && echo yes"));
    let st = s.resume(ok("yes\n"));
    assert_eq!(st.lines, vec![out("  [skip] ComfyUI-Manager (already exists)")]);
    assert_eq!(st.next, container("test -d /opt/comfyui/custom_nodes/was-node-suite && echo yes"));
    let st = s.resume(ok(""));
    assert_eq!(st.lines, vec![out("  [install] was-node-suite from https://github.com/WASasquatch/was-node-suite-comfyui")]);
    assert_eq!(st.next, container("cd /opt/comfyui/custom_nodes && git clone https://github.com/WASasquatch/was-node-suite-comfyui was-node-suite"));
    let st = s.resume(failed("명령 실패: fatal"));
    assert_eq!(st.lines, vec![err("    FAILED: 명령 실패: fatal"), out("\nComfyUI 재시작 필요: comfyui-workflows restart (또는 수동)")]);
    assert_eq!(st.next, Next::Finish);
}

#[test]
fn install_of_unknown_name_reports_it() {
    let (_, first) = run(NodeCmd::Install { name: Some("nope".to_string()) }, inventory());
    assert_eq!(first.lines, vec![err("노드를 찾을 수 없습니다: Some(\"nope\")")]);
    assert_eq!(first.next, Next::Finish);
    let (_, first) = run(NodeCmd::Install { name: None }, NodesFile { nodes: vec![] });
    assert_eq!(first.lines, vec![err("노드를 찾을 수 없습니다: None")]);
}

#[test]
fn install_of_named_node_only() {
    let (mut s, first) = run(NodeCmd::Install { name: Some("was-node-suite".to_string()) }, inventory());
    assert_eq!(first.next, container("test -d /opt/comfyui/custom_nodes/was-node-suite && echo yes"));
    let st = s.resume(ok("yes"));
    assert_eq!(st.lines, vec![out("  [skip] was-node-suite (already exists)"), out("\nComfyUI 재시작 필요: comfyui-workflows restart (또는 수동)")]);
    assert_eq!(st.next, Next::Finish);
}

#[test]
fn update_pulls_installed_nodes() {
    let (mut s, first) = run(NodeCmd::Update { name: None }, inventory());
    assert_eq!(first.next, container("test -d /opt/comfyui/custom_nodes/ComfyUI-Manager && echo yes"));
    let st = s.resume(ok("yes"));
    assert_eq!(st.lines, vec![out("  [update] ComfyUI-Manager")]);
    assert_eq!(st.next, container("cd /opt/comfyui/custom_nodes/ComfyUI-Manager && git pull --ff-only 2>&1"));
    let st = s.resume(ok("Already up to date.\n"));
    assert_eq!(st.lines, vec![out("    up to date")]);
    let st = s.resume(ok("no"));
    assert_eq!(st.lines, vec![out("  [missing] was-node-suite — install first")]);
    assert_eq!(st.next, Next::Finish);
}

#[test]
fn update_reports_new_commits_and_failures() {
    let (mut s, _) = run(NodeCmd::Update { name: Some("ComfyUI-Manager".to_string()) }, inventory());
    let _ = s.resume(ok("yes"));
    let st = s.resume(ok("Updating a..b\nFast-forward"));
    assert_eq!(st.lines, vec![out("    updated")]);
    assert_eq!(st.next, Next::Finish);
    let (mut s, _) = run(NodeCmd::Update { name: None }, inventory());
    let _ = s.resume(ok("yes"));
    let st = s.resume(failed("e"));
    assert_eq!(st.lines, vec![err("    FAILED: e")]);
    let (_, first) = run(NodeCmd::Update { name: Some("zzz".to_string()) }, inventory());
    assert!(first.lines.is_empty());
    assert_eq!(first.next, Next::Finish);
}

#[test]
fn pin_records_server_commits() {
    let (mut s, first) = run(NodeCmd::Pin { name: None }, inventory());
    assert_eq!(first.next, container(&commit_query_for("ComfyUI-Manager")));
    let st = s.resume(ok("fff0000\n"));
    assert_eq!(st.lines, vec![out("  [pin] ComfyUI-Manager abc1234 -> fff0000")]);
    let st = s.resume(ok(""));
    assert_eq!(st.lines, vec![out("  [skip] was-node-suite (not on server)")]);
    let mut expected = inventory();
    expected.nodes[0].commit = "fff0000".to_string();
    assert_eq!(st.next, Next::Ask(Request::SaveNodes(expected)));
    let st = s.resume(Reply::Saved);
    assert_eq!(st.lines, vec![out("\nnodes.yaml updated")]);
    assert_eq!(st.next, Next::Finish);
}

#[test]
fn pin_without_changes_does_not_save() {
    let (mut s, first) = run(NodeCmd::Pin { name: Some("was-node-suite".to_string()) }, inventory());
    assert_eq!(first.next, container(&commit_query_for("was-node-suite")));
    let st = s.resume(ok("def5678"));
    assert_eq!(st.lines, vec![out("  [ok]  was-node-suite def5678")]);
    assert_eq!(st.next, Next::Finish);
    if let NodeSession::Pin(t) = s {
        assert_eq!(t.file, inventory());
        assert!(!t.changed);
    } else {
        panic!("not a pin");
    }
}

#[test]
fn add_installs_and_lists() {
    let repo = "https://github.com/cubiq/ComfyUI_IPAdapter_plus.git";
    let (mut s, first) = run(NodeCmd::Add { repo: repo.to_string(), desc: Some("IP".to_string()) }, inventory());
    assert_eq!(first.lines, vec![out(&format!("  [install] ComfyUI_IPAdapter_plus from {}", repo))]);
    assert_eq!(first.next, container(&format!("cd /opt/comfyui/custom_nodes && git clone {} ComfyUI_IPAdapter_plus", repo)));
    let st = s.resume(ok(""));
    assert_eq!(st.lines, vec![out("    installed")]);
    assert_eq!(st.next, container(&commit_query_for("ComfyUI_IPAdapter_plus")));
    let st = s.resume(failed("no"));
    let mut expected = inventory();
    expected.nodes.push(NodeEntry {
        name: "ComfyUI_IPAdapter_plus".to_string(),
        repo: repo.to_string(),
        commit: "unknown".to_string(),
        description: "IP".to_string(),
    });
    assert!(st.lines.is_empty());
    assert_eq!(st.next, Next::Ask(Request::SaveNodes(expected)));
    let st = s.resume(Reply::Saved);
    assert_eq!(st.lines, vec![out("\nComfyUI_IPAdapter_plus added to nodes.yaml"), out("ComfyUI 재시작 필요")]);
    assert_eq!(st.next, Next::Finish);
}

#[test]
fn add_refuses_listed_node() {
    let (_, first) = run(
        NodeCmd::Add { repo: "https://github.com/ltdrdata/ComfyUI-Manager".to_string(), desc: None },
        inventory(),
    );
    assert_eq!(first.lines, vec![err("ComfyUI-Manager 는 이미 nodes.yaml에 있습니다")]);
    assert_eq!(first.next, Next::Finish);
}

#[test]
fn add_stops_when_clone_fails() {
    let (mut s, _) = run(NodeCmd::Add { repo: "https://h/x/new".to_string(), desc: None }, inventory());
    let st = s.resume(failed("명령 실패: boom"));
    assert_eq!(st.lines, vec![err("    FAILED: 명령 실패: boom")]);
    assert_eq!(st.next, Next::Finish);
}

#[test]
fn add_uses_reported_commit_and_empty_description() {
    let (mut s, _) = run(NodeCmd::Add { repo: "https://h/x/new".to_string(), desc: None }, inventory());
    let _ = s.resume(ok(""));
    let st = s.resume(ok("1234abc\n"));
    let mut expected = inventory();
    expected.nodes.push(NodeEntry {
        name: "new".to_string(),
        repo: "https://h/x/new".to_string(),
        commit: "1234abc".to_string(),
        description: String::new(),
    });
    assert_eq!(st.next, Next::Ask(Request::SaveNodes(expected)));
}

#[test]
fn remove_deletes_and_unlists() {
    let (mut s, first) = run(NodeCmd::Remove { name: "ComfyUI-Manager".to_string() }, inventory());
    assert_eq!(first.lines, vec![out("  [remove] ComfyUI-Manager from server")]);
    assert_eq!(first.next, container("rm -rf /opt/comfyui/custom_nodes/ComfyUI-Manager"));
    let st = s.resume(failed("denied"));
    assert_eq!(st.lines, vec![err("    WARNING: denied")]);
    let mut expected = inventory();
    expected.nodes.remove(0);
    assert_eq!(st.next, Next::Ask(Request::SaveNodes(expected)));
    let st = s.resume(Reply::Saved);
    assert_eq!(st.lines, vec![out("\nComfyUI-Manager removed from nodes.yaml"), out("ComfyUI 재시작 필요")]);
}

#[test]
fn remove_of_unlisted_name_is_refused() {
    let (_, first) = run(NodeCmd::Remove { name: "nope".to_string() }, inventory());
    assert_eq!(first.lines, vec![err("nope 는 nodes.yaml에 없습니다")]);
    assert_eq!(first.next, Next::Finish);
}

#[test]
fn remove_drops_every_entry_of_the_name() {
    let mut file = inventory();
    file.nodes.push(entry("ComfyUI-Manager", "r", "c"));
    let (mut s, _) = run(NodeCmd::Remove { name: "ComfyUI-Manager".to_string() }, file);
    let st: Step = s.resume(ok(""));
    assert_eq!(st.lines, vec![out("    removed")]);
    assert_eq!(
        st.next,
        Next::Ask(Request::SaveNodes(NodesFile {
            nodes: vec![entry("was-node-suite", "https://github.com/WASasquatch/was-node-suite-comfyui", "def5678")]
        }))
    );
}

#[test]
fn unexpected_reply_aborts() {
    let (mut s, _) = run(NodeCmd::Install { name: None }, inventory());
    let st = s.resume(Reply::Saved);
    assert_eq!(st.next, Next::Abort("unexpected reply".to_string()));
}

#[test]
fn status_after_pin_shows_no_drift() {
    let (mut s, _) = run(NodeCmd::Pin { name: None }, inventory());
    let _ = s.resume(ok("fff0000\n"));
    let st = s.resume(failed("x"));
    let pinned = match st.next {
        Next::Ask(Request::SaveNodes(f)) => f,
        other => panic!("unexpected {:?}", other),
    };
    let (mut s, _) = run(NodeCmd::Status, pinned);
    let a = s.resume(ok("fff0000\n"));
    let b = s.resume(failed("x"));
    assert_eq!(a.lines, vec![out(&format!("{:<40} {:<10} {:<10} {}", "ComfyUI-Manager", "fff0000", "fff0000", "OK"))]);
    assert_eq!(b.lines, vec![out(&format!("{:<40} {:<10} {:<10} {}", "was-node-suite", "def5678", "-", "MISSING"))]);
}

#[test]
fn second_install_clones_nothing() {
    let (mut s, _) = run(NodeCmd::Install { name: None }, inventory());
    let a = s.resume(ok("yes\n"));
    let b = s.resume(ok("yes"));
    assert_eq!(a.lines, vec![out("  [skip] ComfyUI-Manager (already exists)")]);
    assert_eq!(
        b.lines,
        vec![out("  [skip] was-node-suite (already exists)"), out("\nComfyUI 재시작 필요: comfyui-workflows restart (또는 수동)")]
    );
    assert_eq!(b.next, Next::Finish);
}

#[test]
fn repeated_pin_writes_nothing() {
    let (mut s, _) = run(NodeCmd::Pin { name: None }, inventory());
    let _ = s.resume(ok("fff0000"));
    let st = s.resume(ok("aaa1111"));
    let pinned = match st.next {
        Next::Ask(Request::SaveNodes(f)) => f,
        other => panic!("unexpected {:?}", other),
    };
    let (mut s, _) = run(NodeCmd::Pin { name: None }, pinned.clone_file());
    let a = s.resume(ok("fff0000"));
    let b = s.resume(ok("aaa1111"));
    assert_eq!(a.lines, vec![out("  [ok]  ComfyUI-Manager fff0000")]);
    assert_eq!(b.lines, vec![out("  [ok]  was-node-suite aaa1111")]);
    assert_eq!(b.next, Next::Finish);
}

#[test]
fn repeated_named_pin_writes_nothing() {
    let (mut s, first) = run(NodeCmd::Pin { name: Some("was-node-suite".to_string()) }, inventory());
    assert_eq!(first.next, container("cd /opt/comfyui/custom_nodes/was-node-suite && git rev-parse --short HEAD 2>/dev/null"));
    let st = s.resume(ok("bbb2222\n"));
    assert_eq!(st.lines, vec![out("  [pin] was-node-suite def5678 -> bbb2222")]);
    let pinned = match st.next {
        Next::Ask(Request::SaveNodes(f)) => f,
        other => panic!("unexpected {:?}", other),
    };
    assert_eq!(pinned.nodes[0], inventory().nodes[0]);
    assert_eq!(pinned.nodes[1].commit, "bbb2222");
    let (mut s, first) = run(NodeCmd::Pin { name: Some("was-node-suite".to_string()) }, pinned.clone_file());
    assert!(first.lines.is_empty());
    let st = s.resume(ok("bbb2222\n"));
    assert_eq!(st.lines, vec![out("  [ok]  was-node-suite bbb2222")]);
    assert_eq!(st.next, Next::Finish);
}

#[test]
fn entries_clone() {
    let e = entry("a", "b", "c");
    assert_eq!(e.clone(), e);
}

trait CloneFile {
    fn clone_file(&self) -> NodesFile;
}

impl CloneFile for NodesFile {
    fn clone_file(&self) -> NodesFile {
        NodesFile { nodes: self.nodes.clone() }
    }
}
