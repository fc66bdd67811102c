use comfyui_workflows::session::{CopyOutcome, Line, Next, Reply, Request};
use comfyui_workflows::workflow::{run, subfolder, WorkflowCmd};

fn out(s: &str) -> Line {
    Line::Stdout(s.to_string())
}

fn err(s: &str) -> Line {
    Line::Stderr(s.to_string())
}

fn asks_exists(s: &str) -> Next {
    Next::Ask(Request::Exists(s.to_string()))
}

fn ok(s: &str) -> Reply {
    Reply::Output(Ok(s.to_string()))
}

#[test]
fn subfolder_is_parent_directory_name() {
    assert_eq!(subfolder("/proj/preview/a.json"), "preview");
    assert_eq!(subfolder("a.json"), "default");
    assert_eq!(subfolder("/a.json"), "default");
}

#[test]
fn deploy_found_under_project() {
    let (mut s, first) = run(WorkflowCmd::Deploy { path: "preview/x.json".to_string() }, "/proj".to_string());
    assert!(first.lines.is_empty());
    assert_eq!(first.next, asks_exists("/proj/preview/x.json"));
    let st = s.resume(Reply::Found(true));
    assert_eq!(st.next, Next::Ask(Request::Container("mkdir -p /opt/comfyui/user/default/workflows/preview".to_string())));
    let st = s.resume(ok(""));
    assert_eq!(
        st.next,
        Next::Ask(Request::Copy {
            from: "/proj/preview/x.json".to_string(),
            to: "root@192.168.2.60:/tmp/x.json".to_string()
        })
    );
    let st = s.resume(Reply::Copied(CopyOutcome::Done));
    assert_eq!(
        st.next,
        Next::Ask(Request::Host(
            "pct push 60105 /tmp/x.json /opt/comfyui/user/default/workflows/preview/x.json".to_string()
        ))
    );
    let st = s.resume(ok(""));
    assert_eq!(st.lines, vec![out("deployed: preview/x.json -> /opt/comfyui/user/default/workflows/preview/x.json")]);
    assert_eq!(st.next, Next::Finish);
}

#[test]
fn deploy_falls_back_to_given_path() {
    let (mut s, _) = run(WorkflowCmd::Deploy { path: "/tmp/w/y.json".to_string() }, "/proj".to_string());
    let st = s.resume(Reply::Found(false));
    assert_eq!(st.next, asks_exists("/tmp/w/y.json"));
    let st = s.resume(Reply::Found(true));
    assert_eq!(st.next, Next::Ask(Request::Container("mkdir -p /opt/comfyui/user/default/workflows/w".to_string())));
}

#[test]
fn deploy_errors() {
    let (mut s, _) = run(WorkflowCmd::Deploy { path: "nope.json".to_string() }, "/proj".to_string());
    let _ = s.resume(Reply::Found(false));
    let st = s.resume(Reply::Found(false));
    assert_eq!(st.lines, vec![err("워크플로우 파일을 찾을 수 없습니다: nope.json")]);
    assert_eq!(st.next, Next::Finish);

    let (mut s, _) = run(WorkflowCmd::Deploy { path: "a/b.json".to_string() }, "/p".to_string());
    let _ = s.resume(Reply::Found(true));
    let st = s.resume(Reply::Output(Err("e".to_string())));
    assert_eq!(st.lines, vec![err("디렉토리 생성 실패: e")]);

    let (mut s, _) = run(WorkflowCmd::Deploy { path: "a/b.json".to_string() }, "/p".to_string());
    let _ = s.resume(Reply::Found(true));
    let _ = s.resume(ok(""));
    let st = s.resume(Reply::Copied(CopyOutcome::Failed(" denied\n".to_string())));
    assert_eq!(st.lines, vec![err("scp 실패: denied")]);

    let (mut s, _) = run(WorkflowCmd::Deploy { path: "a/b.json".to_string() }, "/p".to_string());
    let _ = s.resume(Reply::Found(true));
    let _ = s.resume(ok(""));
    let st = s.resume(Reply::Copied(CopyOutcome::NotStarted("no scp".to_string())));
    assert_eq!(st.lines, vec![err("scp 실행 실패: no scp")]);

    let (mut s, _) = run(WorkflowCmd::Deploy { path: "a/b.json".to_string() }, "/p".to_string());
    let _ = s.resume(Reply::Found(true));
    let _ = s.resume(ok(""));
    let _ = s.resume(Reply::Copied(CopyOutcome::Done));
    let st = s.resume(Reply::Output(Err("x".to_string())));
    assert_eq!(st.lines, vec![err("컨테이너 복사 실패: x — 대체 시도 중...")]);
}

#[test]
fn deploy_of_path_without_file_name_aborts() {
    let (mut s, _) = run(WorkflowCmd::Deploy { path: "..".to_string() }, "/p".to_string());
    let _ = s.resume(Reply::Found(false));
    let st = s.resume(Reply::Found(true));
    assert!(matches!(st.next, Next::Abort(_)));
}

#[test]
fn list_shows_relative_paths() {
    let (mut s, first) = run(WorkflowCmd::List, "/p".to_string());
    assert_eq!(first.lines, vec![out("=== Server Workflows ===")]);
    assert_eq!(
        first.next,
        Next::Ask(Request::Container(
            "find /opt/comfyui/user/default/workflows -name '*.json' -type f 2>/dev/null | sort".to_string()
        ))
    );
    let st = s.resume(ok("/opt/comfyui/user/default/workflows/preview/a.json\n/opt/comfyui/user/default/workflows/b.json\n"));
    assert_eq!(st.lines, vec![out("  preview/a.json"), out("  b.json")]);
    assert_eq!(st.next, Next::Finish);
}

#[test]
fn list_empty_and_failed() {
    let (mut s, _) = run(WorkflowCmd::List, "/p".to_string());
    let st = s.resume(ok(" \n"));
    assert_eq!(st.lines, vec![out("  (none)")]);
    let (mut s, _) = run(WorkflowCmd::List, "/p".to_string());
    let st = s.resume(Reply::Output(Err("e".to_string())));
    assert_eq!(st.lines, vec![err("조회 실패: e")]);
}

#[test]
fn sync_deploys_json_files_of_each_directory() {
    let (mut s, first) = run(WorkflowCmd::Sync, "/p".to_string());
    assert_eq!(first.next, asks_exists("/p/preview"));
    let st = s.resume(Reply::Found(true));
    assert_eq!(st.next, Next::Ask(Request::ListDir("/p/preview".to_string())));
    let st = s.resume(Reply::Entries(vec![
        "/p/preview/notes.txt".to_string(),
        "/p/preview/a.json".to_string(),
    ]));
    assert_eq!(st.next, asks_exists("/p/preview/a.json"));
    let _ = s.resume(Reply::Found(true));
    let _ = s.resume(ok(""));
    let _ = s.resume(Reply::Copied(CopyOutcome::Done));
    let st = s.resume(ok(""));
    assert_eq!(st.lines, vec![out("deployed: preview/a.json -> /opt/comfyui/user/default/workflows/preview/a.json")]);
    assert_eq!(st.next, asks_exists("/p/production"));
    let st = s.resume(Reply::Found(false));
    assert_eq!(st.next, asks_exists("/p/video"));
    let st = s.resume(Reply::Found(true));
    let st2 = s.resume(Reply::Entries(vec![]));
    assert_eq!(st.next, Next::Ask(Request::ListDir("/p/video".to_string())));
    assert_eq!(st2.next, Next::Finish);
}

#[test]
fn sync_goes_on_after_a_failed_deploy() {
    let (mut s, _) = run(WorkflowCmd::Sync, "/p".to_string());
    let _ = s.resume(Reply::Found(true));
    let _ = s.resume(Reply::Entries(vec!["/p/preview/a.json".to_string(), "/p/preview/b.json".to_string()]));
    let _ = s.resume(Reply::Found(true));
    let st = s.resume(Reply::Output(Err("e".to_string())));
    assert_eq!(st.lines, vec![err("디렉토리 생성 실패: e")]);
    assert_eq!(st.next, asks_exists("/p/preview/b.json"));
}

#[test]
fn deploy_of_documented_example() {
    let (mut s, first) = run(
        WorkflowCmd::Deploy { path: "preview/sdxl_turbo_korean_preview.json".to_string() },
        "/repo".to_string(),
    );
    assert_eq!(first.next, asks_exists("/repo/preview/sdxl_turbo_korean_preview.json"));
    let _ = s.resume(Reply::Found(true));
    let _ = s.resume(ok(""));
    let st = s.resume(Reply::Copied(CopyOutcome::Done));
    assert_eq!(
        st.next,
        Next::Ask(Request::Host(
            "pct push 60105 /tmp/sdxl_turbo_korean_preview.json /opt/comfyui/user/default/workflows/preview/sdxl_turbo_korean_preview.json".to_string()
        ))
    );
}

#[test]
fn deploy_of_absolute_path_looks_there_first() {
    let (_, first) = run(WorkflowCmd::Deploy { path: "/tmp/w/y.json".to_string() }, "/proj".to_string());
    assert_eq!(first.next, asks_exists("/tmp/w/y.json"));
    let (_, first) = run(WorkflowCmd::Deploy { path: "a.json".to_string() }, "/proj/".to_string());
    assert_eq!(first.next, asks_exists("/proj/a.json"));
}
