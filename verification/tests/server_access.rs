use comfyui_workflows::server::{command_outcome, container_command, launch_failure, ssh_args, status};
use comfyui_workflows::session::{Line, Next, Reply, Request};
use comfyui_workflows::{ServerConfig, BIN_NAME};

fn out(s: &str) -> Line {
    Line::Stdout(s.to_string())
}

#[test]
fn default_settings() {
    let c = ServerConfig::default();
    assert_eq!(c.comfyui_url, "http://10.0.60.105:8188");
    assert_eq!(c.ssh_host, "root@192.168.2.60");
    assert_eq!(c.container_id, "60105");
    assert_eq!(c.comfyui_dir, "/opt/comfyui");
    assert_eq!(c.ollama_url, "http://10.0.60.1:11434");
    assert_eq!(BIN_NAME, "comfyui-workflows");
}

#[test]
fn ssh_commands() {
    let c = ServerConfig::default();
    assert_eq!(container_command(&c, "ls -1"), "pct exec 60105 -- bash -c 'ls -1'");
    assert_eq!(
        ssh_args(&c, "uptime"),
        vec!["-o".to_string(), "ConnectTimeout=5".to_string(), "root@192.168.2.60".to_string(), "uptime".to_string()]
    );
}

#[test]
fn command_outcomes() {
    assert_eq!(command_outcome(true, "out\n".to_string(), "warn"), Ok("out\n".to_string()));
    assert_eq!(command_outcome(false, "out".to_string(), "  boom \n"), Err("명령 실패: boom".to_string()));
    assert_eq!(launch_failure("not found"), "SSH 실행 실패: not found");
}

#[test]
fn status_report() {
    let (mut s, first) = status();
    assert_eq!(
        first.lines,
        vec![
            out("=== ComfyUI Server Status ==="),
            out("  URL: http://10.0.60.105:8188"),
            out("  SSH: root@192.168.2.60"),
            out("  LXC: 60105"),
            out(""),
        ]
    );
    assert_eq!(
        first.next,
        Next::Ask(Request::Container("ps aux | grep 'comfyui.*main.py' | grep -v grep | head -1".to_string()))
    );
    let st = s.resume(Reply::Output(Ok("root 1 python main.py\n".to_string())));
    assert_eq!(st.lines, vec![out("  ComfyUI: running")]);
    let st = s.resume(Reply::Output(Ok("0, RTX 4090, 100 MiB, 24000 MiB\n 1, RTX, 1, 2 \n".to_string())));
    assert_eq!(st.lines, vec![out("  GPU:"), out("    0, RTX 4090, 100 MiB, 24000 MiB"), out("    1, RTX, 1, 2")]);
    assert_eq!(st.next, Next::Ask(Request::Container("ls /opt/comfyui/custom_nodes/ | wc -l".to_string())));
    let st = s.resume(Reply::Output(Ok("28\n".to_string())));
    assert_eq!(st.lines, vec![out("  Nodes: 28")]);
    let st = s.resume(Reply::Output(Err("e".to_string())));
    assert_eq!(st.lines, vec![out("  Checkpoints: unknown")]);
    assert_eq!(
        st.next,
        Next::Ask(Request::Host("curl -s --connect-timeout 3 http://10.0.60.1:11434/api/tags | head -1".to_string()))
    );
    let st = s.resume(Reply::Output(Ok("{\"models\":[]}".to_string())));
    assert_eq!(st.lines, vec![out("  Ollama: running")]);
    assert_eq!(st.next, Next::Finish);
}

#[test]
fn status_report_when_down() {
    let (mut s, _) = status();
    let st = s.resume(Reply::Output(Ok("  \n".to_string())));
    assert_eq!(st.lines, vec![out("  ComfyUI: NOT running")]);
    let st = s.resume(Reply::Output(Err("x".to_string())));
    assert_eq!(st.lines, vec![out("  GPU: unavailable")]);
    let st = s.resume(Reply::Output(Err("x".to_string())));
    assert_eq!(st.lines, vec![out("  Nodes: unknown")]);
    let _ = s.resume(Reply::Output(Ok("3".to_string())));
    let st = s.resume(Reply::Output(Ok("".to_string())));
    assert_eq!(st.lines, vec![out("  Ollama: NOT running")]);
}
