use comfyui_workflows::json::{get_field, ollama_model_lines, ollama_reply_lines, Json};
use comfyui_workflows::model::{remote_model_path, run, ModelCmd};
use comfyui_workflows::session::{Line, Next, Reply, Request};

fn out(s: &str) -> Line {
    Line::Stdout(s.to_string())
}

fn container(s: &str) -> Next {
    Next::Ask(Request::Container(s.to_string()))
}

fn ok(s: &str) -> Reply {
    Reply::Output(Ok(s.to_string()))
}

fn model(name: Option<&str>, size: Option<u64>) -> Json {
    let mut fields = Vec::new();
    if let Some(n) = name {
        fields.push(("name".to_string(), Json::Str(n.to_string())));
    }
    if let Some(s) = size {
        fields.push(("size".to_string(), Json::Number(Some(s))));
    }
    Json::Object(fields)
}

#[test]
fn model_paths_lie_under_models() {
    assert_eq!(remote_model_path("models/checkpoints/a.safetensors"), "/opt/comfyui/models/checkpoints/a.safetensors");
    assert_eq!(remote_model_path("checkpoints/a.safetensors"), "/opt/comfyui/models/checkpoints/a.safetensors");
    assert_eq!(remote_model_path("modelsx"), "/opt/comfyui/models/modelsx");
    assert_eq!(remote_model_path(""), "/opt/comfyui/models/");
}

#[test]
fn json_fields_and_model_lines() {
    let v = Json::Object(vec![
        ("other".to_string(), Json::Null),
        (
            "models".to_string(),
            Json::Array(vec![model(Some("llama3"), Some(4_661_224_676)), model(None, None), Json::Bool(true)]),
        ),
    ]);
    assert!(get_field(&v, "models").is_some());
    assert!(get_field(&v, "absent").is_none());
    assert!(get_field(&Json::Null, "models").is_none());
    let lines = ollama_model_lines(&v);
    assert_eq!(
        lines,
        vec![
            Line::ModelSize { name: "llama3".to_string(), bytes: 4_661_224_676 },
            Line::ModelSize { name: "?".to_string(), bytes: 0 },
            Line::ModelSize { name: "?".to_string(), bytes: 0 },
        ]
    );
    let not_array = Json::Object(vec![("models".to_string(), Json::Str("x".to_string()))]);
    assert!(ollama_model_lines(&not_array).is_empty());
}

#[test]
fn model_list_walks_sections_then_ollama() {
    let (mut s, first) = run(ModelCmd::List);
    assert_eq!(first.lines, vec![out("=== Checkpoints ===")]);
    assert_eq!(first.next, container("ls -1S /opt/comfyui/models/checkpoints 2>/dev/null"));
    let st = s.resume(ok("big.safetensors\nput_checkpoints_here\n  \nsmall.ckpt\n"));
    assert!(st.lines.is_empty());
    assert_eq!(st.next, container("du -h /opt/comfyui/models/checkpoints/big.safetensors 2>/dev/null"));
    let st = s.resume(ok("6.5G\t/opt/comfyui/models/checkpoints/big.safetensors\n"));
    assert_eq!(st.lines, vec![out("  big.safetensors (6.5G)")]);
    assert_eq!(st.next, container("du -h /opt/comfyui/models/checkpoints/small.ckpt 2>/dev/null"));
    let st = s.resume(Reply::Output(Err("x".to_string())));
    assert_eq!(st.lines, vec![out("  small.ckpt"), out(""), out("=== UNet ===")]);
    assert_eq!(st.next, container("ls -1S /opt/comfyui/models/unet 2>/dev/null"));
    let st = s.resume(Reply::Output(Err("x".to_string())));
    assert_eq!(st.lines, vec![out("  (empty)"), out(""), out("=== LoRA ===")]);
    assert_eq!(st.next, container("ls -1S /opt/comfyui/models/loras 2>/dev/null"));
    let st = s.resume(ok(""));
    assert_eq!(st.lines, vec![out("\n=== Ollama Models ===")]);
    assert_eq!(
        st.next,
        Next::Ask(Request::Host("curl -s http://10.0.60.1:11434/api/tags 2>/dev/null".to_string()))
    );
    let st = s.resume(ok("{\"models\":[{\"name\":\"qwen\",\"size\":1}]}"));
    assert_eq!(st.lines, vec![Line::ModelSize { name: "qwen".to_string(), bytes: 1 }]);
    assert_eq!(st.next, Next::Finish);
}

#[test]
fn model_list_without_ollama() {
    let (mut s, _) = run(ModelCmd::List);
    for _ in 0..3 {
        let _ = s.resume(ok(""));
    }
    let st = s.resume(Reply::Output(Err("down".to_string())));
    assert_eq!(st.lines, vec![out("  Ollama not available")]);
    let (mut s, _) = run(ModelCmd::List);
    for _ in 0..3 {
        let _ = s.resume(ok(""));
    }
    let st = s.resume(ok("curl: (7) Failed to connect"));
    assert!(st.lines.is_empty());
    assert_eq!(st.next, Next::Finish);
}

#[test]
fn model_pull_downloads_then_shows() {
    let (mut s, first) = run(ModelCmd::Pull { url: "https://x/m.bin".to_string(), to: "loras/m.bin".to_string() });
    assert_eq!(first.lines, vec![out("downloading https://x/m.bin -> models/loras/m.bin"), out("  downloading...")]);
    assert_eq!(
        first.next,
        Next::Ask(Request::Host(
            "PID=$(pgrep -f 'comfyui.*main.py' | head -1) && curl -L -o /proc/$PID/root/opt/comfyui/models/loras/m.bin 'https://x/m.bin'".to_string()
        ))
    );
    let st = s.resume(ok(""));
    assert!(st.lines.is_empty());
    assert_eq!(
        st.next,
        Next::Ask(Request::Host(
            "PID=$(pgrep -f 'comfyui.*main.py' | head -1) && ls -lh /proc/$PID/root/opt/comfyui/models/loras/m.bin".to_string()
        ))
    );
    let st = s.resume(ok(" -rw 1G m.bin \n"));
    assert_eq!(st.lines, vec![out("  done: -rw 1G m.bin")]);
    assert_eq!(st.next, Next::Finish);
}

#[test]
fn model_pull_failure() {
    let (mut s, _) = run(ModelCmd::Pull { url: "u".to_string(), to: "t".to_string() });
    let st = s.resume(Reply::Output(Err("명령 실패: 404".to_string())));
    assert_eq!(st.lines, vec![Line::Stderr("  FAILED: 명령 실패: 404".to_string())]);
    assert_eq!(st.next, Next::Finish);
}

#[test]
fn model_remove_deletes_the_file() {
    let (mut s, first) = run(ModelCmd::Remove { path: "models/loras/a.safetensors".to_string() });
    assert_eq!(first.lines, vec![out("removing /opt/comfyui/models/loras/a.safetensors")]);
    assert_eq!(first.next, container("rm -f /opt/comfyui/models/loras/a.safetensors"));
    let st = s.resume(ok(""));
    assert_eq!(st.lines, vec![out("  removed")]);
    assert_eq!(st.next, Next::Finish);
    let (mut s, _) = run(ModelCmd::Remove { path: "x".to_string() });
    let st = s.resume(Reply::Output(Err("e".to_string())));
    assert_eq!(st.lines, vec![Line::Stderr("  FAILED: e".to_string())]);
}

#[test]
fn pull_of_documented_example() {
    let (_, first) = run(ModelCmd::Pull {
        url: "https://example.com/model.safetensors".to_string(),
        to: "checkpoints/model.safetensors".to_string(),
    });
    assert_eq!(
        first.lines,
        vec![out("downloading https://example.com/model.safetensors -> models/checkpoints/model.safetensors"), out("  downloading...")]
    );
}

#[test]
fn ollama_reply_is_read_as_json() {
    let text = "{\"models\": [{\"name\": \"llama3:8b\", \"size\": 4661224676, \"digest\": \"ab\"}, {\"size\": -3}, {\"name\": 7, \"size\": 2.5}]}";
    assert_eq!(
        ollama_reply_lines(text),
        vec![
            Line::ModelSize { name: "llama3:8b".to_string(), bytes: 4_661_224_676 },
            Line::ModelSize { name: "?".to_string(), bytes: 0 },
            Line::ModelSize { name: "?".to_string(), bytes: 0 },
        ]
    );
    assert!(ollama_reply_lines("").is_empty());
    assert!(ollama_reply_lines("not json").is_empty());
    assert!(ollama_reply_lines("{\"models\": {}}").is_empty());
    assert!(ollama_reply_lines("[1, 2]").is_empty());
    assert!(ollama_reply_lines("{\"models\": []}").is_empty());
}
