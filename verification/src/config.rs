//! Where the ComfyUI server is and how it is reached.

use vstd::prelude::*;
use vstd::string::*;

verus! {

/// The name of the command-line program.
pub const BIN_NAME: &'static str = "comfyui-workflows";

/// Access settings for the ComfyUI server.
pub struct ServerConfig {
    /// ComfyUI API URL.
    pub comfyui_url: String,
    /// SSH destination of the server host.
    pub ssh_host: String,
    /// LXC container that runs ComfyUI (reached with `pct exec`).
    pub container_id: String,
    /// ComfyUI installation directory inside the container.
    pub comfyui_dir: String,
    /// Ollama URL.
    pub ollama_url: String,
}

impl Default for ServerConfig {
    fn default() -> (r: Self)
        ensures
            r.comfyui_url@ == "http://10.0.60.105:8188"@,
            r.ssh_host@ == "root@192.168.2.60"@,
            r.container_id@ == "60105"@,
            r.comfyui_dir@ == "/opt/comfyui"@,
            r.ollama_url@ == "http://10.0.60.1:11434"@,
    {
        ServerConfig {
            comfyui_url: String::from_str("http://10.0.60.105:8188"),
            ssh_host: String::from_str("root@192.168.2.60"),
            container_id: String::from_str("60105"),
            comfyui_dir: String::from_str("/opt/comfyui"),
            ollama_url: String::from_str("http://10.0.60.1:11434"),
        }
    }
}

} // verus!
