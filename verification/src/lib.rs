//! Management of a ComfyUI server: its custom nodes, workflows and models.
//!
//! The library decides what each command runs on the server and what it
//! reports. A command starts with `run` (or `server::status`) and goes on one
//! step at a time: a step holds the lines to print and then asks for one piece
//! of outside work (a remote command, a file check, a copy, writing the node
//! inventory), finishes, or stops. The program around the library carries out
//! the work and resumes the command with the reply.

pub mod text;
pub mod paths;
pub mod json;
pub mod session;
pub mod config;
pub mod server;
pub mod node;
pub mod node_tasks;
pub mod node_laws;
pub mod model;
pub mod workflow;

pub use config::{ServerConfig, BIN_NAME};
pub use model::ModelCmd;
pub use node::NodeCmd;
pub use workflow::WorkflowCmd;
