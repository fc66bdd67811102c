# comfyui_workflows

Management of a ComfyUI server (custom nodes, workflows, models) over SSH,
written in Verus.

- `src/` is the verified library. Each command (`node::run`, `workflow::run`,
  `model::run`, `server::status`) is a session that goes on one step at a
  time: a step lists the lines to print and then asks for one piece of
  outside work (a command in the ComfyUI container or on the host, a local
  file check or directory listing, an scp copy, writing `nodes.yaml`),
  finishes, or stops. Each step's contract states exactly what it prints and
  asks for, given the session and the reply to the last request.
  - `text`: string operations (trim, lines, prefixes, replacement, padding).
  - `session`: lines, requests, replies and steps.
  - `server`: SSH command lines, command outcomes, the server status report.
  - `node`, `node_tasks`, `node_laws`: the node inventory and the node commands.
  - `model`, `workflow`: the model and workflow commands.
  - `json`: Ollama's model listing, read from `curl`'s output with serde_json.
  - `paths`: local paths, read as `std::path` reads them on Unix.
- `app/` is the command-line program: argument parsing (clap), running ssh
  and scp, file access, reading and writing `nodes.yaml` (serde_yaml), and
  printing.
- `tests/` runs the commands against scripted replies.
