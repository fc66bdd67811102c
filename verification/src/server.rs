//! Reaching the server over SSH, and the server status report.

use vstd::prelude::*;
use vstd::string::*;
use crate::config::ServerConfig;
use crate::session::{
    Line, LineView, Next, NextView, Reply, ReplyView, Request, RequestView, Step, StepView, cat,
    cat3, lines_view, result_view, say, step,
};
use crate::text::{
    all_ws, contains, has_substring, lemma_trimmed_empty_iff_blank, lines, split_lines, trim, trimmed,
};

verus! {

/// The host command that runs `cmd` inside the ComfyUI container.
pub open spec fn in_container(container_id: Seq<char>, cmd: Seq<char>) -> Seq<char> {
    "pct exec "@ + container_id + " -- bash -c '"@ + cmd + "'"@
}

/// The host command that runs `cmd` inside the container of `config`.
pub fn container_command(config: &ServerConfig, cmd: &str) -> (r: String)
    ensures
        r@ == in_container(config.container_id@, cmd@),
{
    let mut r = String::from_str("pct exec ");
    r.append(config.container_id.as_str());
    r.append(" -- bash -c '");
    r.append(cmd);
    r.append("'");
    r
}

/// The container's `bash -c` is handed `cmd` itself: where `cmd` holds no
/// single quote, the host command is the fixed prefix, a quote, `cmd` and a
/// closing quote, and no quote stands between those two.
pub proof fn lemma_container_command_quotes_cmd(container_id: Seq<char>, cmd: Seq<char>)
    requires
        !cmd.contains('\''),
    ensures
        ({
            let p = "pct exec "@ + container_id + " -- bash -c "@;
            let c = in_container(container_id, cmd);
            &&& c == p + seq!['\''] + cmd + seq!['\'']
            &&& c.subrange(p.len() as int + 1, c.len() - 1) == cmd
            &&& forall|i: int| p.len() < i < c.len() - 1 ==> c[i] != '\''
        }),
{
    reveal_strlit("pct exec ");
    reveal_strlit(" -- bash -c '");
    reveal_strlit(" -- bash -c ");
    reveal_strlit("'");
    let p = "pct exec "@ + container_id + " -- bash -c "@;
    let c = in_container(container_id, cmd);
    assert(" -- bash -c '"@ =~= " -- bash -c "@ + seq!['\'']);
    assert("'"@ =~= seq!['\'']);
    assert(c =~= p + seq!['\''] + cmd + seq!['\'']);
    assert(c.subrange(p.len() as int + 1, c.len() - 1) =~= cmd);
    assert forall|i: int| p.len() < i < c.len() - 1 implies c[i] != '\'' by {
        assert(c[i] == cmd[i - p.len() - 1]);
        if c[i] == '\'' {
            assert(cmd.contains(cmd[i - p.len() - 1]));
        }
    }
}

/// The arguments of `ssh` that run `remote` on the server host.
pub fn ssh_args(config: &ServerConfig, remote: &str) -> (r: Vec<String>)
    ensures
        r@.map_values(|a: String| a@) == seq!["-o"@, "ConnectTimeout=5"@, config.ssh_host@, remote@],
{
    let mut r: Vec<String> = Vec::new();
    r.push(String::from_str("-o"));
    r.push(String::from_str("ConnectTimeout=5"));
    r.push(String::from_str(config.ssh_host.as_str()));
    r.push(String::from_str(remote));
    assert(r@.map_values(|a: String| a@) =~= seq!["-o"@, "ConnectTimeout=5"@, config.ssh_host@, remote@]);
    r
}

/// What a finished remote command yields.
pub open spec fn outcome(success: bool, stdout: Seq<char>, stderr: Seq<char>) -> Result<
    Seq<char>,
    Seq<char>,
> {
    if success {
        Ok(stdout)
    } else {
        Err("명령 실패: "@ + trimmed(stderr))
    }
}

/// What a finished remote command yields: its output where it succeeded,
/// else its trimmed standard error.
pub fn command_outcome(success: bool, stdout: String, stderr: &str) -> (r: Result<String, String>)
    ensures
        result_view(r) == outcome(success, stdout@, stderr@),
{
    if success {
        Ok(stdout)
    } else {
        Err(cat("명령 실패: ", trim(stderr)))
    }
}

/// The error of a remote command whose `ssh` could not be started.
pub fn launch_failure(reason: &str) -> (r: String)
    ensures
        r@ == "SSH 실행 실패: "@ + reason@,
{
    cat("SSH 실행 실패: ", reason)
}

/// Each line of `text`, trimmed, after `prefix`, on standard output.
pub open spec fn listed(text: Seq<char>, prefix: Seq<char>) -> Seq<LineView> {
    split_lines(text).map_values(|l: Seq<char>| LineView::Stdout(prefix + trimmed(l)))
}

/// Appends each line of `text`, trimmed, after `prefix`.
pub fn list_lines(out: &mut Vec<Line>, text: &str, prefix: &str)
    ensures
        lines_view(final(out)@) == lines_view(old(out)@) + listed(text@, prefix@),
{
    let ls = lines(text);
    let n = ls.len();
    let mut i: usize = 0;
    let ghost all = split_lines(text@);
    while i < n
        invariant
            n == ls@.len(),
            ls@.map_values(|l: String| l@) == all,
            all == split_lines(text@),
            i <= n,
            lines_view(out@) == lines_view(old(out)@) + all.subrange(0, i as int).map_values(
                |l: Seq<char>| LineView::Stdout(prefix@ + trimmed(l)),
            ),
        decreases n - i,
    {
        let t = trim(ls[i].as_str());
        assert(ls[i as int]@ == all[i as int]);
        say(out, cat(prefix, t));
        assert(all.subrange(0, i + 1) =~= all.subrange(0, i as int).push(all[i as int]));
        assert(all.subrange(0, i + 1).map_values(
            |l: Seq<char>| LineView::Stdout(prefix@ + trimmed(l)),
        ) =~= all.subrange(0, i as int).map_values(
            |l: Seq<char>| LineView::Stdout(prefix@ + trimmed(l)),
        ).push(LineView::Stdout(prefix@ + trimmed(all[i as int]))));
        i += 1;
    }
    assert(all.subrange(0, n as int) =~= all);
}

/// Whether the ComfyUI process runs.
pub open spec fn q_comfyui() -> Seq<char> {
    "ps aux | grep 'comfyui.*main.py' | grep -v grep | head -1"@
}

/// The GPUs' memory use.
pub open spec fn q_gpu() -> Seq<char> {
    "nvidia-smi --query-gpu=index,name,memory.used,memory.free --format=csv,noheader"@
}

/// How many custom nodes are installed.
pub open spec fn q_nodes() -> Seq<char> {
    "ls /opt/comfyui/custom_nodes/ | wc -l"@
}

/// How many checkpoints are installed.
pub open spec fn q_checkpoints() -> Seq<char> {
    "ls /opt/comfyui/models/checkpoints/ 2>/dev/null | grep -v put_ | wc -l"@
}

/// Whether Ollama answers at `url`.
pub open spec fn q_ollama(url: Seq<char>) -> Seq<char> {
    "curl -s --connect-timeout 3 "@ + url + "/api/tags | head -1"@
}

/// A report of the server's state, taken one remote query at a time.
pub struct StatusSession {
    pub config: ServerConfig,
    /// How many queries have been asked.
    pub stage: u8,
}

/// The first step of the status report.
pub open spec fn status_opening(c: ServerConfig) -> StepView {
    StepView {
        lines: seq![
            LineView::Stdout("=== ComfyUI Server Status ==="@),
            LineView::Stdout("  URL: "@ + c.comfyui_url@),
            LineView::Stdout("  SSH: "@ + c.ssh_host@),
            LineView::Stdout("  LXC: "@ + c.container_id@),
            LineView::Stdout(""@),
        ],
        next: NextView::Ask(RequestView::Container(q_comfyui())),
    }
}

/// The line that reports `label` from a query's output: the trimmed output,
/// or `unknown` where the query failed.
pub open spec fn count_line(label: Seq<char>, o: Result<Seq<char>, Seq<char>>) -> LineView {
    match o {
        Ok(out) => LineView::Stdout(label + trimmed(out)),
        Err(_) => LineView::Stdout(label + "unknown"@),
    }
}

/// The step after a query's reply, and the stage that follows.
pub open spec fn status_after(c: ServerConfig, stage: u8, r: ReplyView) -> (u8, StepView) {
    match r {
        ReplyView::Output(o) => if stage == 1 {
            (
                2,
                StepView {
                    lines: seq![
                        if o is Ok && trimmed(o->Ok_0).len() > 0 {
                            LineView::Stdout("  ComfyUI: running"@)
                        } else {
                            LineView::Stdout("  ComfyUI: NOT running"@)
                        },
                    ],
                    next: NextView::Ask(RequestView::Host(q_gpu())),
                },
            )
        } else if stage == 2 {
            (
                3,
                StepView {
                    lines: match o {
                        Ok(out) => seq![LineView::Stdout("  GPU:"@)] + listed(out, "    "@),
                        Err(_) => seq![LineView::Stdout("  GPU: unavailable"@)],
                    },
                    next: NextView::Ask(RequestView::Container(q_nodes())),
                },
            )
        } else if stage == 3 {
            (
                4,
                StepView {
                    lines: seq![count_line("  Nodes: "@, o)],
                    next: NextView::Ask(RequestView::Container(q_checkpoints())),
                },
            )
        } else if stage == 4 {
            (
                5,
                StepView {
                    lines: seq![count_line("  Checkpoints: "@, o)],
                    next: NextView::Ask(RequestView::Host(q_ollama(c.ollama_url@))),
                },
            )
        } else if stage == 5 {
            (
                6,
                StepView {
                    lines: seq![
                        if o is Ok && has_substring(o->Ok_0, "models"@) {
                            LineView::Stdout("  Ollama: running"@)
                        } else {
                            LineView::Stdout("  Ollama: NOT running"@)
                        },
                    ],
                    next: NextView::Finish,
                },
            )
        } else {
            (stage, unexpected())
        },
        _ => (stage, unexpected()),
    }
}

/// The step for a reply that the session did not ask for.
pub open spec fn unexpected() -> StepView {
    StepView { lines: Seq::empty(), next: NextView::Abort("unexpected reply"@) }
}

/// A step that stops on a reply that was not asked for.
pub fn unexpected_step() -> (r: Step)
    ensures
        r@ == unexpected(),
{
    let r = Step { lines: Vec::new(), next: Next::Abort(String::from_str("unexpected reply")) };
    assert(r@.lines =~= Seq::<LineView>::empty());
    r
}

/// Starts the status report of the server of the default settings.
pub fn status() -> (r: (StatusSession, Step))
    ensures
        r.0.config.comfyui_url@ == "http://10.0.60.105:8188"@,
        r.0.config.ssh_host@ == "root@192.168.2.60"@,
        r.0.config.container_id@ == "60105"@,
        r.0.config.ollama_url@ == "http://10.0.60.1:11434"@,
        r.0.stage == 1,
        r.1@ == status_opening(r.0.config),
{
    let config = ServerConfig::default();
    let mut lines: Vec<Line> = Vec::new();
    say(&mut lines, String::from_str("=== ComfyUI Server Status ==="));
    say(&mut lines, cat("  URL: ", config.comfyui_url.as_str()));
    say(&mut lines, cat("  SSH: ", config.ssh_host.as_str()));
    say(&mut lines, cat("  LXC: ", config.container_id.as_str()));
    say(&mut lines, String::new());
    let q = String::from_str("ps aux | grep 'comfyui.*main.py' | grep -v grep | head -1");
    let s = step(lines, Next::Ask(Request::Container(q)));
    proof {
        reveal_strlit("");
    }
    assert(""@ =~= Seq::<char>::empty());
    assert(s@.lines =~= status_opening(config).lines);
    (StatusSession { config, stage: 1 }, s)
}

impl StatusSession {
    /// Takes the reply to the last query and gives the next step.
    pub fn resume(&mut self, reply: Reply) -> (r: Step)
        ensures
            final(self).config == old(self).config,
            (final(self).stage, r@) == status_after(old(self).config, old(self).stage, reply@),
    {
        let o = match reply {
            Reply::Output(o) => o,
            _ => {
                return unexpected_step();
            },
        };
        let ghost ov = result_view(o);
        let mut lines: Vec<Line> = Vec::new();
        if self.stage == 1 {
            let running = match &o {
                Ok(out) => trim(out.as_str()).unicode_len() > 0,
                Err(_) => false,
            };
            if running {
                say(&mut lines, String::from_str("  ComfyUI: running"));
            } else {
                say(&mut lines, String::from_str("  ComfyUI: NOT running"));
            }
            self.stage = 2;
            let q = String::from_str(
                "nvidia-smi --query-gpu=index,name,memory.used,memory.free --format=csv,noheader",
            );
            let s = step(lines, Next::Ask(Request::Host(q)));
            assert(s@.lines =~= status_after(old(self).config, 1, reply@).1.lines);
            s
        } else if self.stage == 2 {
            match &o {
                Ok(out) => {
                    say(&mut lines, String::from_str("  GPU:"));
                    list_lines(&mut lines, out.as_str(), "    ");
                },
                Err(_) => {
                    say(&mut lines, String::from_str("  GPU: unavailable"));
                },
            }
            self.stage = 3;
            let s = step(
                lines,
                Next::Ask(Request::Container(String::from_str("ls /opt/comfyui/custom_nodes/ | wc -l"))),
            );
            assert(s@.lines =~= status_after(old(self).config, 2, reply@).1.lines);
            s
        } else if self.stage == 3 {
            lines.push(count_report("  Nodes: ", &o));
            assert(lines_view(lines@) =~= seq![count_line("  Nodes: "@, ov)]);
            self.stage = 4;
            step(
                lines,
                Next::Ask(
                    Request::Container(
                        String::from_str(
                            "ls /opt/comfyui/models/checkpoints/ 2>/dev/null | grep -v put_ | wc -l",
                        ),
                    ),
                ),
            )
        } else if self.stage == 4 {
            lines.push(count_report("  Checkpoints: ", &o));
            assert(lines_view(lines@) =~= seq![count_line("  Checkpoints: "@, ov)]);
            self.stage = 5;
            let q = cat3(
                "curl -s --connect-timeout 3 ",
                self.config.ollama_url.as_str(),
                "/api/tags | head -1",
            );
            step(lines, Next::Ask(Request::Host(q)))
        } else if self.stage == 5 {
            let running = match &o {
                Ok(out) => contains(out.as_str(), "models"),
                Err(_) => false,
            };
            if running {
                say(&mut lines, String::from_str("  Ollama: running"));
            } else {
                say(&mut lines, String::from_str("  Ollama: NOT running"));
            }
            self.stage = 6;
            let s = step(lines, Next::Finish);
            assert(s@.lines =~= status_after(old(self).config, 5, reply@).1.lines);
            s
        } else {
            unexpected_step()
        }
    }
}

/// The line that reports `label` from a query's output.
fn count_report(label: &str, o: &Result<String, String>) -> (r: Line)
    ensures
        r@ == count_line(label@, result_view(*o)),
{
    match o {
        Ok(out) => Line::Stdout(cat(label, trim(out.as_str()))),
        Err(_) => Line::Stdout(cat(label, "unknown")),
    }
}

/// Every step of the status report that asks for more work moves it to a later
/// stage, so the report asks for at most five queries.
pub proof fn lemma_status_ends(c: ServerConfig, stage: u8, r: ReplyView)
    ensures
        ({
            let (after, s) = status_after(c, stage, r);
            s.next is Ask ==> stage < after <= 5
        }),
{
}

/// The status report says ComfyUI runs exactly when the process query
/// succeeded and printed something other than whitespace; a failed query (the
/// container stopped, ssh down) or a blank one reads `NOT running`. Either
/// way the report goes on to the GPUs.
pub proof fn lemma_comfyui_running_needs_a_process(c: ServerConfig, o: Result<Seq<char>, Seq<char>>)
    ensures
        ({
            let (stage, s) = status_after(c, 1, ReplyView::Output(o));
            let running = o matches Ok(out) && !all_ws(out);
            &&& stage == 2
            &&& s.lines == seq![
                LineView::Stdout(
                    if running {
                        "  ComfyUI: running"@
                    } else {
                        "  ComfyUI: NOT running"@
                    },
                ),
            ]
            &&& (o is Err ==> s.lines == seq![LineView::Stdout("  ComfyUI: NOT running"@)])
            &&& s.next == NextView::Ask(RequestView::Host(q_gpu()))
        }),
{
    if let Ok(out) = o {
        lemma_trimmed_empty_iff_blank(out);
    }
}

/// The status report after the process query: the GPU query's output one
/// trimmed line per GPU (or `unavailable`), then the number of installed
/// nodes and of checkpoints as the server counted them (or `unknown`), then
/// Ollama, which runs exactly when its query succeeded and named `models`;
/// each reply leads to the next query, in that order, and the last one ends
/// the report.
pub proof fn lemma_status_reports_each_query(c: ServerConfig, o: Result<Seq<char>, Seq<char>>)
    ensures
        ({
            let (s2, t2) = status_after(c, 2, ReplyView::Output(o));
            &&& s2 == 3
            &&& t2.lines == match o {
                Ok(out) => seq![LineView::Stdout("  GPU:"@)] + split_lines(out).map_values(
                    |l: Seq<char>| LineView::Stdout("    "@ + trimmed(l)),
                ),
                Err(_) => seq![LineView::Stdout("  GPU: unavailable"@)],
            }
            &&& t2.next == NextView::Ask(
                RequestView::Container("ls /opt/comfyui/custom_nodes/ | wc -l"@),
            )
        }),
        ({
            let (s3, t3) = status_after(c, 3, ReplyView::Output(o));
            &&& s3 == 4
            &&& t3.lines == seq![
                match o {
                    Ok(out) => LineView::Stdout("  Nodes: "@ + trimmed(out)),
                    Err(_) => LineView::Stdout("  Nodes: "@ + "unknown"@),
                },
            ]
            &&& t3.next == NextView::Ask(
                RequestView::Container(
                    "ls /opt/comfyui/models/checkpoints/ 2>/dev/null | grep -v put_ | wc -l"@,
                ),
            )
        }),
        ({
            let (s4, t4) = status_after(c, 4, ReplyView::Output(o));
            &&& s4 == 5
            &&& t4.lines == seq![
                match o {
                    Ok(out) => LineView::Stdout("  Checkpoints: "@ + trimmed(out)),
                    Err(_) => LineView::Stdout("  Checkpoints: "@ + "unknown"@),
                },
            ]
            &&& t4.next == NextView::Ask(
                RequestView::Host(
                    "curl -s --connect-timeout 3 "@ + c.ollama_url@ + "/api/tags | head -1"@,
                ),
            )
        }),
        ({
            let (s5, t5) = status_after(c, 5, ReplyView::Output(o));
            &&& s5 == 6
            &&& t5.lines == seq![
                LineView::Stdout(
                    if o matches Ok(out) && has_substring(out, "models"@) {
                        "  Ollama: running"@
                    } else {
                        "  Ollama: NOT running"@
                    },
                ),
            ]
            &&& t5.next == NextView::Finish
        }),
        status_opening(c).next == NextView::Ask(
            RequestView::Container("ps aux | grep 'comfyui.*main.py' | grep -v grep | head -1"@),
        ),
        status_after(c, 1, ReplyView::Output(o)).1.next == NextView::Ask(
            RequestView::Host(
                "nvidia-smi --query-gpu=index,name,memory.used,memory.free --format=csv,noheader"@,
            ),
        ),
{
}

} // verus!
