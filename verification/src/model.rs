//! The model commands: listing, downloading and deleting model files.

use vstd::prelude::*;
use vstd::string::*;
use crate::config::ServerConfig;
use crate::json::{ollama_text_lines, ollama_reply_lines};
use crate::server::{unexpected, unexpected_step};
use crate::session::{
    Line, LineView, Next, NextView, Reply, ReplyView, Request, RequestView, Step, StepView, cat,
    cat3, lines_view, say, step, warn,
};
use crate::text::{before_first, before_first_char, lines, split_lines, starts_with, trim, trimmed};

verus! {

/// A model command, as given on the command line.
pub enum ModelCmd {
    /// List the checkpoints, UNets, LoRAs and Ollama models.
    List,
    /// Download `url` to `to` under the models directory.
    Pull { url: String, to: String },
    /// Delete a model file.
    Remove { path: String },
}

// ---------------------------------------------------------------- paths

/// Where a model path given on the command line lies on the server: under
/// `/opt/comfyui/`, where it already starts with `models/`, else under
/// `/opt/comfyui/models/`.
pub open spec fn model_path(p: Seq<char>) -> Seq<char> {
    if "models/"@.is_prefix_of(p) {
        "/opt/comfyui/"@ + p
    } else {
        "/opt/comfyui/models/"@ + p
    }
}

/// Where a model path given on the command line lies on the server.
pub fn remote_model_path(p: &str) -> (r: String)
    ensures
        r@ == model_path(p@),
{
    if starts_with(p, "models/") {
        cat("/opt/comfyui/", p)
    } else {
        cat("/opt/comfyui/models/", p)
    }
}

/// Every model path lies under `/opt/comfyui/models/`, and a path given with
/// or without the leading `models/` names the same file.
pub proof fn lemma_model_path_under_models(p: Seq<char>)
    ensures
        "/opt/comfyui/models/"@.is_prefix_of(model_path(p)),
        !"models/"@.is_prefix_of(p) ==> model_path("models/"@ + p) == model_path(p),
        model_path("models/"@ + p) == "/opt/comfyui/models/"@ + p,
{
    reveal_strlit("models/");
    reveal_strlit("/opt/comfyui/");
    reveal_strlit("/opt/comfyui/models/");
    let q = "models/"@ + p;
    assert("models/"@.is_prefix_of(q)) by {
        assert(q.subrange(0, 7) =~= "models/"@);
    }
    assert("/opt/comfyui/"@ + q =~= "/opt/comfyui/models/"@ + p);
    if "models/"@.is_prefix_of(p) {
        let m = "/opt/comfyui/"@ + p;
        assert(p.subrange(0, 7) =~= "models/"@);
        assert(m.subrange(0, 20) =~= "/opt/comfyui/"@ + p.subrange(0, 7));
        assert("/opt/comfyui/"@ + "models/"@ =~= "/opt/comfyui/models/"@);
        assert(m.subrange(0, 20) =~= "/opt/comfyui/models/"@);
    } else {
        let m = "/opt/comfyui/models/"@ + p;
        assert(m.subrange(0, 20) =~= "/opt/comfyui/models/"@);
    }
}

// ---------------------------------------------------------------- list

/// The label and directory of the model listing's sections.
pub open spec fn section_label(d: int) -> Seq<char> {
    if d == 0 {
        "Checkpoints"@
    } else if d == 1 {
        "UNet"@
    } else {
        "LoRA"@
    }
}

pub open spec fn section_dir(d: int) -> Seq<char> {
    if d == 0 {
        "/opt/comfyui/models/checkpoints"@
    } else if d == 1 {
        "/opt/comfyui/models/unet"@
    } else {
        "/opt/comfyui/models/loras"@
    }
}

fn label_of(d: u8) -> (r: &'static str)
    requires
        d < 3,
    ensures
        r@ == section_label(d as int),
{
    if d == 0 {
        "Checkpoints"
    } else if d == 1 {
        "UNet"
    } else {
        "LoRA"
    }
}

fn dir_of(d: u8) -> (r: &'static str)
    requires
        d < 3,
    ensures
        r@ == section_dir(d as int),
{
    if d == 0 {
        "/opt/comfyui/models/checkpoints"
    } else if d == 1 {
        "/opt/comfyui/models/unet"
    } else {
        "/opt/comfyui/models/loras"
    }
}

/// The listing of a model directory, largest first.
pub open spec fn ls_command(dir: Seq<char>) -> Seq<char> {
    "ls -1S "@ + dir + " 2>/dev/null"@
}

/// The size query of a model file.
pub open spec fn du_command(dir: Seq<char>, name: Seq<char>) -> Seq<char> {
    "du -h "@ + dir + "/"@ + name + " 2>/dev/null"@
}

/// The listing of Ollama's models.
pub open spec fn tags_command(url: Seq<char>) -> Seq<char> {
    "curl -s "@ + url + "/api/tags 2>/dev/null"@
}

/// Whether a listed line names a model: not blank, not a `put_` placeholder.
pub open spec fn is_model_name(name: Seq<char>) -> bool {
    name.len() > 0 && !"put_"@.is_prefix_of(name)
}

/// The models a directory listing names, trimmed, in listing order.
pub open spec fn model_names(ls: Seq<Seq<char>>) -> Seq<Seq<char>>
    decreases ls.len(),
{
    if ls.len() == 0 {
        Seq::empty()
    } else if is_model_name(trimmed(ls.last())) {
        model_names(ls.drop_last()).push(trimmed(ls.last()))
    } else {
        model_names(ls.drop_last())
    }
}

/// The size a `du -h` reply reports: its first tab-separated field.
pub open spec fn du_size(out: Seq<char>) -> Seq<char> {
    before_first(trimmed(out), '\t')
}

/// The line for a model file, with its size where the query gave one.
pub open spec fn model_file_line(name: Seq<char>, o: Result<Seq<char>, Seq<char>>) -> LineView {
    match o {
        Ok(out) => LineView::Stdout("  "@ + name + " ("@ + du_size(out) + ")"@),
        Err(_) => LineView::Stdout("  "@ + name),
    }
}

/// Where the model listing stands.
pub enum ListPhase {
    /// The listing of section `d` was asked for.
    Listing,
    /// The size of `names[k]` was asked for.
    Sizing { names: Vec<String>, k: usize },
    /// The Ollama listing was asked for.
    Ollama,
    Done,
}

pub enum ListPhaseView {
    Listing,
    Sizing(Seq<Seq<char>>, int),
    Ollama,
    Done,
}

impl View for ListPhase {
    type V = ListPhaseView;

    open spec fn view(&self) -> ListPhaseView {
        match self {
            ListPhase::Listing => ListPhaseView::Listing,
            ListPhase::Sizing { names, k } => ListPhaseView::Sizing(
                names@.map_values(|s: String| s@),
                *k as int,
            ),
            ListPhase::Ollama => ListPhaseView::Ollama,
            ListPhase::Done => ListPhaseView::Done,
        }
    }
}

/// `model list`: three model directories, then Ollama's models.
pub struct ListTask {
    pub ollama_url: String,
    /// The section being listed.
    pub section: u8,
    pub phase: ListPhase,
}

/// After `lines`, ask for the size of `names[k]`; after the last name, close
/// section `d`.
pub open spec fn list_sizes_from(
    url: Seq<char>,
    d: int,
    names: Seq<Seq<char>>,
    k: int,
    lines: Seq<LineView>,
) -> (int, ListPhaseView, StepView) {
    if k < names.len() {
        (
            d,
            ListPhaseView::Sizing(names, k),
            StepView {
                lines,
                next: NextView::Ask(RequestView::Container(du_command(section_dir(d), names[k]))),
            },
        )
    } else {
        list_section_end(url, d, lines)
    }
}

/// After `lines`, open the section after `d`, or ask for Ollama's models after
/// the last one.
pub open spec fn list_section_end(url: Seq<char>, d: int, lines: Seq<LineView>) -> (
    int,
    ListPhaseView,
    StepView,
) {
    if d < 2 {
        (
            d + 1,
            ListPhaseView::Listing,
            StepView {
                lines: lines + seq![
                    LineView::Stdout(""@),
                    LineView::Stdout("=== "@ + section_label(d + 1) + " ==="@),
                ],
                next: NextView::Ask(RequestView::Container(ls_command(section_dir(d + 1)))),
            },
        )
    } else {
        (
            d,
            ListPhaseView::Ollama,
            StepView {
                lines: lines.push(LineView::Stdout("\n=== Ollama Models ==="@)),
                next: NextView::Ask(RequestView::Host(tags_command(url))),
            },
        )
    }
}

pub open spec fn list_task_start() -> StepView {
    StepView {
        lines: seq![LineView::Stdout("=== "@ + section_label(0) + " ==="@)],
        next: NextView::Ask(RequestView::Container(ls_command(section_dir(0)))),
    }
}

pub open spec fn list_task_after(url: Seq<char>, d: int, phase: ListPhaseView, r: ReplyView) -> (
    int,
    ListPhaseView,
    StepView,
) {
    match (phase, r) {
        (ListPhaseView::Listing, ReplyView::Output(o)) => if 0 <= d < 3 {
            match o {
                Ok(out) => list_sizes_from(url, d, model_names(split_lines(out)), 0, Seq::empty()),
                Err(_) => list_section_end(url, d, seq![LineView::Stdout("  (empty)"@)]),
            }
        } else {
            (d, phase, unexpected())
        },
        (ListPhaseView::Sizing(names, k), ReplyView::Output(o)) => if 0 <= d < 3 && 0 <= k
            < names.len() {
            list_sizes_from(url, d, names, k + 1, seq![model_file_line(names[k], o)])
        } else {
            (d, phase, unexpected())
        },
        (ListPhaseView::Ollama, ReplyView::Output(o)) => (
            d,
            ListPhaseView::Done,
            StepView {
                lines: match o {
                    Ok(out) => ollama_text_lines(out),
                    Err(_) => seq![LineView::Stdout("  Ollama not available"@)],
                },
                next: NextView::Finish,
            },
        ),
        _ => (d, phase, unexpected()),
    }
}

/// The models a directory listing names.
fn listed_models(out: &str) -> (r: Vec<String>)
    ensures
        r@.map_values(|s: String| s@) == model_names(split_lines(out@)),
{
    let ls = lines(out);
    let ghost all = split_lines(out@);
    let n = ls.len();
    let mut names: Vec<String> = Vec::new();
    let mut i: usize = 0;
    while i < n
        invariant
            n == ls@.len(),
            ls@.map_values(|s: String| s@) == all,
            i <= n,
            names@.map_values(|s: String| s@) == model_names(all.subrange(0, i as int)),
        decreases n - i,
    {
        let t = trim(ls[i].as_str());
        assert(ls@[i as int]@ == all[i as int]);
        assert(all.subrange(0, i + 1).drop_last() =~= all.subrange(0, i as int));
        assert(all.subrange(0, i + 1).last() == all[i as int]);
        if t.unicode_len() > 0 && !starts_with(t, "put_") {
            let ghost before = names@.map_values(|s: String| s@);
            names.push(String::from_str(t));
            assert(names@.map_values(|s: String| s@) =~= before.push(t@));
        }
        i += 1;
    }
    assert(all.subrange(0, n as int) =~= all);
    names
}

impl ListTask {
    fn sizes_from(&mut self, names: Vec<String>, k: usize, lines: Vec<Line>) -> (r: Step)
        requires
            old(self).section < 3,
            k <= names@.len(),
        ensures
            final(self).ollama_url == old(self).ollama_url,
            (final(self).section as int, final(self).phase@, r@) == list_sizes_from(
                old(self).ollama_url@,
                old(self).section as int,
                names@.map_values(|s: String| s@),
                k as int,
                lines_view(lines@),
            ),
    {
        if k < names.len() {
            let cmd = cat3("du -h ", dir_of(self.section), "/");
            let mut cmd = cmd;
            cmd.append(names[k].as_str());
            cmd.append(" 2>/dev/null");
            assert(names@.map_values(|s: String| s@)[k as int] == names@[k as int]@);
            self.phase = ListPhase::Sizing { names, k };
            step(lines, Next::Ask(Request::Container(cmd)))
        } else {
            self.section_end(lines)
        }
    }

    fn section_end(&mut self, lines: Vec<Line>) -> (r: Step)
        requires
            old(self).section < 3,
        ensures
            final(self).ollama_url == old(self).ollama_url,
            (final(self).section as int, final(self).phase@, r@) == list_section_end(
                old(self).ollama_url@,
                old(self).section as int,
                lines_view(lines@),
            ),
    {
        let mut lines = lines;
        let ghost before = lines_view(lines@);
        if self.section < 2 {
            self.section = self.section + 1;
            say(&mut lines, String::new());
            say(&mut lines, cat3("=== ", label_of(self.section), " ==="));
            self.phase = ListPhase::Listing;
            let cmd = cat3("ls -1S ", dir_of(self.section), " 2>/dev/null");
            proof {
                reveal_strlit("");
            }
            assert(""@ =~= Seq::<char>::empty());
            assert(lines_view(lines@) =~= before + seq![
                LineView::Stdout(""@),
                LineView::Stdout("=== "@ + section_label(self.section as int) + " ==="@),
            ]);
            step(lines, Next::Ask(Request::Container(cmd)))
        } else {
            say(&mut lines, String::from_str("\n=== Ollama Models ==="));
            self.phase = ListPhase::Ollama;
            let cmd = cat3("curl -s ", self.ollama_url.as_str(), "/api/tags 2>/dev/null");
            step(lines, Next::Ask(Request::Host(cmd)))
        }
    }

    pub fn start(ollama_url: String) -> (r: (ListTask, Step))
        ensures
            r.0.ollama_url == ollama_url,
            r.0.section == 0,
            r.0.phase@ == ListPhaseView::Listing,
            r.1@ == list_task_start(),
    {
        let mut lines: Vec<Line> = Vec::new();
        say(&mut lines, cat3("=== ", label_of(0), " ==="));
        let cmd = cat3("ls -1S ", dir_of(0), " 2>/dev/null");
        let s = step(lines, Next::Ask(Request::Container(cmd)));
        assert(s@.lines =~= list_task_start().lines);
        (ListTask { ollama_url, section: 0, phase: ListPhase::Listing }, s)
    }

    pub fn resume(&mut self, reply: Reply) -> (r: Step)
        ensures
            final(self).ollama_url == old(self).ollama_url,
            (final(self).section as int, final(self).phase@, r@) == list_task_after(
                old(self).ollama_url@,
                old(self).section as int,
                old(self).phase@,
                reply@,
            ),
    {
        let mut phase = ListPhase::Done;
        std::mem::swap(&mut phase, &mut self.phase);
        let mut lines: Vec<Line> = Vec::new();
        match phase {
            ListPhase::Listing => {
                let o = match reply {
                    Reply::Output(o) => o,
                    _ => {
                        self.phase = ListPhase::Listing;
                        return unexpected_step();
                    },
                };
                if self.section >= 3 {
                    self.phase = ListPhase::Listing;
                    return unexpected_step();
                }
                match o {
                    Ok(out) => {
                        let names = listed_models(out.as_str());
                        assert(lines_view(lines@) =~= Seq::<LineView>::empty());
                        self.sizes_from(names, 0, lines)
                    },
                    Err(_) => {
                        say(&mut lines, String::from_str("  (empty)"));
                        assert(lines_view(lines@) =~= seq![LineView::Stdout("  (empty)"@)]);
                        self.section_end(lines)
                    },
                }
            },
            ListPhase::Sizing { names, k } => {
                let o = match reply {
                    Reply::Output(o) => o,
                    _ => {
                        self.phase = ListPhase::Sizing { names, k };
                        return unexpected_step();
                    },
                };
                if self.section >= 3 || k >= names.len() {
                    self.phase = ListPhase::Sizing { names, k };
                    return unexpected_step();
                }
                let line = match &o {
                    Ok(out) => {
                        let mut t = cat3("  ", names[k].as_str(), " (");
                        t.append(before_first_char(trim(out.as_str()), '\t'));
                        t.append(")");
                        t
                    },
                    Err(_) => cat("  ", names[k].as_str()),
                };
                say(&mut lines, line);
                assert(names@.map_values(|s: String| s@)[k as int] == names@[k as int]@);
                assert(lines_view(lines@) =~= seq![
                    model_file_line(names@[k as int]@, crate::session::result_view(o)),
                ]);
                self.sizes_from(names, k + 1, lines)
            },
            ListPhase::Ollama => {
                let o = match reply {
                    Reply::Output(o) => o,
                    _ => {
                        self.phase = ListPhase::Ollama;
                        return unexpected_step();
                    },
                };
                match o {
                    Ok(out) => {
                        lines = ollama_reply_lines(out.as_str());
                    },
                    Err(_) => {
                        say(&mut lines, String::from_str("  Ollama not available"));
                    },
                }
                let s = step(lines, Next::Finish);
                assert(s@.lines =~= list_task_after(
                    old(self).ollama_url@,
                    old(self).section as int,
                    old(self).phase@,
                    reply@,
                ).2.lines);
                s
            },
            ListPhase::Done => {
                unexpected_step()
            },
        }
    }
}

// ---------------------------------------------------------------- pull

/// The command that downloads `url` into the container's `remote` path,
/// through the ComfyUI process's root directory on the host.
pub open spec fn download_command(remote: Seq<char>, url: Seq<char>) -> Seq<char> {
    "PID=$(pgrep -f 'comfyui.*main.py' | head -1) && curl -L -o /proc/$PID/root"@ + remote + " '"@
        + url + "'"@
}

/// The command that shows the downloaded file.
pub open spec fn check_command(remote: Seq<char>) -> Seq<char> {
    "PID=$(pgrep -f 'comfyui.*main.py' | head -1) && ls -lh /proc/$PID/root"@ + remote
}

/// `model pull`: download a model file, then show it.
pub struct PullTask {
    /// The file's path in the container.
    pub remote: String,
    /// 0: downloading; 1: showing; 2: done.
    pub stage: u8,
}

pub open spec fn pull_task_start(url: Seq<char>, to: Seq<char>) -> StepView {
    StepView {
        lines: seq![
            LineView::Stdout("downloading "@ + url + " -> models/"@ + to),
            LineView::Stdout("  downloading..."@),
        ],
        next: NextView::Ask(
            RequestView::Host(download_command("/opt/comfyui/models/"@ + to, url)),
        ),
    }
}

pub open spec fn pull_task_after(remote: Seq<char>, stage: u8, r: ReplyView) -> (u8, StepView) {
    match r {
        ReplyView::Output(o) => if stage == 0 {
            match o {
                Ok(_) => (
                    1,
                    StepView {
                        lines: Seq::empty(),
                        next: NextView::Ask(RequestView::Host(check_command(remote))),
                    },
                ),
                Err(e) => (
                    2,
                    StepView { lines: seq![LineView::Stderr("  FAILED: "@ + e)], next: NextView::Finish },
                ),
            }
        } else if stage == 1 {
            (
                2,
                StepView {
                    lines: seq![
                        match o {
                            Ok(out) => LineView::Stdout("  done: "@ + trimmed(out)),
                            Err(_) => LineView::Stdout("  done"@),
                        },
                    ],
                    next: NextView::Finish,
                },
            )
        } else {
            (stage, unexpected())
        },
        _ => (stage, unexpected()),
    }
}

impl PullTask {
    pub fn start(url: &str, to: &str) -> (r: (PullTask, Step))
        ensures
            r.0.remote@ == "/opt/comfyui/models/"@ + to@,
            r.0.stage == 0,
            r.1@ == pull_task_start(url@, to@),
    {
        let mut lines: Vec<Line> = Vec::new();
        let mut first = cat3("downloading ", url, " -> models/");
        first.append(to);
        say(&mut lines, first);
        let remote = cat("/opt/comfyui/models/", to);
        let mut cmd = cat(
            "PID=$(pgrep -f 'comfyui.*main.py' | head -1) && curl -L -o /proc/$PID/root",
            remote.as_str(),
        );
        cmd.append(" '");
        cmd.append(url);
        cmd.append("'");
        say(&mut lines, String::from_str("  downloading..."));
        let s = step(lines, Next::Ask(Request::Host(cmd)));
        assert(s@.lines =~= pull_task_start(url@, to@).lines);
        (PullTask { remote, stage: 0 }, s)
    }

    pub fn resume(&mut self, reply: Reply) -> (r: Step)
        ensures
            final(self).remote == old(self).remote,
            (final(self).stage, r@) == pull_task_after(old(self).remote@, old(self).stage, reply@),
    {
        let o = match reply {
            Reply::Output(o) => o,
            _ => {
                return unexpected_step();
            },
        };
        let mut lines: Vec<Line> = Vec::new();
        if self.stage == 0 {
            match &o {
                Ok(_) => {
                    self.stage = 1;
                    let cmd = cat(
                        "PID=$(pgrep -f 'comfyui.*main.py' | head -1) && ls -lh /proc/$PID/root",
                        self.remote.as_str(),
                    );
                    let s = step(lines, Next::Ask(Request::Host(cmd)));
                    assert(s@.lines =~= Seq::<LineView>::empty());
                    s
                },
                Err(e) => {
                    self.stage = 2;
                    warn(&mut lines, cat("  FAILED: ", e.as_str()));
                    let s = step(lines, Next::Finish);
                    assert(s@.lines =~= seq![LineView::Stderr("  FAILED: "@ + e@)]);
                    s
                },
            }
        } else if self.stage == 1 {
            self.stage = 2;
            match &o {
                Ok(out) => say(&mut lines, cat("  done: ", trim(out.as_str()))),
                Err(_) => say(&mut lines, String::from_str("  done")),
            }
            let s = step(lines, Next::Finish);
            assert(s@.lines =~= pull_task_after(old(self).remote@, 1, reply@).1.lines);
            s
        } else {
            unexpected_step()
        }
    }
}

// ---------------------------------------------------------------- remove

/// `model remove`: delete a model file.
pub struct RemoveModelTask {
    pub done: bool,
}

pub open spec fn remove_model_start(path: Seq<char>) -> StepView {
    StepView {
        lines: seq![LineView::Stdout("removing "@ + model_path(path))],
        next: NextView::Ask(RequestView::Container("rm -f "@ + model_path(path))),
    }
}

pub open spec fn remove_model_after(done: bool, r: ReplyView) -> (bool, StepView) {
    match r {
        ReplyView::Output(o) => if !done {
            (
                true,
                StepView {
                    lines: seq![
                        match o {
                            Ok(_) => LineView::Stdout("  removed"@),
                            Err(e) => LineView::Stderr("  FAILED: "@ + e),
                        },
                    ],
                    next: NextView::Finish,
                },
            )
        } else {
            (done, unexpected())
        },
        _ => (done, unexpected()),
    }
}

impl RemoveModelTask {
    pub fn start(path: &str) -> (r: (RemoveModelTask, Step))
        ensures
            !r.0.done,
            r.1@ == remove_model_start(path@),
    {
        let remote = remote_model_path(path);
        let mut lines: Vec<Line> = Vec::new();
        say(&mut lines, cat("removing ", remote.as_str()));
        let cmd = cat("rm -f ", remote.as_str());
        let s = step(lines, Next::Ask(Request::Container(cmd)));
        assert(s@.lines =~= remove_model_start(path@).lines);
        (RemoveModelTask { done: false }, s)
    }

    pub fn resume(&mut self, reply: Reply) -> (r: Step)
        ensures
            (final(self).done, r@) == remove_model_after(old(self).done, reply@),
    {
        let o = match reply {
            Reply::Output(o) => o,
            _ => {
                return unexpected_step();
            },
        };
        if self.done {
            return unexpected_step();
        }
        self.done = true;
        let mut lines: Vec<Line> = Vec::new();
        match &o {
            Ok(_) => say(&mut lines, String::from_str("  removed")),
            Err(e) => warn(&mut lines, cat("  FAILED: ", e.as_str())),
        }
        let s = step(lines, Next::Finish);
        assert(s@.lines =~= remove_model_after(false, reply@).1.lines);
        s
    }
}

// ---------------------------------------------------------------- session

/// A model command under way.
pub enum ModelSession {
    List(ListTask),
    Pull(PullTask),
    Remove(RemoveModelTask),
}

/// `session` and its first step are how `cmd` starts, with Ollama at `url`.
pub open spec fn model_started(cmd: ModelCmd, url: Seq<char>, session: ModelSession, first: StepView) -> bool {
    match cmd {
        ModelCmd::List => session matches ModelSession::List(t) && t.ollama_url@ == url
            && t.section == 0 && t.phase@ == ListPhaseView::Listing && first == list_task_start(),
        ModelCmd::Pull { url: from, to } => session matches ModelSession::Pull(t) && t.remote@
            == "/opt/comfyui/models/"@ + to@ && t.stage == 0 && first == pull_task_start(
            from@,
            to@,
        ),
        ModelCmd::Remove { path } => session matches ModelSession::Remove(t) && !t.done && first
            == remove_model_start(path@),
    }
}

/// `after` and `s` are how `before` goes on from reply `r`.
pub open spec fn model_resumed(before: ModelSession, after: ModelSession, r: ReplyView, s: StepView) -> bool {
    match before {
        ModelSession::List(a) => after matches ModelSession::List(b) && b.ollama_url
            == a.ollama_url && (b.section as int, b.phase@, s) == list_task_after(
            a.ollama_url@,
            a.section as int,
            a.phase@,
            r,
        ),
        ModelSession::Pull(a) => after matches ModelSession::Pull(b) && b.remote == a.remote && (
        b.stage, s) == pull_task_after(a.remote@, a.stage, r),
        ModelSession::Remove(a) => after matches ModelSession::Remove(b) && (b.done, s)
            == remove_model_after(a.done, r),
    }
}

/// Starts model command `cmd` against the server of the default settings.
pub fn run(cmd: ModelCmd) -> (r: (ModelSession, Step))
    ensures
        model_started(cmd, "http://10.0.60.1:11434"@, r.0, r.1@),
{
    let config = ServerConfig::default();
    match cmd {
        ModelCmd::List => {
            let (t, s) = ListTask::start(config.ollama_url);
            (ModelSession::List(t), s)
        },
        ModelCmd::Pull { url, to } => {
            let (t, s) = PullTask::start(url.as_str(), to.as_str());
            (ModelSession::Pull(t), s)
        },
        ModelCmd::Remove { path } => {
            let (t, s) = RemoveModelTask::start(path.as_str());
            (ModelSession::Remove(t), s)
        },
    }
}

impl ModelSession {
    /// Takes the reply to the last request and gives the next step.
    pub fn resume(&mut self, reply: Reply) -> (r: Step)
        ensures
            model_resumed(*old(self), *final(self), reply@, r@),
    {
        match self {
            ModelSession::List(t) => t.resume(reply),
            ModelSession::Pull(t) => t.resume(reply),
            ModelSession::Remove(t) => t.resume(reply),
        }
    }
}

/// The model listing names no blank line and no `put_` placeholder, and each
/// name it lists is a trimmed line of the directory listing.
pub proof fn lemma_model_names_are_models(ls: Seq<Seq<char>>)
    ensures
        forall|i: int|
            0 <= i < model_names(ls).len() ==> is_model_name(#[trigger] model_names(ls)[i])
                && exists|j: int| 0 <= j < ls.len() && model_names(ls)[i] == trimmed(ls[j]),
    decreases ls.len(),
{
    if ls.len() > 0 {
        let init = ls.drop_last();
        lemma_model_names_are_models(init);
        assert forall|i: int| 0 <= i < model_names(ls).len() implies is_model_name(
            #[trigger] model_names(ls)[i],
        ) && exists|j: int| 0 <= j < ls.len() && model_names(ls)[i] == trimmed(ls[j]) by {
            if i < model_names(init).len() {
                assert(model_names(ls)[i] == model_names(init)[i]);
                let j = choose|j: int| 0 <= j < init.len() && model_names(init)[i] == trimmed(init[j]);
                assert(ls[j] == init[j]);
            } else {
                assert(model_names(ls)[i] == trimmed(ls[ls.len() - 1]));
            }
        }
    }
}

/// Where a model listing stands, as a rank that falls with each step:
/// sections left, then the phase, then model files left to size.
pub open spec fn list_rank(d: int, phase: ListPhaseView) -> (int, int, int) {
    match phase {
        ListPhaseView::Listing => (3 - d, 2, 0),
        ListPhaseView::Sizing(names, k) => (3 - d, 1, names.len() - k),
        ListPhaseView::Ollama => (0, 1, 0),
        ListPhaseView::Done => (0, 0, 0),
    }
}

/// Every step of `model list` that asks for more work lowers its rank in
/// lexicographic order, and ranks are bounded below, so the listing ends.
pub proof fn lemma_model_list_ends(url: Seq<char>, d: int, phase: ListPhaseView, r: ReplyView)
    requires
        0 <= d < 3,
    ensures
        ({
            let (d2, p2, s) = list_task_after(url, d, phase, r);
            let (a, b) = (list_rank(d2, p2), list_rank(d, phase));
            s.next is Ask ==> {
                &&& a.0 >= 0 && a.2 >= 0
                &&& (a.0 < b.0 || (a.0 == b.0 && a.1 < b.1) || (a.0 == b.0 && a.1 == b.1 && a.2 < b.2))
            }
        }),
{
}

/// The model directory that section `d` of the listing reads.
pub open spec fn listed_dir(d: int) -> Seq<char> {
    if d == 0 {
        "/opt/comfyui/models/checkpoints"@
    } else if d == 1 {
        "/opt/comfyui/models/unet"@
    } else {
        "/opt/comfyui/models/loras"@
    }
}

/// `model list` asks the size of a file in the directory whose listing named
/// it: section `d` is listed with `ls` of its directory, and after that
/// listing, and after each size, the next size asked for is that of the next
/// listed name in the same directory.
pub proof fn lemma_sizes_asked_in_listed_directory(
    url: Seq<char>,
    d: int,
    names: Seq<Seq<char>>,
    k: int,
    out: Seq<char>,
    o: Result<Seq<char>, Seq<char>>,
)
    requires
        0 <= d < 3,
        0 <= k,
    ensures
        ({
            let du = |n: Seq<char>|
                NextView::Ask(
                    RequestView::Container("du -h "@ + listed_dir(d) + "/"@ + n + " 2>/dev/null"@),
                );
            &&& d == 0 ==> list_task_start().next == NextView::Ask(
                RequestView::Container("ls -1S "@ + listed_dir(0) + " 2>/dev/null"@),
            )
            &&& d > 0 ==> list_section_end(url, d - 1, Seq::empty()).2.next == NextView::Ask(
                RequestView::Container("ls -1S "@ + listed_dir(d) + " 2>/dev/null"@),
            )
            &&& k < names.len() ==> list_sizes_from(url, d, names, k, Seq::empty()).2.next == du(
                names[k],
            )
            &&& ({
                let listed = model_names(split_lines(out));
                let (d2, p2, s) = list_task_after(
                    url,
                    d,
                    ListPhaseView::Listing,
                    ReplyView::Output(Ok(out)),
                );
                listed.len() > 0 ==> d2 == d && p2 == ListPhaseView::Sizing(listed, 0) && s.next
                    == du(listed[0])
            })
            &&& ({
                let (d2, p2, s) = list_task_after(
                    url,
                    d,
                    ListPhaseView::Sizing(names, k),
                    ReplyView::Output(o),
                );
                k + 1 < names.len() ==> d2 == d && p2 == ListPhaseView::Sizing(names, k + 1)
                    && s.next == du(names[k + 1]) && s.lines == seq![
                    match o {
                        Ok(r) => LineView::Stdout("  "@ + names[k] + " ("@ + du_size(r) + ")"@),
                        Err(_) => LineView::Stdout("  "@ + names[k]),
                    },
                ]
            })
        }),
{
}

/// `model list` lists its sections in order: after the last file of
/// section `d` it opens section `d + 1` with an empty line and its header and
/// lists that section's directory; after the LoRAs it asks Ollama for its
/// models, and then prints them, or `Ollama not available` where the query
/// failed, and ends.
pub proof fn lemma_model_list_sections_in_order(
    url: Seq<char>,
    d: int,
    lines: Seq<LineView>,
    o: Result<Seq<char>, Seq<char>>,
)
    requires
        0 <= d < 3,
    ensures
        ({
            let (d2, p2, s) = list_section_end(url, d, lines);
            if d < 2 {
                &&& d2 == d + 1
                &&& p2 == ListPhaseView::Listing
                &&& s.lines == lines + seq![
                    LineView::Stdout(""@),
                    LineView::Stdout(
                        "=== "@ + (if d == 0 {
                            "UNet"@
                        } else {
                            "LoRA"@
                        }) + " ==="@,
                    ),
                ]
                &&& s.next == NextView::Ask(
                    RequestView::Container("ls -1S "@ + listed_dir(d + 1) + " 2>/dev/null"@),
                )
            } else {
                &&& p2 == ListPhaseView::Ollama
                &&& s.lines == lines.push(LineView::Stdout("\n=== Ollama Models ==="@))
                &&& s.next == NextView::Ask(
                    RequestView::Host("curl -s "@ + url + "/api/tags 2>/dev/null"@),
                )
            }
        }),
        ({
            let (_, p2, s) = list_task_after(url, d, ListPhaseView::Ollama, ReplyView::Output(o));
            &&& p2 == ListPhaseView::Done
            &&& s.next == NextView::Finish
            &&& s.lines == match o {
                Ok(out) => ollama_text_lines(out),
                Err(_) => seq![LineView::Stdout("  Ollama not available"@)],
            }
        }),
        list_task_start().lines == seq![LineView::Stdout("=== Checkpoints ==="@)],
{
    reveal_strlit("=== ");
    reveal_strlit(" ===");
    reveal_strlit("=== Checkpoints ===");
    reveal_strlit("Checkpoints");
    assert("=== "@ + "Checkpoints"@ + " ==="@ =~= "=== Checkpoints ==="@);
}

/// `model pull` shows the very file it downloaded, and only after the
/// download succeeded: it downloads `url` to `/opt/comfyui/models/<to>` in the
/// container (through the ComfyUI process's root), then lists that same path;
/// a failed download is reported and nothing more is asked.
pub proof fn lemma_pull_shows_what_it_downloaded(
    url: Seq<char>,
    to: Seq<char>,
    o: Result<Seq<char>, Seq<char>>,
)
    ensures
        ({
            let remote = "/opt/comfyui/models/"@ + to;
            let (stage, s) = pull_task_after(remote, 0, ReplyView::Output(o));
            &&& pull_task_start(url, to).next == NextView::Ask(
                RequestView::Host(
                    "PID=$(pgrep -f 'comfyui.*main.py' | head -1) && curl -L -o /proc/$PID/root"@
                        + remote + " '"@ + url + "'"@,
                ),
            )
            &&& match o {
                Ok(_) => stage == 1 && s.lines.len() == 0 && s.next == NextView::Ask(
                    RequestView::Host(
                        "PID=$(pgrep -f 'comfyui.*main.py' | head -1) && ls -lh /proc/$PID/root"@
                            + remote,
                    ),
                ),
                Err(e) => stage == 2 && s.lines == seq![LineView::Stderr("  FAILED: "@ + e)]
                    && s.next == NextView::Finish,
            }
        }),
{
}

/// `model remove` deletes the file under the models directory that it
/// announces, and reports `removed` exactly when the deletion succeeded.
pub proof fn lemma_remove_model_reports_outcome(path: Seq<char>, o: Result<Seq<char>, Seq<char>>)
    ensures
        remove_model_start(path).lines == seq![LineView::Stdout("removing "@ + model_path(path))],
        remove_model_start(path).next == NextView::Ask(
            RequestView::Container("rm -f "@ + model_path(path)),
        ),
        remove_model_after(false, ReplyView::Output(o)).1 == (StepView {
            lines: seq![
                match o {
                    Ok(_) => LineView::Stdout("  removed"@),
                    Err(e) => LineView::Stderr("  FAILED: "@ + e),
                },
            ],
            next: NextView::Finish,
        }),
{
}

} // verus!
