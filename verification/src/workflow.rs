//! The workflow commands: deploying workflow files to the server and listing them.

use vstd::prelude::*;
use vstd::string::*;
use crate::config::ServerConfig;
use crate::paths::{
    dir_name_of, extension_of, file_name_of, join_path, path_dir_name, path_extension,
    path_file_name, path_join,
};
use crate::server::{unexpected, unexpected_step};
use crate::session::{
    CopyOutcome, CopyOutcomeView, Line, LineView, Next, NextView, Reply, ReplyView, Request,
    RequestView, Step, StepView, cat, cat3, lines_view, say, step, warn,
};
use crate::text::{
    all_ws, lemma_trimmed_empty_iff_blank, lines, replace, replaced, split_lines, trim, trimmed,
};

verus! {

/// A workflow command, as given on the command line.
pub enum WorkflowCmd {
    /// Deploy the workflow file at `path` to the server.
    Deploy { path: String },
    /// List the workflows on the server.
    List,
    /// Deploy every local workflow file.
    Sync,
}

/// The workflows directory on the server, with a trailing `/`.
pub open spec fn workflows_root() -> Seq<char> {
    "/opt/comfyui/user/default/workflows/"@
}

/// The subfolder a workflow file is deployed to: the name of the directory it
/// lies in, `default` where there is none.
pub open spec fn subfolder_of(local: Seq<char>) -> Seq<char> {
    match path_dir_name(local) {
        Some(n) => n,
        None => "default"@,
    }
}

/// The subfolder a workflow file is deployed to.
pub fn subfolder(local: &str) -> (r: String)
    ensures
        r@ == subfolder_of(local@),
{
    match dir_name_of(local) {
        Some(n) => n,
        None => String::from_str("default"),
    }
}

/// Where a workflow file with name `file_name`, found at `local`, is deployed.
pub open spec fn deployed_path(local: Seq<char>, file_name: Seq<char>) -> Seq<char> {
    workflows_root() + subfolder_of(local) + "/"@ + file_name
}

/// Why a deployment stops where the workflow path has no file name.
pub open spec fn no_file_name() -> Seq<char> {
    "the workflow path has no file name"@
}

// ---------------------------------------------------------------- deploy

/// `workflow deploy`: find the file, make its directory on the server, copy
/// it to the host, then push it into the container.
pub struct DeployTask {
    pub manifest: String,
    pub path: String,
    pub container_id: String,
    /// The local file, once found.
    pub local: String,
    pub file_name: String,
    /// Where it goes in the container.
    pub remote_path: String,
    /// 0, 1: looking for the file (under the project, then as given);
    /// 2: making the directory; 3: copying; 4: pushing; 5: done.
    pub stage: u8,
}

pub struct DeployView {
    pub manifest: Seq<char>,
    pub path: Seq<char>,
    pub container_id: Seq<char>,
    pub local: Seq<char>,
    pub file_name: Seq<char>,
    pub remote_path: Seq<char>,
    pub stage: u8,
}

impl View for DeployTask {
    type V = DeployView;

    open spec fn view(&self) -> DeployView {
        DeployView {
            manifest: self.manifest@,
            path: self.path@,
            container_id: self.container_id@,
            local: self.local@,
            file_name: self.file_name@,
            remote_path: self.remote_path@,
            stage: self.stage,
        }
    }
}

pub open spec fn deploy_start(manifest: Seq<char>, path: Seq<char>, container_id: Seq<char>) -> (
    DeployView,
    StepView,
) {
    (
        DeployView {
            manifest,
            path,
            container_id,
            local: Seq::empty(),
            file_name: Seq::empty(),
            remote_path: Seq::empty(),
            stage: 0,
        },
        StepView {
            lines: Seq::empty(),
            next: NextView::Ask(RequestView::Exists(path_join(manifest, path))),
        },
    )
}

/// With the file found at `local`, make its directory on the server.
pub open spec fn deploy_prepare(v: DeployView, local: Seq<char>) -> (DeployView, StepView) {
    match path_file_name(local) {
        None => (
            DeployView { local, stage: 5, ..v },
            StepView { lines: Seq::empty(), next: NextView::Abort(no_file_name()) },
        ),
        Some(f) => (
            DeployView { local, file_name: f, remote_path: deployed_path(local, f), stage: 2, ..v },
            StepView {
                lines: Seq::empty(),
                next: NextView::Ask(
                    RequestView::Container("mkdir -p "@ + workflows_root() + subfolder_of(local)),
                ),
            },
        ),
    }
}

/// The line and end of a deployment that stops with an error.
pub open spec fn deploy_fails(v: DeployView, msg: Seq<char>) -> (DeployView, StepView) {
    (
        DeployView { stage: 5, ..v },
        StepView { lines: seq![LineView::Stderr(msg)], next: NextView::Finish },
    )
}

pub open spec fn deploy_after(v: DeployView, r: ReplyView) -> (DeployView, StepView) {
    match r {
        ReplyView::Found(found) => if v.stage == 0 {
            if found {
                deploy_prepare(v, path_join(v.manifest, v.path))
            } else {
                (
                    DeployView { stage: 1, ..v },
                    StepView {
                        lines: Seq::empty(),
                        next: NextView::Ask(RequestView::Exists(v.path)),
                    },
                )
            }
        } else if v.stage == 1 {
            if found {
                deploy_prepare(v, v.path)
            } else {
                deploy_fails(v, "워크플로우 파일을 찾을 수 없습니다: "@ + v.path)
            }
        } else {
            (v, unexpected())
        },
        ReplyView::Output(o) => if v.stage == 2 {
            match o {
                Ok(_) => (
                    DeployView { stage: 3, ..v },
                    StepView {
                        lines: Seq::empty(),
                        next: NextView::Ask(
                            RequestView::Copy(v.local, "root@192.168.2.60:/tmp/"@ + v.file_name),
                        ),
                    },
                ),
                Err(e) => deploy_fails(v, "디렉토리 생성 실패: "@ + e),
            }
        } else if v.stage == 4 {
            match o {
                Ok(_) => (
                    DeployView { stage: 5, ..v },
                    StepView {
                        lines: seq![
                            LineView::Stdout("deployed: "@ + v.path + " -> "@ + v.remote_path),
                        ],
                        next: NextView::Finish,
                    },
                ),
                Err(e) => deploy_fails(v, "컨테이너 복사 실패: "@ + e + " — 대체 시도 중..."@),
            }
        } else {
            (v, unexpected())
        },
        ReplyView::Copied(c) => if v.stage == 3 {
            match c {
                CopyOutcomeView::Done => (
                    DeployView { stage: 4, ..v },
                    StepView {
                        lines: Seq::empty(),
                        next: NextView::Ask(
                            RequestView::Host(
                                "pct push "@ + v.container_id + " /tmp/"@ + v.file_name + " "@
                                    + v.remote_path,
                            ),
                        ),
                    },
                ),
                CopyOutcomeView::Failed(err) => deploy_fails(v, "scp 실패: "@ + trimmed(err)),
                CopyOutcomeView::NotStarted(e) => deploy_fails(v, "scp 실행 실패: "@ + e),
            }
        } else {
            (v, unexpected())
        },
        _ => (v, unexpected()),
    }
}

impl DeployTask {
    pub fn start(manifest: &str, path: &str, container_id: &str) -> (r: (DeployTask, Step))
        ensures
            (r.0@, r.1@) == deploy_start(manifest@, path@, container_id@),
    {
        let t = DeployTask {
            manifest: String::from_str(manifest),
            path: String::from_str(path),
            container_id: String::from_str(container_id),
            local: String::new(),
            file_name: String::new(),
            remote_path: String::new(),
            stage: 0,
        };
        let lines: Vec<Line> = Vec::new();
        let s = step(lines, Next::Ask(Request::Exists(join_path(manifest, path))));
        assert(s@.lines =~= Seq::<LineView>::empty());
        (t, s)
    }

    fn prepare(&mut self, local: String) -> (r: Step)
        ensures
            (final(self)@, r@) == deploy_prepare(old(self)@, local@),
    {
        let lines: Vec<Line> = Vec::new();
        assert(lines_view(lines@) =~= Seq::<LineView>::empty());
        match file_name_of(local.as_str()) {
            None => {
                self.local = local;
                self.stage = 5;
                step(lines, Next::Abort(String::from_str("the workflow path has no file name")))
            },
            Some(f) => {
                let sub = subfolder(local.as_str());
                let remote_dir = cat("/opt/comfyui/user/default/workflows/", sub.as_str());
                self.remote_path = cat3(remote_dir.as_str(), "/", f.as_str());
                self.file_name = f;
                self.local = local;
                self.stage = 2;
                let cmd = cat("mkdir -p ", remote_dir.as_str());
                assert(cmd@ =~= "mkdir -p "@ + workflows_root() + subfolder_of(local@));
                step(lines, Next::Ask(Request::Container(cmd)))
            },
        }
    }

    fn fail(&mut self, msg: String) -> (r: Step)
        ensures
            (final(self)@, r@) == deploy_fails(old(self)@, msg@),
    {
        self.stage = 5;
        let mut lines: Vec<Line> = Vec::new();
        warn(&mut lines, msg);
        let s = step(lines, Next::Finish);
        assert(s@.lines =~= seq![LineView::Stderr(msg@)]);
        s
    }

    pub fn resume(&mut self, reply: Reply) -> (r: Step)
        ensures
            (final(self)@, r@) == deploy_after(old(self)@, reply@),
    {
        let lines: Vec<Line> = Vec::new();
        assert(lines_view(lines@) =~= Seq::<LineView>::empty());
        match reply {
            Reply::Found(found) => {
                if self.stage == 0 {
                    if found {
                        let local = join_path(self.manifest.as_str(), self.path.as_str());
                        self.prepare(local)
                    } else {
                        self.stage = 1;
                        step(lines, Next::Ask(Request::Exists(String::from_str(self.path.as_str()))))
                    }
                } else if self.stage == 1 {
                    if found {
                        let local = String::from_str(self.path.as_str());
                        self.prepare(local)
                    } else {
                        let msg = cat("워크플로우 파일을 찾을 수 없습니다: ", self.path.as_str());
                        self.fail(msg)
                    }
                } else {
                    unexpected_step()
                }
            },
            Reply::Output(o) => {
                if self.stage == 2 {
                    match &o {
                        Ok(_) => {
                            self.stage = 3;
                            let to = cat("root@192.168.2.60:/tmp/", self.file_name.as_str());
                            let from = String::from_str(self.local.as_str());
                            step(lines, Next::Ask(Request::Copy { from, to }))
                        },
                        Err(e) => {
                            let msg = cat("디렉토리 생성 실패: ", e.as_str());
                            self.fail(msg)
                        },
                    }
                } else if self.stage == 4 {
                    match &o {
                        Ok(_) => {
                            self.stage = 5;
                            let mut msg = cat3("deployed: ", self.path.as_str(), " -> ");
                            msg.append(self.remote_path.as_str());
                            let mut lines = lines;
                            say(&mut lines, msg);
                            let s = step(lines, Next::Finish);
                            assert(s@.lines =~= deploy_after(old(self)@, reply@).1.lines);
                            s
                        },
                        Err(e) => {
                            let msg = cat3("컨테이너 복사 실패: ", e.as_str(), " — 대체 시도 중...");
                            self.fail(msg)
                        },
                    }
                } else {
                    unexpected_step()
                }
            },
            Reply::Copied(c) => {
                if self.stage != 3 {
                    return unexpected_step();
                }
                match &c {
                    CopyOutcome::Done => {
                        self.stage = 4;
                        let mut cmd = cat3("pct push ", self.container_id.as_str(), " /tmp/");
                        cmd.append(self.file_name.as_str());
                        cmd.append(" ");
                        cmd.append(self.remote_path.as_str());
                        step(lines, Next::Ask(Request::Host(cmd)))
                    },
                    CopyOutcome::Failed(err) => {
                        let msg = cat("scp 실패: ", trim(err.as_str()));
                        self.fail(msg)
                    },
                    CopyOutcome::NotStarted(e) => {
                        let msg = cat("scp 실행 실패: ", e.as_str());
                        self.fail(msg)
                    },
                }
            },
            _ => unexpected_step(),
        }
    }
}

// ---------------------------------------------------------------- list

/// The listing of the workflow files on the server.
pub open spec fn find_command() -> Seq<char> {
    "find /opt/comfyui/user/default/workflows -name '*.json' -type f 2>/dev/null | sort"@
}

/// The lines listing the workflow files that `find` printed, relative to the
/// workflows directory.
pub open spec fn workflow_lines(out: Seq<char>) -> Seq<LineView> {
    split_lines(out).map_values(
        |l: Seq<char>| LineView::Stdout("  "@ + replaced(trimmed(l), workflows_root(), ""@)),
    )
}

/// `workflow list`: the workflow files on the server.
pub struct ListTask {
    pub done: bool,
}

pub open spec fn list_task_start() -> StepView {
    StepView {
        lines: seq![LineView::Stdout("=== Server Workflows ==="@)],
        next: NextView::Ask(RequestView::Container(find_command())),
    }
}

pub open spec fn list_task_after(done: bool, r: ReplyView) -> (bool, StepView) {
    match r {
        ReplyView::Output(o) => if !done {
            (
                true,
                StepView {
                    lines: match o {
                        Ok(out) => if trimmed(out).len() == 0 {
                            seq![LineView::Stdout("  (none)"@)]
                        } else {
                            workflow_lines(out)
                        },
                        Err(e) => seq![LineView::Stderr("조회 실패: "@ + e)],
                    },
                    next: NextView::Finish,
                },
            )
        } else {
            (done, unexpected())
        },
        _ => (done, unexpected()),
    }
}

/// Appends the lines listing the workflow files that `find` printed.
fn list_workflows(out_lines: &mut Vec<Line>, text: &str)
    ensures
        lines_view(final(out_lines)@) == lines_view(old(out_lines)@) + workflow_lines(text@),
{
    let ls = lines(text);
    let n = ls.len();
    let mut i: usize = 0;
    let ghost all = split_lines(text@);
    let root = "/opt/comfyui/user/default/workflows/";
    while i < n
        invariant
            n == ls@.len(),
            ls@.map_values(|l: String| l@) == all,
            all == split_lines(text@),
            root@ == workflows_root(),
            i <= n,
            lines_view(out_lines@) == lines_view(old(out_lines)@) + all.subrange(0, i as int).map_values(
                |l: Seq<char>| LineView::Stdout("  "@ + replaced(trimmed(l), workflows_root(), ""@)),
            ),
        decreases n - i,
    {
        let t = trim(ls[i].as_str());
        assert(ls[i as int]@ == all[i as int]);
        let shown = replace(t, root, "");
        say(out_lines, cat("  ", shown.as_str()));
        assert(all.subrange(0, i + 1) =~= all.subrange(0, i as int).push(all[i as int]));
        assert(all.subrange(0, i + 1).map_values(
            |l: Seq<char>| LineView::Stdout("  "@ + replaced(trimmed(l), workflows_root(), ""@)),
        ) =~= all.subrange(0, i as int).map_values(
            |l: Seq<char>| LineView::Stdout("  "@ + replaced(trimmed(l), workflows_root(), ""@)),
        ).push(LineView::Stdout("  "@ + replaced(trimmed(all[i as int]), workflows_root(), ""@))));
        i += 1;
    }
    assert(all.subrange(0, n as int) =~= all);
}

impl ListTask {
    pub fn start() -> (r: (ListTask, Step))
        ensures
            !r.0.done,
            r.1@ == list_task_start(),
    {
        let mut lines: Vec<Line> = Vec::new();
        say(&mut lines, String::from_str("=== Server Workflows ==="));
        let cmd = String::from_str(
            "find /opt/comfyui/user/default/workflows -name '*.json' -type f 2>/dev/null | sort",
        );
        let s = step(lines, Next::Ask(Request::Container(cmd)));
        assert(s@.lines =~= list_task_start().lines);
        (ListTask { done: false }, s)
    }

    pub fn resume(&mut self, reply: Reply) -> (r: Step)
        ensures
            (final(self).done, r@) == list_task_after(old(self).done, reply@),
    {
        let o = match reply {
            Reply::Output(o) => o,
            _ => {
                return unexpected_step();
            },
        };
        if self.done {
            return unexpected_step();
        }
        self.done = true;
        let mut lines: Vec<Line> = Vec::new();
        match &o {
            Ok(out) => {
                if trim(out.as_str()).unicode_len() == 0 {
                    say(&mut lines, String::from_str("  (none)"));
                } else {
                    list_workflows(&mut lines, out.as_str());
                }
            },
            Err(e) => warn(&mut lines, cat("조회 실패: ", e.as_str())),
        }
        let s = step(lines, Next::Finish);
        assert(s@.lines =~= list_task_after(false, reply@).1.lines);
        s
    }
}

// ---------------------------------------------------------------- sync

/// The local workflow directories, in the order they are synchronised.
pub open spec fn sync_dir(d: int) -> Seq<char> {
    if d == 0 {
        "preview"@
    } else if d == 1 {
        "production"@
    } else {
        "video"@
    }
}

fn sync_dir_name(d: u8) -> (r: &'static str)
    requires
        d < 3,
    ensures
        r@ == sync_dir(d as int),
{
    if d == 0 {
        "preview"
    } else if d == 1 {
        "production"
    } else {
        "video"
    }
}

/// Whether a directory entry is a workflow file: its extension is `json`.
pub open spec fn is_workflow_file(entry: Seq<char>) -> bool {
    path_extension(entry) == Some("json"@)
}

/// The first workflow file among `entries` from `k` on; their number where
/// there is none.
pub open spec fn next_workflow(entries: Seq<Seq<char>>, k: int) -> int
    decreases entries.len() - k,
{
    if k < 0 || k >= entries.len() {
        entries.len() as int
    } else if is_workflow_file(entries[k]) {
        k
    } else {
        next_workflow(entries, k + 1)
    }
}

pub enum SyncPhase {
    /// Whether directory `dir` exists was asked.
    Checking,
    /// The entries of directory `dir` were asked for.
    Listing,
    /// `entries[k]` is being deployed.
    Deploying { entries: Vec<String>, k: usize, task: DeployTask },
    Done,
}

pub enum SyncPhaseView {
    Checking,
    Listing,
    Deploying(Seq<Seq<char>>, int, DeployView),
    Done,
}

impl View for SyncPhase {
    type V = SyncPhaseView;

    open spec fn view(&self) -> SyncPhaseView {
        match self {
            SyncPhase::Checking => SyncPhaseView::Checking,
            SyncPhase::Listing => SyncPhaseView::Listing,
            SyncPhase::Deploying { entries, k, task } => SyncPhaseView::Deploying(
                entries@.map_values(|e: String| e@),
                *k as int,
                task@,
            ),
            SyncPhase::Done => SyncPhaseView::Done,
        }
    }
}

/// `workflow sync`: deploy each workflow file of each local workflow directory.
pub struct SyncTask {
    pub manifest: String,
    pub container_id: String,
    /// The directory being dealt with.
    pub dir: u8,
    pub phase: SyncPhase,
}

/// After `lines`, look for directory `d`, or finish after the last one.
pub open spec fn sync_dir_from(manifest: Seq<char>, d: int, lines: Seq<LineView>) -> (
    int,
    SyncPhaseView,
    StepView,
) {
    if d < 3 {
        (
            d,
            SyncPhaseView::Checking,
            StepView {
                lines,
                next: NextView::Ask(RequestView::Exists(path_join(manifest, sync_dir(d)))),
            },
        )
    } else {
        (d, SyncPhaseView::Done, StepView { lines, next: NextView::Finish })
    }
}

/// After `lines`, deploy the next workflow file of directory `d` from entry `k`
/// on, or go on to the next directory.
pub open spec fn sync_scan(
    manifest: Seq<char>,
    container_id: Seq<char>,
    d: int,
    entries: Seq<Seq<char>>,
    k: int,
    lines: Seq<LineView>,
) -> (int, SyncPhaseView, StepView) {
    let j = next_workflow(entries, k);
    if j < entries.len() {
        match path_file_name(entries[j]) {
            None => (d, SyncPhaseView::Done, StepView { lines, next: NextView::Abort(no_file_name()) }),
            Some(f) => {
                let (dv, st) = deploy_start(manifest, sync_dir(d) + "/"@ + f, container_id);
                (
                    d,
                    SyncPhaseView::Deploying(entries, j, dv),
                    StepView { lines: lines + st.lines, next: st.next },
                )
            },
        }
    } else {
        sync_dir_from(manifest, d + 1, lines)
    }
}

pub open spec fn sync_task_start(manifest: Seq<char>) -> (int, SyncPhaseView, StepView) {
    sync_dir_from(manifest, 0, Seq::empty())
}

pub open spec fn sync_task_after(
    manifest: Seq<char>,
    container_id: Seq<char>,
    d: int,
    phase: SyncPhaseView,
    r: ReplyView,
) -> (int, SyncPhaseView, StepView) {
    if !(0 <= d < 3) {
        (d, phase, unexpected())
    } else {
        match (phase, r) {
            (SyncPhaseView::Checking, ReplyView::Found(found)) => if found {
                (
                    d,
                    SyncPhaseView::Listing,
                    StepView {
                        lines: Seq::empty(),
                        next: NextView::Ask(RequestView::ListDir(path_join(manifest, sync_dir(d)))),
                    },
                )
            } else {
                sync_dir_from(manifest, d + 1, Seq::empty())
            },
            (SyncPhaseView::Listing, ReplyView::Entries(entries)) => sync_scan(
                manifest,
                container_id,
                d,
                entries,
                0,
                Seq::empty(),
            ),
            (SyncPhaseView::Deploying(entries, k, dv), _) => if 0 <= k < entries.len() {
                let (dv2, st) = deploy_after(dv, r);
                match st.next {
                    NextView::Finish => sync_scan(manifest, container_id, d, entries, k + 1, st.lines),
                    NextView::Abort(_) => (d, SyncPhaseView::Done, st),
                    NextView::Ask(_) => (d, SyncPhaseView::Deploying(entries, k, dv2), st),
                }
            } else {
                (d, phase, unexpected())
            },
            _ => (d, phase, unexpected()),
        }
    }
}

impl SyncTask {
    fn dir_from(&mut self, d: u8, lines: Vec<Line>) -> (r: Step)
        requires
            d <= 3,
        ensures
            final(self).manifest == old(self).manifest,
            final(self).container_id == old(self).container_id,
            (final(self).dir as int, final(self).phase@, r@) == sync_dir_from(
                old(self).manifest@,
                d as int,
                lines_view(lines@),
            ),
    {
        self.dir = d;
        if d < 3 {
            self.phase = SyncPhase::Checking;
            let local = join_path(self.manifest.as_str(), sync_dir_name(d));
            step(lines, Next::Ask(Request::Exists(local)))
        } else {
            self.phase = SyncPhase::Done;
            step(lines, Next::Finish)
        }
    }

    fn scan(&mut self, entries: Vec<String>, k: usize, lines: Vec<Line>) -> (r: Step)
        requires
            old(self).dir < 3,
            k <= entries@.len(),
        ensures
            final(self).manifest == old(self).manifest,
            final(self).container_id == old(self).container_id,
            (final(self).dir as int, final(self).phase@, r@) == sync_scan(
                old(self).manifest@,
                old(self).container_id@,
                old(self).dir as int,
                entries@.map_values(|e: String| e@),
                k as int,
                lines_view(lines@),
            ),
    {
        let ghost es = entries@.map_values(|e: String| e@);
        let n = entries.len();
        let mut j = k;
        while j < n && !is_workflow(entries[j].as_str())
            invariant
                n == entries@.len(),
                es == entries@.map_values(|e: String| e@),
                k <= j <= n,
                next_workflow(es, k as int) == next_workflow(es, j as int),
            decreases n - j,
        {
            assert(es[j as int] == entries@[j as int]@);
            j += 1;
        }
        assert(next_workflow(es, j as int) == j) by {
            if j < n {
                assert(es[j as int] == entries@[j as int]@);
            }
        }
        if j < n {
            assert(es[j as int] == entries@[j as int]@);
            match file_name_of(entries[j].as_str()) {
                None => {
                    self.phase = SyncPhase::Done;
                    step(lines, Next::Abort(String::from_str("the workflow path has no file name")))
                },
                Some(f) => {
                    let rel = cat3(sync_dir_name(self.dir), "/", f.as_str());
                    let (task, first) = DeployTask::start(
                        self.manifest.as_str(),
                        rel.as_str(),
                        self.container_id.as_str(),
                    );
                    let mut lines = lines;
                    let ghost before = lines_view(lines@);
                    let Step { lines: more, next } = first;
                    let mut more = more;
                    lines.append(&mut more);
                    assert(lines_view(lines@) =~= before + first@.lines);
                    self.phase = SyncPhase::Deploying { entries, k: j, task };
                    step(lines, next)
                },
            }
        } else {
            let d = self.dir + 1;
            self.dir_from(d, lines)
        }
    }

    pub fn start(manifest: String, container_id: String) -> (r: (SyncTask, Step))
        ensures
            r.0.manifest == manifest,
            r.0.container_id == container_id,
            (r.0.dir as int, r.0.phase@, r.1@) == sync_task_start(manifest@),
    {
        let mut t = SyncTask { manifest, container_id, dir: 0, phase: SyncPhase::Done };
        let lines: Vec<Line> = Vec::new();
        assert(lines_view(lines@) =~= Seq::<LineView>::empty());
        let s = t.dir_from(0, lines);
        (t, s)
    }

    pub fn resume(&mut self, reply: Reply) -> (r: Step)
        ensures
            final(self).manifest == old(self).manifest,
            final(self).container_id == old(self).container_id,
            (final(self).dir as int, final(self).phase@, r@) == sync_task_after(
                old(self).manifest@,
                old(self).container_id@,
                old(self).dir as int,
                old(self).phase@,
                reply@,
            ),
    {
        if self.dir >= 3 {
            return unexpected_step();
        }
        let mut phase = SyncPhase::Done;
        std::mem::swap(&mut phase, &mut self.phase);
        let lines: Vec<Line> = Vec::new();
        assert(lines_view(lines@) =~= Seq::<LineView>::empty());
        match phase {
            SyncPhase::Checking => {
                match reply {
                    Reply::Found(found) => {
                        if found {
                            self.phase = SyncPhase::Listing;
                            let local = join_path(self.manifest.as_str(), sync_dir_name(self.dir));
                            step(lines, Next::Ask(Request::ListDir(local)))
                        } else {
                            let d = self.dir + 1;
                            self.dir_from(d, lines)
                        }
                    },
                    _ => {
                        self.phase = SyncPhase::Checking;
                        unexpected_step()
                    },
                }
            },
            SyncPhase::Listing => {
                match reply {
                    Reply::Entries(entries) => self.scan(entries, 0, lines),
                    _ => {
                        self.phase = SyncPhase::Listing;
                        unexpected_step()
                    },
                }
            },
            SyncPhase::Deploying { entries, k, task } => {
                if k >= entries.len() {
                    self.phase = SyncPhase::Deploying { entries, k, task };
                    return unexpected_step();
                }
                let mut task = task;
                let st = task.resume(reply);
                let Step { lines: out, next } = st;
                match next {
                    Next::Finish => self.scan(entries, k + 1, out),
                    Next::Abort(msg) => {
                        self.phase = SyncPhase::Done;
                        step(out, Next::Abort(msg))
                    },
                    Next::Ask(q) => {
                        self.phase = SyncPhase::Deploying { entries, k, task };
                        step(out, Next::Ask(q))
                    },
                }
            },
            SyncPhase::Done => {
                self.phase = SyncPhase::Done;
                unexpected_step()
            },
        }
    }
}

/// Whether a directory entry is a workflow file.
fn is_workflow(entry: &str) -> (r: bool)
    ensures
        r == is_workflow_file(entry@),
{
    match extension_of(entry) {
        Some(e) => crate::text::str_eq(e.as_str(), "json"),
        None => false,
    }
}

// ---------------------------------------------------------------- session

/// A workflow command under way.
pub enum WorkflowSession {
    Deploy(DeployTask),
    List(ListTask),
    Sync(SyncTask),
}

/// `session` and its first step are how `cmd` starts for the project at
/// `manifest`, with the ComfyUI container `container_id`.
pub open spec fn workflow_started(
    cmd: WorkflowCmd,
    manifest: Seq<char>,
    container_id: Seq<char>,
    session: WorkflowSession,
    first: StepView,
) -> bool {
    match cmd {
        WorkflowCmd::Deploy { path } => session matches WorkflowSession::Deploy(t) && (t@, first)
            == deploy_start(manifest, path@, container_id),
        WorkflowCmd::List => session matches WorkflowSession::List(t) && !t.done && first
            == list_task_start(),
        WorkflowCmd::Sync => session matches WorkflowSession::Sync(t) && t.manifest@ == manifest
            && t.container_id@ == container_id && (t.dir as int, t.phase@, first)
            == sync_task_start(manifest),
    }
}

/// `after` and `s` are how `before` goes on from reply `r`.
pub open spec fn workflow_resumed(
    before: WorkflowSession,
    after: WorkflowSession,
    r: ReplyView,
    s: StepView,
) -> bool {
    match before {
        WorkflowSession::Deploy(a) => after matches WorkflowSession::Deploy(b) && (b@, s)
            == deploy_after(a@, r),
        WorkflowSession::List(a) => after matches WorkflowSession::List(b) && (b.done, s)
            == list_task_after(a.done, r),
        WorkflowSession::Sync(a) => after matches WorkflowSession::Sync(b) && b.manifest
            == a.manifest && b.container_id == a.container_id && (b.dir as int, b.phase@, s)
            == sync_task_after(a.manifest@, a.container_id@, a.dir as int, a.phase@, r),
    }
}

/// Starts workflow command `cmd` for the project whose directory is
/// `manifest_dir`, against the server of the default settings.
pub fn run(cmd: WorkflowCmd, manifest_dir: String) -> (r: (WorkflowSession, Step))
    ensures
        workflow_started(cmd, manifest_dir@, "60105"@, r.0, r.1@),
{
    let config = ServerConfig::default();
    match cmd {
        WorkflowCmd::Deploy { path } => {
            let (t, s) = DeployTask::start(
                manifest_dir.as_str(),
                path.as_str(),
                config.container_id.as_str(),
            );
            (WorkflowSession::Deploy(t), s)
        },
        WorkflowCmd::List => {
            let (t, s) = ListTask::start();
            (WorkflowSession::List(t), s)
        },
        WorkflowCmd::Sync => {
            let (t, s) = SyncTask::start(manifest_dir, config.container_id);
            (WorkflowSession::Sync(t), s)
        },
    }
}

impl WorkflowSession {
    /// Takes the reply to the last request and gives the next step.
    pub fn resume(&mut self, reply: Reply) -> (r: Step)
        ensures
            workflow_resumed(*old(self), *final(self), reply@, r@),
    {
        match self {
            WorkflowSession::Deploy(t) => t.resume(reply),
            WorkflowSession::List(t) => t.resume(reply),
            WorkflowSession::Sync(t) => t.resume(reply),
        }
    }
}

// ---------------------------------------------------------------- laws

proof fn lemma_next_workflow(entries: Seq<Seq<char>>, k: int)
    requires
        0 <= k,
    ensures
        k <= next_workflow(entries, k) || next_workflow(entries, k) == entries.len(),
        next_workflow(entries, k) <= entries.len(),
        next_workflow(entries, k) < entries.len() ==> is_workflow_file(
            entries[next_workflow(entries, k)],
        ),
        forall|i: int| k <= i < next_workflow(entries, k) ==> !is_workflow_file(#[trigger] entries[i]),
    decreases entries.len() - k,
{
    if k < entries.len() && !is_workflow_file(entries[k]) {
        lemma_next_workflow(entries, k + 1);
    }
}

/// `workflow sync` deploys only the `.json` entries of a directory, in the
/// order listed, skipping none: the entry it deploys next is the first
/// workflow file from where it stands, and it is deployed as `<dir>/<file name>`.
pub proof fn lemma_sync_deploys_workflow_files(
    manifest: Seq<char>,
    container_id: Seq<char>,
    d: int,
    entries: Seq<Seq<char>>,
    k: int,
    lines: Seq<LineView>,
)
    requires
        0 <= k,
    ensures
        ({
            let (_, phase, _) = sync_scan(manifest, container_id, d, entries, k, lines);
            phase is Deploying ==> {
                let j = phase->Deploying_1;
                &&& phase->Deploying_0 == entries
                &&& k <= j < entries.len()
                &&& is_workflow_file(entries[j])
                &&& forall|i: int| k <= i < j ==> !is_workflow_file(#[trigger] entries[i])
                &&& path_file_name(entries[j]) is Some
                &&& phase->Deploying_2.path == sync_dir(d) + "/"@ + path_file_name(entries[j])->Some_0
            }
        }),
{
    lemma_next_workflow(entries, k);
}

/// A deployed workflow lands in the workflows directory on the server, in the
/// subfolder named after the directory it lay in.
pub proof fn lemma_deploy_lands_in_workflows(v: DeployView, local: Seq<char>)
    ensures
        ({
            let (after, _) = deploy_prepare(v, local);
            after.stage == 2 ==> {
                &&& workflows_root().is_prefix_of(after.remote_path)
                &&& after.remote_path == workflows_root() + subfolder_of(local) + "/"@
                    + after.file_name
                &&& path_file_name(local) == Some(after.file_name)
            }
        }),
{
    let (after, _) = deploy_prepare(v, local);
    if after.stage == 2 {
        assert((workflows_root() + subfolder_of(local) + "/"@ + after.file_name).subrange(
            0,
            workflows_root().len() as int,
        ) =~= workflows_root());
    }
}

/// A deployment copies the file only after its directory was made, and pushes
/// it into the container only after the copy succeeded.
pub proof fn lemma_deploy_order(v: DeployView, r: ReplyView)
    ensures
        ({
            let (after, s) = deploy_after(v, r);
            &&& (s.next is Ask && s.next->Ask_0 is Copy) ==> (v.stage == 2 && r is Output
                && r->Output_0 is Ok)
            &&& (s.next is Ask && s.next->Ask_0 is Host) ==> (v.stage == 3 && r
                == ReplyView::Copied(CopyOutcomeView::Done))
        }),
{
}

/// Every step of a deployment that asks for more work moves it to a later
/// stage, so a deployment asks for at most five requests.
pub proof fn lemma_deploy_ends(v: DeployView, r: ReplyView)
    ensures
        ({
            let (after, s) = deploy_after(v, r);
            s.next is Ask ==> v.stage < after.stage <= 4
        }),
{
}

/// Where a synchronisation stands, as a rank that falls with each step:
/// directories left, then the phase within the directory, then entries left,
/// then the stages left of the deployment under way.
pub open spec fn sync_rank(d: int, phase: SyncPhaseView) -> (int, int, int, int) {
    match phase {
        SyncPhaseView::Checking => (3 - d, 3, 0, 0),
        SyncPhaseView::Listing => (3 - d, 2, 0, 0),
        SyncPhaseView::Deploying(entries, k, dv) => (3 - d, 1, entries.len() - k, 5 - dv.stage),
        SyncPhaseView::Done => (3 - d, 0, 0, 0),
    }
}

/// `a` comes before `b` in lexicographic order.
pub open spec fn rank_below(a: (int, int, int, int), b: (int, int, int, int)) -> bool {
    ||| a.0 < b.0
    ||| a.0 == b.0 && a.1 < b.1
    ||| a.0 == b.0 && a.1 == b.1 && a.2 < b.2
    ||| a.0 == b.0 && a.1 == b.1 && a.2 == b.2 && a.3 < b.3
}

proof fn lemma_scan_rank(
    manifest: Seq<char>,
    container_id: Seq<char>,
    d: int,
    entries: Seq<Seq<char>>,
    k: int,
    lines: Seq<LineView>,
)
    requires
        0 <= d < 3,
        0 <= k <= entries.len(),
    ensures
        ({
            let (d2, p2, s) = sync_scan(manifest, container_id, d, entries, k, lines);
            s.next is Ask ==> ({
                let r = sync_rank(d2, p2);
                &&& r.0 >= 0
                &&& (r.0 < 3 - d || (r.0 == 3 - d && r.1 == 1 && r.2 <= entries.len() - k && r.2 > 0
                    && r.3 == 5))
            })
        }),
{
    lemma_next_workflow(entries, k);
}

/// Every step of `workflow sync` that asks for more work lowers its rank, and
/// ranks are bounded below, so a synchronisation ends.
pub proof fn lemma_sync_ends(
    manifest: Seq<char>,
    container_id: Seq<char>,
    d: int,
    phase: SyncPhaseView,
    r: ReplyView,
)
    requires
        0 <= d <= 3,
        phase matches SyncPhaseView::Deploying(_, _, dv) ==> dv.stage <= 5,
    ensures
        ({
            let (d2, p2, s) = sync_task_after(manifest, container_id, d, phase, r);
            s.next is Ask ==> rank_below(sync_rank(d2, p2), sync_rank(d, phase)) && sync_rank(
                d2,
                p2,
            ).0 >= 0 && sync_rank(d2, p2).2 >= 0 && sync_rank(d2, p2).3 >= 0
        }),
{
    if 0 <= d < 3 {
        match (phase, r) {
            (SyncPhaseView::Listing, ReplyView::Entries(entries)) => {
                lemma_scan_rank(manifest, container_id, d, entries, 0, Seq::empty());
            },
            (SyncPhaseView::Deploying(entries, k, dv), _) => {
                if 0 <= k < entries.len() {
                    let (dv2, st) = deploy_after(dv, r);
                    lemma_deploy_ends(dv, r);
                    if st.next is Finish {
                        lemma_scan_rank(manifest, container_id, d, entries, k + 1, st.lines);
                    }
                }
            },
            _ => {},
        }
    }
}

/// A deployment of a relative path first looks for it under the project
/// directory, `manifest` + `/` + `path`, and, where found there, copies that
/// file to the host's `/tmp`.
pub proof fn lemma_deploy_looks_under_project(
    manifest: Seq<char>,
    path: Seq<char>,
    container_id: Seq<char>,
)
    requires
        manifest.len() > 0,
        manifest.last() != '/',
        path.len() == 0 || path[0] != '/',
    ensures
        ({
            let (v, s) = deploy_start(manifest, path, container_id);
            let (w, t) = deploy_after(v, ReplyView::Found(true));
            &&& s.next == NextView::Ask(RequestView::Exists(manifest + seq!['/'] + path))
            &&& w.stage == 2 ==> w.local == manifest + seq!['/'] + path
        }),
{
}

/// A workflow missing under the project but found at the path as given is
/// deployed from that path: after `Exists(manifest/path)` answers no, the
/// deployment asks whether `path` itself exists; where it does, the file it
/// deploys is `path`, its server directory is made for `path`'s own
/// subfolder, and, once that is made, `path` is what it copies to the host.
pub proof fn lemma_deploy_falls_back_to_given_path(
    manifest: Seq<char>,
    path: Seq<char>,
    container_id: Seq<char>,
    made: Seq<char>,
)
    ensures
        ({
            let (v0, _) = deploy_start(manifest, path, container_id);
            let (v1, s1) = deploy_after(v0, ReplyView::Found(false));
            let (v2, s2) = deploy_after(v1, ReplyView::Found(true));
            let (v3, s3) = deploy_after(v2, ReplyView::Output(Ok(made)));
            let (v4, s4) = deploy_after(v3, ReplyView::Copied(CopyOutcomeView::Done));
            let (v5, s5) = deploy_after(v4, ReplyView::Output(Ok(made)));
            &&& v1.stage == 1
            &&& s1.next == NextView::Ask(RequestView::Exists(path))
            &&& v2.local == path
            &&& (path_file_name(path) matches Some(f) ==> {
                &&& v2.file_name == f
                &&& s2.next == NextView::Ask(
                    RequestView::Container(
                        "mkdir -p "@ + "/opt/comfyui/user/default/workflows/"@ + subfolder_of(path),
                    ),
                )
                &&& v2.remote_path == "/opt/comfyui/user/default/workflows/"@ + subfolder_of(path)
                    + "/"@ + f
                &&& s3.next == NextView::Ask(
                    RequestView::Copy(path, "root@192.168.2.60:/tmp/"@ + f),
                )
                &&& s4.next == NextView::Ask(
                    RequestView::Host(
                        "pct push "@ + container_id + " /tmp/"@ + f + " "@ + v2.remote_path,
                    ),
                )
                &&& s5.lines == seq![LineView::Stdout("deployed: "@ + path + " -> "@ + v2.remote_path)]
                &&& s5.next == NextView::Finish
            })
            &&& (path_file_name(path) is None ==> s2.next == NextView::Abort(no_file_name()))
        }),
{
}

/// The local directory that `workflow sync` deals with `d`-th.
pub open spec fn synced_dir(d: int) -> Seq<char> {
    if d == 0 {
        "preview"@
    } else if d == 1 {
        "production"@
    } else {
        "video"@
    }
}

/// `workflow sync` skips no workflow file and no directory: scanning the
/// entries of directory `d` from `k` on, it deploys a workflow file where one
/// is left (the first, as `<dir>/<file name>`, looking first under the
/// project), and only where none is left goes on to directory `d + 1`
/// (`preview`, `production`, `video`, each looked for under the project) or
/// finishes after the last. A deployment that ends, whether it succeeded or
/// failed, is followed by the scan from `k + 1` in the same directory; a
/// directory that exists is listed, one that does not is passed over.
pub proof fn lemma_sync_visits_every_file(
    manifest: Seq<char>,
    container_id: Seq<char>,
    d: int,
    entries: Seq<Seq<char>>,
    k: int,
    lines: Seq<LineView>,
    dv: DeployView,
    r: ReplyView,
    found: bool,
)
    requires
        0 <= d < 3,
        0 <= k,
    ensures
        ({
            let (d2, phase, s) = sync_scan(manifest, container_id, d, entries, k, lines);
            if exists|i: int| k <= i < entries.len() && is_workflow_file(#[trigger] entries[i]) {
                &&& d2 == d
                &&& phase is Deploying
                &&& ({
                    let j = phase->Deploying_1;
                    let f = path_file_name(entries[j])->Some_0;
                    &&& k <= j < entries.len()
                    &&& is_workflow_file(entries[j])
                    &&& path_file_name(entries[j]) is Some
                    &&& phase->Deploying_2.path == synced_dir(d) + "/"@ + f
                    &&& s.lines == lines
                    &&& s.next == NextView::Ask(
                        RequestView::Exists(path_join(manifest, synced_dir(d) + "/"@ + f)),
                    )
                })
            } else {
                &&& d2 == d + 1
                &&& s.lines == lines
                &&& if d + 1 < 3 {
                    phase == SyncPhaseView::Checking && s.next == NextView::Ask(
                        RequestView::Exists(path_join(manifest, synced_dir(d + 1))),
                    )
                } else {
                    phase == SyncPhaseView::Done && s.next == NextView::Finish
                }
            }
        }),
        ({
            let (dv2, st) = deploy_after(dv, r);
            (0 <= k < entries.len() && st.next == NextView::Finish) ==> sync_task_after(
                manifest,
                container_id,
                d,
                SyncPhaseView::Deploying(entries, k, dv),
                r,
            ) == sync_scan(manifest, container_id, d, entries, k + 1, st.lines)
        }),
        ({
            let (d2, phase, s) = sync_task_after(
                manifest,
                container_id,
                d,
                SyncPhaseView::Checking,
                ReplyView::Found(found),
            );
            if found {
                d2 == d && phase == SyncPhaseView::Listing && s.next == NextView::Ask(
                    RequestView::ListDir(path_join(manifest, synced_dir(d))),
                )
            } else {
                d2 == d + 1 && (d + 1 < 3 ==> s.next == NextView::Ask(
                    RequestView::Exists(path_join(manifest, synced_dir(d + 1))),
                )) && (d + 1 == 3 ==> s.next == NextView::Finish)
            }
        }),
        sync_task_start(manifest).2.next == NextView::Ask(
            RequestView::Exists(path_join(manifest, "preview"@)),
        ),
{
    lemma_next_workflow(entries, k);
    if exists|i: int| k <= i < entries.len() && is_workflow_file(#[trigger] entries[i]) {
        let i = choose|i: int| k <= i < entries.len() && is_workflow_file(#[trigger] entries[i]);
        assert(next_workflow(entries, k) <= i);
    }
}

/// `workflow list` prints `(none)` exactly where `find` succeeded and printed
/// only whitespace, one line per printed path (relative to the workflows
/// directory) where it printed some, and the error where it failed.
pub proof fn lemma_workflow_list_reports_find(o: Result<Seq<char>, Seq<char>>)
    ensures
        ({
            let (done, s) = list_task_after(false, ReplyView::Output(o));
            &&& done
            &&& s.next == NextView::Finish
            &&& s.lines == match o {
                Ok(out) => if all_ws(out) {
                    seq![LineView::Stdout("  (none)"@)]
                } else {
                    split_lines(out).map_values(
                        |l: Seq<char>|
                            LineView::Stdout(
                                "  "@ + replaced(
                                    trimmed(l),
                                    "/opt/comfyui/user/default/workflows/"@,
                                    ""@,
                                ),
                            ),
                    )
                },
                Err(e) => seq![LineView::Stderr("조회 실패: "@ + e)],
            }
        }),
        list_task_start().next == NextView::Ask(
            RequestView::Container(
                "find /opt/comfyui/user/default/workflows -name '*.json' -type f 2>/dev/null | sort"@,
            ),
        ),
{
    if let Ok(out) = o {
        lemma_trimmed_empty_iff_blank(out);
    }
}

} // verus!
