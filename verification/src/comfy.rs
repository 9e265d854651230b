//! ComfyUI installations: how they are recognised, cloned, started and stopped.
use crate::config::AppConfig;
use crate::ids::IdSet;
use crate::outside::{new_uuid, uuid_shaped};
use crate::paths::{components, components_of, file_name, file_name_of, join_path, joined_path};
use crate::state::ManagedState;
use crate::text::{
    cat2, cat3, cat4, clone_opt, contains, contains_text, decimal, decimal_text, join_texts, joined,
    lower_text, same_ignoring_case, same_text, Text,
};
use vstd::prelude::*;
use vstd::string::*;

verus! {

/// A ComfyUI installation and the Python that runs it, where it has its own.
pub struct ComfyInstance {
    pub root: String,
    pub python: Option<String>,
}

/// What a [`ComfyInstance`] holds.
pub struct InstanceView {
    pub root: Text,
    pub python: Option<Text>,
}

impl DeepView for ComfyInstance {
    type V = InstanceView;

    open spec fn deep_view(&self) -> InstanceView {
        InstanceView { root: self.root@, python: self.python.deep_view() }
    }
}

/// Where the server listens.
#[derive(Clone, Copy)]
pub struct StartOptions<'a> {
    pub host: &'a str,
    pub port: u16,
}

/// Where ComfyUI is cloned from.
#[derive(Clone, Copy, Debug, PartialEq, Eq, Structural)]
pub enum ComfySource {
    GitHub,
    Gitee,
}

impl ComfySource {
    pub open spec fn address(self) -> Text {
        match self {
            ComfySource::GitHub => "https://github.com/Comfy-Org/ComfyUI.git"@,
            ComfySource::Gitee => "https://gitee.com/mirrors/comfyui"@,
        }
    }

    pub open spec fn words(self) -> Text {
        match self {
            ComfySource::GitHub => "GitHub"@,
            ComfySource::Gitee => "Gitee"@,
        }
    }

    /// The name of the host.
    pub fn name(self) -> (r: &'static str)
        ensures
            r@ == self.words(),
    {
        match self {
            ComfySource::GitHub => "GitHub",
            ComfySource::Gitee => "Gitee",
        }
    }

    /// The address of the repository.
    pub fn url(self) -> (r: &'static str)
        ensures
            r@ == self.address(),
    {
        match self {
            ComfySource::GitHub => "https://github.com/Comfy-Org/ComfyUI.git",
            ComfySource::Gitee => "https://gitee.com/mirrors/comfyui",
        }
    }
}

/// What is found in a directory that may be a ComfyUI root.
#[derive(Clone, Copy, Debug, PartialEq, Eq, Structural)]
pub struct RootFacts {
    pub main_is_file: bool,
    pub comfy_is_dir: bool,
    pub models_is_dir: bool,
}

impl RootFacts {
    /// `main.py`, `comfy` and `models` are all there.
    pub open spec fn complete(self) -> bool {
        self.main_is_file && self.comfy_is_dir && self.models_is_dir
    }
}

/// Which of an installation's own Python interpreters are there.
#[derive(Clone, Copy, Debug, PartialEq, Eq, Structural)]
pub struct PythonFacts {
    pub dot_venv: bool,
    pub venv: bool,
}

/// Where the interpreter of the environment `.venv` is.
pub open spec fn dot_venv_python(root: Text, windows: bool) -> Text {
    joined_path(
        windows,
        root,
        if windows {
            ".venv/Scripts/python.exe"@
        } else {
            ".venv/bin/python"@
        },
    )
}

/// Where the interpreter of the environment `venv` is.
pub open spec fn venv_python(root: Text, windows: bool) -> Text {
    joined_path(
        windows,
        root,
        if windows {
            "venv/Scripts/python.exe"@
        } else {
            "venv/bin/python"@
        },
    )
}

/// The installation's own Python: that of `.venv`, else that of `venv`.
pub open spec fn own_python(root: Text, windows: bool, facts: PythonFacts) -> Option<Text> {
    if facts.dot_venv {
        Some(dot_venv_python(root, windows))
    } else if facts.venv {
        Some(venv_python(root, windows))
    } else {
        None
    }
}

/// Where an installation's own Python can be, in the order of preference.
pub fn python_paths(root: &str, windows: bool) -> (r: (String, String))
    ensures
        r.0@ == dot_venv_python(root@, windows),
        r.1@ == venv_python(root@, windows),
{
    if windows {
        (
            join_path(windows, root, ".venv/Scripts/python.exe"),
            join_path(windows, root, "venv/Scripts/python.exe"),
        )
    } else {
        (
            join_path(windows, root, ".venv/bin/python"),
            join_path(windows, root, "venv/bin/python"),
        )
    }
}

/// The installation's own Python.
pub fn find_python(root: &str, windows: bool, facts: PythonFacts) -> (r: Option<String>)
    ensures
        r.deep_view() == own_python(root@, windows, facts),
{
    let (first, second) = python_paths(root, windows);
    if facts.dot_venv {
        Some(first)
    } else if facts.venv {
        Some(second)
    } else {
        None
    }
}

/// The name of the system's Python.
pub open spec fn system_python_name(windows: bool) -> Text {
    if windows {
        "python"@
    } else {
        "python3"@
    }
}

/// The name of the system's Python.
pub fn system_python(windows: bool) -> (r: &'static str)
    ensures
        r@ == system_python_name(windows),
{
    if windows {
        "python"
    } else {
        "python3"
    }
}

/// The installations that a search has found, each once.
pub struct Discovery {
    seen: IdSet,
    found: Vec<ComfyInstance>,
}

/// The roots of the instances.
pub open spec fn roots_of(s: Seq<InstanceView>) -> Seq<Text> {
    Seq::new(s.len(), |i: int| s[i].root)
}

/// The instances with the one at `root`, where it is not among them yet.
pub open spec fn with_root(
    s: Seq<InstanceView>,
    windows: bool,
    root: Text,
    facts: PythonFacts,
) -> Seq<InstanceView> {
    if roots_of(s).contains(root) {
        s
    } else {
        s.push(InstanceView { root, python: own_python(root, windows, facts) })
    }
}

impl View for Discovery {
    type V = Seq<InstanceView>;

    closed spec fn view(&self) -> Seq<InstanceView> {
        self.found.deep_view()
    }
}

impl Discovery {
    #[verifier::type_invariant]
    spec fn inv(self) -> bool {
        self.seen@ == roots_of(self.found.deep_view()).to_set()
    }

    /// A search that has found nothing.
    pub fn new() -> (r: Discovery)
        ensures
            r@ == Seq::<InstanceView>::empty(),
    {
        let found: Vec<ComfyInstance> = Vec::new();
        assert(found.deep_view() =~= Seq::<InstanceView>::empty());
        assert(roots_of(found.deep_view()).to_set() =~= Set::<Text>::empty());
        Discovery { seen: IdSet::new(), found }
    }

    /// Takes in an installation by its canonical path, unless it was found before.
    pub fn add(&mut self, canonical: String, windows: bool, facts: PythonFacts)
        ensures
            final(self)@ == with_root(old(self)@, windows, canonical@, facts),
    {
        proof {
            use_type_invariant(&*self);
        }
        let ghost before = self.found.deep_view();
        let mut fresh = Discovery::new();
        core::mem::swap(&mut fresh, self);
        let Discovery { mut seen, mut found } = fresh;
        assert(seen@.contains(canonical@) == roots_of(before).contains(canonical@));
        if seen.insert(canonical.clone()) {
            let ghost root = canonical@;
            let python = find_python(canonical.as_str(), windows, facts);
            let instance = ComfyInstance { root: canonical, python };
            let ghost view = instance.deep_view();
            found.push(instance);
            proof {
                assert(found.deep_view() =~= before.push(view));
                let roots = roots_of(before);
                assert(roots_of(found.deep_view()) =~= roots.push(root));
                assert(roots.push(root).take(roots.len() as int) =~= roots);
                crate::ids::take_one_more(roots.push(root), roots.len() as int);
                assert(roots.push(root).take(roots.len() as int + 1) =~= roots.push(root));
            }
        } else {
            assert(seen@ =~= roots_of(found.deep_view()).to_set());
        }
        *self = Discovery { seen, found };
    }

    /// The installations found, in the order of the search.
    pub fn into_found(self) -> (r: Vec<ComfyInstance>)
        ensures
            r.deep_view() == self@,
    {
        self.found
    }
}

/// The operations on ComfyUI installations.
pub struct ComfyManager;

impl ComfyManager {
    /// Whether a directory in which this was found is a ComfyUI root.
    pub fn is_comfy_root(facts: RootFacts) -> (r: bool)
        ensures
            r == facts.complete(),
    {
        facts.main_is_file && facts.comfy_is_dir && facts.models_is_dir
    }

    /// What is looked for in a ComfyUI root: a file and two directories.
    pub fn root_paths(root: &str, windows: bool) -> (r: (String, String, String))
        ensures
            (r.0@, r.1@, r.2@) == marks_of(windows, root@),
    {
        (
            join_path(windows, root, "main.py"),
            join_path(windows, root, "comfy"),
            join_path(windows, root, "models"),
        )
    }

    /// Whether a directory that a search came by is named as a ComfyUI root is.
    pub fn named_like_root(path: &str, windows: bool) -> (r: bool)
        ensures
            r == named_as_root(windows, path@),
    {
        match file_name(windows, path) {
            Some(n) => same_ignoring_case(n.as_str(), "ComfyUI"),
            None => false,
        }
    }

    /// Where a search for installations begins: the working directory, the home directory, the
    /// given roots and the mounted volumes.
    pub fn search_roots(
        cwd: Option<String>,
        home: Option<String>,
        extra: Vec<String>,
        mounts: Vec<String>,
    ) -> (r: Vec<String>)
        ensures
            r.deep_view() == search_order(
                cwd.deep_view(),
                home.deep_view(),
                extra.deep_view(),
                mounts.deep_view(),
            ),
    {
        let mut roots: Vec<String> = Vec::new();
        let ghost a = one_or_none(cwd.deep_view());
        let ghost b = one_or_none(home.deep_view());
        if let Some(p) = cwd {
            roots.push(p);
        }
        assert(roots.deep_view() =~= a);
        if let Some(p) = home {
            roots.push(p);
        }
        assert(roots.deep_view() =~= a + b);
        let ghost c = extra.deep_view();
        let ghost d = mounts.deep_view();
        for p in it: extra.into_iter()
            invariant
                it.seq() == extra@,
                c == extra.deep_view(),
                roots.deep_view() == a + b + c.take(it.index() as int),
        {
            let ghost before = roots.deep_view();
            let ghost t = p@;
            roots.push(p);
            assert(roots.deep_view() =~= before.push(t));
            assert(roots.deep_view() =~= a + b + c.take(it.index() + 1));
        }
        assert(c.take(c.len() as int) =~= c);
        assert(roots.deep_view() =~= a + b + c + d.take(0));
        for p in it: mounts.into_iter()
            invariant
                it.seq() == mounts@,
                d == mounts.deep_view(),
                roots.deep_view() == a + b + c + d.take(it.index() as int),
        {
            let ghost before = roots.deep_view();
            let ghost t = p@;
            roots.push(p);
            assert(roots.deep_view() =~= before.push(t));
            assert(roots.deep_view() =~= a + b + c + d.take(it.index() + 1));
        }
        assert(d.take(d.len() as int) =~= d);
        roots
    }

    /// The arguments of `git` that clone `url` to `target`. After the first failure HTTP/1.1 is
    /// asked for.
    pub fn clone_args(url: &str, target: &str, attempt: u32) -> (r: Vec<String>)
        ensures
            r.deep_view() == clone_arguments(url@, target@, attempt),
    {
        let mut args: Vec<String> = Vec::new();
        if attempt > 0 {
            args.push("-c".to_owned());
            args.push("http.version=HTTP/1.1".to_owned());
        }
        args.push("clone".to_owned());
        args.push("--depth".to_owned());
        args.push("1".to_owned());
        args.push(url.to_owned());
        args.push(target.to_owned());
        assert(args.deep_view() =~= clone_arguments(url@, target@, attempt));
        args
    }

    /// What follows the attempt with the number `attempt`, counted from 0, to clone a repository.
    pub fn after_clone(attempt: u32, succeeded: bool) -> (r: CloneStep)
        ensures
            r == clone_step(attempt, succeeded),
    {
        if succeeded {
            CloneStep::Publish
        } else if attempt < CLONE_ATTEMPTS - 1 {
            CloneStep::CleanAndRetry
        } else {
            CloneStep::CleanAndFail
        }
    }

    /// What starts the server; refused where one is managed already.
    pub fn start(
        instance: &ComfyInstance,
        found_python: Option<String>,
        windows: bool,
        opts: StartOptions<'_>,
        state: &ManagedState,
    ) -> (r: Result<StartPlan, String>)
        ensures
            match start_of(
                windows,
                instance.deep_view(),
                found_python.deep_view(),
                opts.host@,
                opts.port,
                state.comfy_pid,
            ) {
                Ok(p) => r matches Ok(plan) && plan.deep_view() == p,
                Err(m) => r matches Err(e) && e@ == m,
            },
    {
        if state.comfy_pid.is_some() {
            return Err("ComfyUI already has a managed PID; run status/stop first".to_owned());
        }
        let program = match &instance.python {
            Some(p) => p.clone(),
            None => match found_python {
                Some(p) => p,
                None => system_python(windows).to_owned(),
            },
        };
        let mut args: Vec<String> = Vec::new();
        args.push("main.py".to_owned());
        args.push("--listen".to_owned());
        args.push(opts.host.to_owned());
        args.push("--port".to_owned());
        args.push(decimal_text(opts.port as u64));
        args.push("--enable-manager".to_owned());
        assert(args.deep_view() =~= start_arguments(opts.host@, opts.port));
        let log_dir = join_path(windows, instance.root.as_str(), ".comfybox");
        let log_path = join_path(windows, log_dir.as_str(), "comfyui.log");
        Ok(StartPlan { program, args, directory: instance.root.clone(), log_dir, log_path })
    }

    /// Takes in how the start went: an exit right away or a missing PID is an error, else the PID
    /// and the log are recorded.
    pub fn started(
        state: &mut ManagedState,
        exited: Option<String>,
        pid: Option<u32>,
        log_path: &str,
    ) -> (r: Result<u32, String>)
        ensures
            match start_outcome(exited.deep_view(), pid, log_path@) {
                Ok(n) => r == Ok::<u32, String>(n) && final(state).comfy_pid == Some(n)
                    && final(state).comfy_log.deep_view() == Some(log_path@),
                Err(m) => *final(state) == *old(state) && (r matches Err(e) && e@ == m),
            },
            final(state).packages == old(state).packages,
            final(state).workflows == old(state).workflows,
    {
        if let Some(status) = exited {
            return Err(
                cat4("ComfyUI exited immediately with ", status.as_str(), "; see ", log_path),
            );
        }
        match pid {
            None => Err("ComfyUI started without PID".to_owned()),
            Some(n) => {
                state.comfy_pid = Some(n);
                state.comfy_log = Some(log_path.to_owned());
                Ok(n)
            },
        }
    }

    /// Whether the managed server runs, given what is known of the process with its PID. A PID
    /// without a process is forgotten, and `.1` says that the state has changed.
    pub fn status(
        state: &mut ManagedState,
        process: &Option<ProcessFacts>,
        root: &str,
        windows: bool,
    ) -> (r: (bool, bool))
        ensures
            r == server_status(windows, old(state).comfy_pid, process.deep_view(), root@),
            *final(state) == (ManagedState {
                comfy_pid: if r.1 {
                    None
                } else {
                    old(state).comfy_pid
                },
                ..*old(state)
            }),
    {
        if state.comfy_pid.is_none() {
            return (false, false);
        }
        match process {
            None => {
                state.comfy_pid = None;
                (false, true)
            },
            Some(p) => (process_looks_like_comfy(p, root, windows), false),
        }
    }

    /// How the managed server is stopped, given what is known of the process with its PID. A
    /// process that does not look like this installation's server is left alone.
    pub fn stop(
        state: &ManagedState,
        process: &Option<ProcessFacts>,
        root: &str,
        windows: bool,
    ) -> (r: Result<StopPlan, String>)
        ensures
            match stop_of(windows, state.comfy_pid, process.deep_view(), root@) {
                Ok(plan) => r == Ok::<StopPlan, String>(plan),
                Err(m) => r matches Err(e) && e@ == m,
            },
    {
        match state.comfy_pid {
            None => Err("no managed ComfyUI process".to_owned()),
            Some(pid) => match process {
                None => Ok(StopPlan::Forget),
                Some(p) => {
                    if process_looks_like_comfy(p, root, windows) {
                        Ok(StopPlan::Signal(pid))
                    } else {
                        let n = decimal_text(pid as u64);
                        Err(
                            cat3(
                                "PID ",
                                n.as_str(),
                                " no longer looks like this ComfyUI process; refusing to kill it",
                            ),
                        )
                    }
                },
            },
        }
    }

    /// Takes in how the stop went: only a process that is gone or was signalled is forgotten.
    pub fn stopped(state: &mut ManagedState, plan: StopPlan, sent: bool) -> (r: Result<(), String>)
        ensures
            match stop_outcome(plan, sent) {
                Some(m) => r matches Err(e) && e@ == m,
                None => r is Ok,
            },
            *final(state) == (ManagedState {
                comfy_pid: if r is Ok {
                    None
                } else {
                    old(state).comfy_pid
                },
                ..*old(state)
            }),
    {
        if let StopPlan::Signal(pid) = plan {
            if !sent {
                let n = decimal_text(pid as u64);
                return Err(cat2("failed to signal ComfyUI process ", n.as_str()));
            }
        }
        state.comfy_pid = None;
        Ok(())
    }

    /// The installation of the instance's dependencies, before its first step.
    pub fn install_python_deps(instance: &ComfyInstance, windows: bool) -> (r: DepsRun)
        ensures
            r.root@ == instance.root@,
            r.windows == windows,
            r.python.deep_view() == instance.python.deep_view(),
            r.phase == DepsPhase::Start,
            exists|id: Text|
                uuid_shaped(id) && r.wheelhouse@ == #[trigger] wheelhouse_dir(
                    windows,
                    instance.root@,
                    id,
                ),
    {
        let id = new_uuid();
        let name = cat2("pip-", id.as_str());
        let tmp = join_path(windows, instance.root.as_str(), ".comfybox-tmp");
        let wheelhouse = join_path(windows, tmp.as_str(), name.as_str());
        assert(wheelhouse@ == wheelhouse_dir(windows, instance.root@, id@));
        DepsRun {
            root: instance.root.clone(),
            windows,
            python: clone_opt(&instance.python),
            wheelhouse,
            phase: DepsPhase::Start,
        }
    }
}

/// What a ComfyUI root has: a file and two directories.
pub open spec fn marks_of(windows: bool, root: Text) -> (Text, Text, Text) {
    (
        joined_path(windows, root, "main.py"@),
        joined_path(windows, root, "comfy"@),
        joined_path(windows, root, "models"@),
    )
}

/// The path is named as a ComfyUI root is.
pub open spec fn named_as_root(windows: bool, path: Text) -> bool {
    file_name_of(windows, path) matches Some(n) && lower_text(n) == lower_text("ComfyUI"@)
}

/// Where a search for installations begins, in order.
pub open spec fn search_order(
    cwd: Option<Text>,
    home: Option<Text>,
    extra: Seq<Text>,
    mounts: Seq<Text>,
) -> Seq<Text> {
    one_or_none(cwd) + one_or_none(home) + extra + mounts
}

/// What a [`StartPlan`] holds.
pub struct StartView {
    pub program: Text,
    pub args: Seq<Text>,
    pub directory: Text,
    pub log_dir: Text,
    pub log_path: Text,
}

impl DeepView for StartPlan {
    type V = StartView;

    open spec fn deep_view(&self) -> StartView {
        StartView {
            program: self.program@,
            args: self.args.deep_view(),
            directory: self.directory@,
            log_dir: self.log_dir@,
            log_path: self.log_path@,
        }
    }
}

/// How a server is started: by the installation's own Python, the one found in it, or the system's;
/// refused while a process is recorded.
pub open spec fn start_of(
    windows: bool,
    instance: InstanceView,
    found_python: Option<Text>,
    host: Text,
    port: u16,
    pid: Option<u32>,
) -> Result<StartView, Text> {
    if pid is Some {
        Err("ComfyUI already has a managed PID; run status/stop first"@)
    } else {
        let log_dir = joined_path(windows, instance.root, ".comfybox"@);
        Ok(
            StartView {
                program: match (instance.python, found_python) {
                    (Some(own), _) => own,
                    (None, Some(found)) => found,
                    (None, None) => system_python_name(windows),
                },
                args: start_arguments(host, port),
                directory: instance.root,
                log_dir,
                log_path: joined_path(windows, log_dir, "comfyui.log"@),
            },
        )
    }
}

/// How a start went: with which process, or why not.
pub open spec fn start_outcome(exited: Option<Text>, pid: Option<u32>, log_path: Text) -> Result<
    u32,
    Text,
> {
    match (exited, pid) {
        (Some(s), _) => Err("ComfyUI exited immediately with "@ + s + "; see "@ + log_path),
        (None, None) => Err("ComfyUI started without PID"@),
        (None, Some(n)) => Ok(n),
    }
}

/// Whether the recorded server runs, and whether its record is of no process any more.
pub open spec fn server_status(
    windows: bool,
    pid: Option<u32>,
    process: Option<ProcessView>,
    root: Text,
) -> (bool, bool) {
    match (pid, process) {
        (None, _) => (false, false),
        (Some(_), None) => (false, true),
        (Some(_), Some(p)) => (like_comfy(windows, p, root), false),
    }
}

/// Why a stop failed, where it did.
pub open spec fn stop_outcome(plan: StopPlan, sent: bool) -> Option<Text> {
    match plan {
        StopPlan::Forget => None,
        StopPlan::Signal(pid) => if sent {
            None
        } else {
            Some("failed to signal ComfyUI process "@ + decimal(pid as nat))
        },
    }
}

/// The configured installation, or why there is none.
pub open spec fn configured_as(
    windows: bool,
    path: Option<Text>,
    root_facts: RootFacts,
    python_facts: PythonFacts,
) -> Result<InstanceView, Text> {
    match path {
        None => Err("ComfyUI path is not configured; run `comfybox locate` first"@),
        Some(root) => if root_facts.complete() {
            Ok(InstanceView { root, python: own_python(root, windows, python_facts) })
        } else {
            Err("configured path is not a valid ComfyUI root: "@ + root)
        },
    }
}

/// A list of the value, where there is one.
pub open spec fn one_or_none(t: Option<Text>) -> Seq<Text> {
    match t {
        Some(t) => seq![t],
        None => Seq::empty(),
    }
}

/// How often a clone is tried.
pub const CLONE_ATTEMPTS: u32 = 3;

/// What follows an attempt to clone a repository.
#[derive(Clone, Copy, Debug, PartialEq, Eq, Structural)]
pub enum CloneStep {
    Publish,
    CleanAndRetry,
    CleanAndFail,
}

/// A clone that succeeded is published; one that failed is cleaned, and tried again while attempts
/// are left.
pub open spec fn clone_step(attempt: u32, succeeded: bool) -> CloneStep {
    if succeeded {
        CloneStep::Publish
    } else if attempt + 1 < CLONE_ATTEMPTS {
        CloneStep::CleanAndRetry
    } else {
        CloneStep::CleanAndFail
    }
}

/// The arguments of `git` that clone `url` to `target`.
pub open spec fn clone_arguments(url: Text, target: Text, attempt: u32) -> Seq<Text> {
    (if attempt > 0 {
        seq!["-c"@, "http.version=HTTP/1.1"@]
    } else {
        Seq::empty()
    }) + seq!["clone"@, "--depth"@, "1"@, url, target]
}

/// The arguments of Python that start the server.
pub open spec fn start_arguments(host: Text, port: u16) -> Seq<Text> {
    seq!["main.py"@, "--listen"@, host, "--port"@, decimal(port as nat), "--enable-manager"@]
}

/// What starts the server.
pub struct StartPlan {
    pub program: String,
    pub args: Vec<String>,
    pub directory: String,
    pub log_dir: String,
    pub log_path: String,
}

/// How the server is stopped.
#[derive(Clone, Copy, Debug, PartialEq, Eq, Structural)]
pub enum StopPlan {
    /// Its process is gone: forget the PID.
    Forget,
    /// Signal the process.
    Signal(u32),
}

/// How the server with the recorded PID is stopped, given what is known of the process with it.
pub open spec fn stop_of(
    windows: bool,
    pid: Option<u32>,
    process: Option<ProcessView>,
    root: Text,
) -> Result<StopPlan, Text> {
    match (pid, process) {
        (None, _) => Err("no managed ComfyUI process"@),
        (Some(_), None) => Ok(StopPlan::Forget),
        (Some(pid), Some(p)) => if like_comfy(windows, p, root) {
            Ok(StopPlan::Signal(pid))
        } else {
            Err(
                "PID "@ + decimal(pid as nat)
                    + " no longer looks like this ComfyUI process; refusing to kill it"@,
            )
        },
    }
}

/// What is known of a process.
pub struct ProcessFacts {
    pub command: Vec<String>,
    pub cwd: Option<String>,
}

/// What [`ProcessFacts`] hold.
pub struct ProcessView {
    pub command: Seq<Text>,
    pub cwd: Option<Text>,
}

impl DeepView for ProcessFacts {
    type V = ProcessView;

    open spec fn deep_view(&self) -> ProcessView {
        ProcessView { command: self.command.deep_view(), cwd: self.cwd.deep_view() }
    }
}

/// A process that runs `main.py` and mentions ComfyUI or works in its root.
pub open spec fn like_comfy(windows: bool, p: ProcessView, root: Text) -> bool {
    let line = joined(p.command, " "@);
    contains_text(line, "main.py"@) && (contains_text(line, "ComfyUI"@) || (p.cwd matches Some(cwd)
        && components_of(windows, cwd) == components_of(windows, root)))
}

fn same_texts(a: &Vec<String>, b: &Vec<String>) -> (r: bool)
    ensures
        r == (a.deep_view() == b.deep_view()),
{
    if a.len() != b.len() {
        assert(a.deep_view().len() != b.deep_view().len());
        return false;
    }
    let mut i: usize = 0;
    while i < a.len()
        invariant
            i <= a@.len() == b@.len(),
            forall|k: int| 0 <= k < i ==> (#[trigger] a@[k])@ == b@[k]@,
        decreases a@.len() - i,
    {
        if !same_text(a[i].as_str(), b[i].as_str()) {
            assert(a.deep_view()[i as int] != b.deep_view()[i as int]);
            return false;
        }
        i += 1;
    }
    assert(a.deep_view() =~= b.deep_view());
    true
}

/// Whether two texts are the same path.
pub fn same_path(a: &str, b: &str, windows: bool) -> (r: bool)
    ensures
        r == (components_of(windows, a@) == components_of(windows, b@)),
{
    same_texts(&components(windows, a), &components(windows, b))
}

/// Whether a process looks like the server of the installation `root`.
pub fn process_looks_like_comfy(p: &ProcessFacts, root: &str, windows: bool) -> (r: bool)
    ensures
        r == like_comfy(windows, p.deep_view(), root@),
{
    let line = join_texts(&p.command, " ");
    if !contains(line.as_str(), "main.py") {
        return false;
    }
    if contains(line.as_str(), "ComfyUI") {
        return true;
    }
    match &p.cwd {
        Some(cwd) => same_path(cwd.as_str(), root, windows),
        None => false,
    }
}

/// The configured installation, given what was found at its path.
pub fn configured_instance(
    cfg: &AppConfig,
    root_facts: RootFacts,
    windows: bool,
    python_facts: PythonFacts,
) -> (r: Result<ComfyInstance, String>)
    ensures
        match configured_as(windows, cfg.deep_view().comfy_path, root_facts, python_facts) {
            Ok(v) => r matches Ok(i) && i.deep_view() == v,
            Err(m) => r matches Err(e) && e@ == m,
        },
{
    match &cfg.comfy_path {
        None => Err("ComfyUI path is not configured; run `comfybox locate` first".to_owned()),
        Some(root) => {
            if !ComfyManager::is_comfy_root(root_facts) {
                return Err(
                    cat2("configured path is not a valid ComfyUI root: ", root.as_str()),
                );
            }
            let python = find_python(root.as_str(), windows, python_facts);
            Ok(ComfyInstance { root: root.clone(), python })
        },
    }
}

/// The step that an installation of Python dependencies waits for.
#[derive(Clone, Copy, Debug, PartialEq, Eq, Structural)]
pub enum DepsPhase {
    Start,
    CreateVenv,
    FindPython,
    CheckRequirements,
    CreateWheelhouse,
    Download,
    Install,
    Over,
}

/// The installation of an instance's Python dependencies: the wheels are downloaded to a temporary
/// directory, installed from there, and the directory is removed.
pub struct DepsRun {
    pub root: String,
    pub windows: bool,
    pub python: Option<String>,
    pub wheelhouse: String,
    pub phase: DepsPhase,
}

/// What a [`DepsRun`] holds.
pub struct DepsView {
    pub root: Text,
    pub windows: bool,
    pub python: Option<Text>,
    pub wheelhouse: Text,
    pub phase: DepsPhase,
}

impl DeepView for DepsRun {
    type V = DepsView;

    open spec fn deep_view(&self) -> DepsView {
        DepsView {
            root: self.root@,
            windows: self.windows,
            python: self.python.deep_view(),
            wheelhouse: self.wheelhouse@,
            phase: self.phase,
        }
    }
}

/// What is done next.
pub enum DepsAction {
    /// Run a program.
    Run { program: String, args: Vec<String> },
    /// Look for the installation's own Python.
    FindPython,
    /// Look whether the file is there.
    CheckFile { path: String },
    /// Create a directory.
    CreateDir { path: String },
    /// Remove the directory, where one is given, and end with the error.
    Fail { remove: Option<String>, message: String },
    /// Remove the directory and end with the interpreter.
    Finish { remove: String, python: String },
}

/// What a [`DepsAction`] holds.
pub enum DepsActionView {
    Run { program: Text, args: Seq<Text> },
    FindPython,
    CheckFile { path: Text },
    CreateDir { path: Text },
    Fail { remove: Option<Text>, message: Text },
    Finish { remove: Text, python: Text },
}

impl DeepView for DepsAction {
    type V = DepsActionView;

    open spec fn deep_view(&self) -> DepsActionView {
        match self {
            DepsAction::Run { program, args } => DepsActionView::Run {
                program: program@,
                args: args.deep_view(),
            },
            DepsAction::FindPython => DepsActionView::FindPython,
            DepsAction::CheckFile { path } => DepsActionView::CheckFile { path: path@ },
            DepsAction::CreateDir { path } => DepsActionView::CreateDir { path: path@ },
            DepsAction::Fail { remove, message } => DepsActionView::Fail {
                remove: remove.deep_view(),
                message: message@,
            },
            DepsAction::Finish { remove, python } => DepsActionView::Finish {
                remove: remove@,
                python: python@,
            },
        }
    }
}

/// What came of the step before.
#[derive(Clone, Copy, Debug, PartialEq, Eq, Structural)]
pub enum DepsEvent {
    /// Whether the program succeeded, the file is there, or the directory was created.
    Done(bool),
    /// Which interpreters are there.
    Python(PythonFacts),
}

impl DepsView {
    pub open spec fn requirements(self) -> Text {
        joined_path(self.windows, self.root, "requirements.txt"@)
    }

    pub open spec fn failed(self, remove: Option<Text>, message: Text) -> (DepsView, DepsActionView) {
        (
            DepsView { phase: DepsPhase::Over, ..self },
            DepsActionView::Fail { remove, message },
        )
    }

    /// The first step: an environment is created where the installation has none.
    pub open spec fn begin(self) -> (DepsView, DepsActionView) {
        match self.python {
            Some(_) => (
                DepsView { phase: DepsPhase::CheckRequirements, ..self },
                DepsActionView::CheckFile { path: self.requirements() },
            ),
            None => (
                DepsView { phase: DepsPhase::CreateVenv, ..self },
                DepsActionView::Run {
                    program: system_python_name(self.windows),
                    args: seq!["-m"@, "venv"@, joined_path(self.windows, self.root, ".venv"@)],
                },
            ),
        }
    }

    /// The installation after an event, and what is done next.
    pub open spec fn after(self, event: DepsEvent) -> (DepsView, DepsActionView) {
        match (self.phase, event) {
            (DepsPhase::CreateVenv, DepsEvent::Done(ok)) => if ok {
                (DepsView { phase: DepsPhase::FindPython, ..self }, DepsActionView::FindPython)
            } else {
                self.failed(None, "failed to create Python virtualenv"@)
            },
            (DepsPhase::FindPython, DepsEvent::Python(facts)) => match own_python(
                self.root,
                self.windows,
                facts,
            ) {
                Some(p) => (
                    DepsView {
                        phase: DepsPhase::CheckRequirements,
                        python: Some(p),
                        ..self
                    },
                    DepsActionView::CheckFile { path: self.requirements() },
                ),
                None => self.failed(None, "venv created but Python executable not found"@),
            },
            (DepsPhase::CheckRequirements, DepsEvent::Done(ok)) => if ok {
                (
                    DepsView { phase: DepsPhase::CreateWheelhouse, ..self },
                    DepsActionView::CreateDir { path: self.wheelhouse },
                )
            } else {
                self.failed(None, "requirements.txt not found"@)
            },
            (DepsPhase::CreateWheelhouse, DepsEvent::Done(ok)) => if ok && self.python is Some {
                (
                    DepsView { phase: DepsPhase::Download, ..self },
                    DepsActionView::Run {
                        program: self.python->0,
                        args: seq![
                            "-m"@,
                            "pip"@,
                            "download"@,
                            "-r"@,
                            self.requirements(),
                            "-d"@,
                            self.wheelhouse,
                        ],
                    },
                )
            } else {
                self.failed(None, "failed to create "@ + self.wheelhouse)
            },
            (DepsPhase::Download, DepsEvent::Done(ok)) => if ok && self.python is Some {
                (
                    DepsView { phase: DepsPhase::Install, ..self },
                    DepsActionView::Run {
                        program: self.python->0,
                        args: seq![
                            "-m"@,
                            "pip"@,
                            "install"@,
                            "--no-index"@,
                            "--find-links"@,
                            self.wheelhouse,
                            "-r"@,
                            self.requirements(),
                        ],
                    },
                )
            } else {
                self.failed(Some(self.wheelhouse), "pip download failed"@)
            },
            (DepsPhase::Install, DepsEvent::Done(ok)) => if ok && self.python is Some {
                (
                    DepsView { phase: DepsPhase::Over, ..self },
                    DepsActionView::Finish { remove: self.wheelhouse, python: self.python->0 },
                )
            } else {
                self.failed(Some(self.wheelhouse), "pip install failed"@)
            },
            _ => self.failed(None, "unexpected step"@),
        }
    }
}

/// The temporary directory of an installation's wheels.
pub open spec fn wheelhouse_dir(windows: bool, root: Text, id: Text) -> Text {
    joined_path(windows, joined_path(windows, root, ".comfybox-tmp"@), "pip-"@ + id)
}

impl DepsRun {
    fn requirements(&self) -> (r: String)
        ensures
            r@ == self.deep_view().requirements(),
    {
        join_path(self.windows, self.root.as_str(), "requirements.txt")
    }

    fn fail(&mut self, remove: Option<String>, message: String) -> (r: DepsAction)
        ensures
            (final(self).deep_view(), r.deep_view()) == old(self).deep_view().failed(
                remove.deep_view(),
                message@,
            ),
    {
        self.phase = DepsPhase::Over;
        DepsAction::Fail { remove, message }
    }

    /// The first action.
    pub fn begin(&mut self) -> (r: DepsAction)
        ensures
            (final(self).deep_view(), r.deep_view()) == old(self).deep_view().begin(),
    {
        if self.python.is_some() {
            self.phase = DepsPhase::CheckRequirements;
            DepsAction::CheckFile { path: self.requirements() }
        } else {
            self.phase = DepsPhase::CreateVenv;
            let mut args: Vec<String> = Vec::new();
            args.push("-m".to_owned());
            args.push("venv".to_owned());
            args.push(join_path(self.windows, self.root.as_str(), ".venv"));
            assert(args.deep_view() =~= seq!["-m"@, "venv"@, joined_path(self.windows, self.root@, ".venv"@)]);
            DepsAction::Run { program: system_python(self.windows).to_owned(), args }
        }
    }

    fn download(&self, python: &String) -> (r: DepsAction)
        ensures
            r.deep_view() == (DepsActionView::Run {
                program: python@,
                args: seq![
                    "-m"@,
                    "pip"@,
                    "download"@,
                    "-r"@,
                    self.deep_view().requirements(),
                    "-d"@,
                    self.wheelhouse@,
                ],
            }),
    {
        let mut args: Vec<String> = Vec::new();
        args.push("-m".to_owned());
        args.push("pip".to_owned());
        args.push("download".to_owned());
        args.push("-r".to_owned());
        args.push(self.requirements());
        args.push("-d".to_owned());
        args.push(self.wheelhouse.clone());
        assert(args.deep_view() =~= seq![
            "-m"@,
            "pip"@,
            "download"@,
            "-r"@,
            self.deep_view().requirements(),
            "-d"@,
            self.wheelhouse@,
        ]);
        DepsAction::Run { program: python.clone(), args }
    }

    fn install(&self, python: &String) -> (r: DepsAction)
        ensures
            r.deep_view() == (DepsActionView::Run {
                program: python@,
                args: seq![
                    "-m"@,
                    "pip"@,
                    "install"@,
                    "--no-index"@,
                    "--find-links"@,
                    self.wheelhouse@,
                    "-r"@,
                    self.deep_view().requirements(),
                ],
            }),
    {
        let mut args: Vec<String> = Vec::new();
        args.push("-m".to_owned());
        args.push("pip".to_owned());
        args.push("install".to_owned());
        args.push("--no-index".to_owned());
        args.push("--find-links".to_owned());
        args.push(self.wheelhouse.clone());
        args.push("-r".to_owned());
        args.push(self.requirements());
        assert(args.deep_view() =~= seq![
            "-m"@,
            "pip"@,
            "install"@,
            "--no-index"@,
            "--find-links"@,
            self.wheelhouse@,
            "-r"@,
            self.deep_view().requirements(),
        ]);
        DepsAction::Run { program: python.clone(), args }
    }

    /// Takes in what came of the step before and says what is done next.
    pub fn step(&mut self, event: DepsEvent) -> (r: DepsAction)
        ensures
            (final(self).deep_view(), r.deep_view()) == old(self).deep_view().after(event),
    {
        match (self.phase, event) {
            (DepsPhase::CreateVenv, DepsEvent::Done(ok)) => {
                if ok {
                    self.phase = DepsPhase::FindPython;
                    DepsAction::FindPython
                } else {
                    self.fail(None, "failed to create Python virtualenv".to_owned())
                }
            },
            (DepsPhase::FindPython, DepsEvent::Python(facts)) => {
                match find_python(self.root.as_str(), self.windows, facts) {
                    Some(p) => {
                        self.python = Some(p);
                        self.phase = DepsPhase::CheckRequirements;
                        DepsAction::CheckFile { path: self.requirements() }
                    },
                    None => self.fail(
                        None,
                        "venv created but Python executable not found".to_owned(),
                    ),
                }
            },
            (DepsPhase::CheckRequirements, DepsEvent::Done(ok)) => {
                if ok {
                    self.phase = DepsPhase::CreateWheelhouse;
                    DepsAction::CreateDir { path: self.wheelhouse.clone() }
                } else {
                    self.fail(None, "requirements.txt not found".to_owned())
                }
            },
            (DepsPhase::CreateWheelhouse, DepsEvent::Done(ok)) => {
                match clone_opt(&self.python) {
                    Some(python) if ok => {
                        self.phase = DepsPhase::Download;
                        self.download(&python)
                    },
                    _ => {
                        let message = cat2("failed to create ", self.wheelhouse.as_str());
                        self.fail(None, message)
                    },
                }
            },
            (DepsPhase::Download, DepsEvent::Done(ok)) => {
                match clone_opt(&self.python) {
                    Some(python) if ok => {
                        self.phase = DepsPhase::Install;
                        self.install(&python)
                    },
                    _ => {
                        let dir = self.wheelhouse.clone();
                        self.fail(Some(dir), "pip download failed".to_owned())
                    },
                }
            },
            (DepsPhase::Install, DepsEvent::Done(ok)) => {
                match clone_opt(&self.python) {
                    Some(python) if ok => {
                        self.phase = DepsPhase::Over;
                        DepsAction::Finish { remove: self.wheelhouse.clone(), python }
                    },
                    _ => {
                        let dir = self.wheelhouse.clone();
                        self.fail(Some(dir), "pip install failed".to_owned())
                    },
                }
            },
            _ => self.fail(None, "unexpected step".to_owned()),
        }
    }
}

}
