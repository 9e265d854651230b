//! Laws of what surrounds the downloads: tokens and settings, the server and the installation it
//! belongs to, selections and their records, and the order of the built-in catalogs.
use crate::actions::{
    endpoint_of, from_source, handed_on, options_of, pypi_order, runs_in_background, selected_ids,
    selection_for, selection_kept, selection_queued, switch_of, PypiSource, SelectionTarget,
    ServerSwitch,
};
use crate::auth::{
    cache_credential, resolved, token_in, CredentialView, EnvView, HfTokenSource, PlacesView,
    TokenFileView,
};
use crate::catalog::{found, Artifact, ArtifactView, CatalogView};
use crate::comfy::{
    clone_arguments, clone_step, configured_as, marks_of, named_as_root, own_python, roots_of,
    search_order, server_status, start_of, start_outcome, stop_of, stop_outcome, with_root,
    CloneStep, InstanceView, ProcessView, PythonFacts, RootFacts, StopPlan,
};
use crate::config::{default_config, repaired, ConfigView};
use crate::download::OptionsView;
use crate::jobs::{Clock, QueueView};
use crate::laws::bundles::{entries_are_found, has_artifact};
use crate::packages::noted;
use crate::paths::joined_path;
use crate::plan::{ActionView, SelectionView};
use crate::state::{ManagedInstall, ManagedState};
use crate::storage::{by_space, first_suitable, StorageView};
use crate::text::{contains_text, decimal, is_white_space, joined, lower_text, trimmed, Text};
use vstd::prelude::*;
use vstd::string::*;

verus! {

/// A token that can be used: not empty, without white space, of no more than 4096 bytes.
pub open spec fn usable(token: Text) -> bool {
    &&& token.len() > 0
    &&& forall|i: int| 0 <= i < token.len() ==> !is_white_space(#[trigger] token[i])
    &&& vstd::utf8::encode_utf8(token).len() <= 4096
}

/// A text holds a token exactly where what is left without the blanks around it can be used; blanks
/// alone hold none, and anything else is refused.
pub proof fn tokens_are_usable(raw: Text)
    ensures
        token_in(raw) == Ok::<Option<Text>, Text>(None) <==> trimmed(raw).len() == 0,
        forall|t: Text| #[trigger]
            usable(t) && trimmed(raw) == t ==> token_in(raw) == Ok::<Option<Text>, Text>(Some(t)),
        token_in(raw) matches Ok(Some(t)) ==> t == trimmed(raw) && usable(t),
        trimmed(raw).len() > 0 && !usable(trimmed(raw)) ==> token_in(raw) is Err,
{
    let t = trimmed(raw);
    if crate::auth::has_white_space(t) {
        let i = choose|i: int| 0 <= i < t.len() && is_white_space(#[trigger] t[i]);
        assert(!usable(t));
    }
}

proof fn usable_is_trimmed(token: Text)
    requires
        usable(token),
    ensures
        token_in(token) == Ok::<Option<Text>, Text>(Some(token)),
{
    assert(!is_white_space(token[0]));
    assert(!is_white_space(token[token.len() - 1]));
    assert(crate::text::trim_start(token) == token);
    assert(crate::text::trim_end(token) == token);
    tokens_are_usable(token);
}

/// A credential, as it is resolved.
pub open spec fn resolves_to(p: PlacesView, token: Text, source: HfTokenSource) -> bool {
    resolved(p) == Ok::<Option<CredentialView>, Text>(Some(CredentialView { token, source }))
}

/// Whether the environment names no file, or one that is not there.
pub open spec fn no_file(explicit: Option<(Text, TokenFileView)>) -> bool {
    explicit matches Some((_, file)) ==> file is Absent
}

/// The token to go by: that of the session; else that of the environment; else that of the file that
/// the environment names; else the one that was saved; else that of the first cache location with a
/// file. Where there is none anywhere, there is none.
pub proof fn tokens_are_resolved_in_order(p: PlacesView, token: Text, path: Text, k: int)
    requires
        usable(token),
    ensures
        p.session == Some(token) ==> resolves_to(p, token, HfTokenSource::Session),
        p.session is None && p.environment == EnvView::Text(token) ==> resolves_to(
            p,
            token,
            HfTokenSource::Environment,
        ),
        p.session is None && p.environment is Absent && p.explicit == Some(
            (path, TokenFileView::Text(token)),
        ) ==> resolves_to(p, token, HfTokenSource::ExplicitTokenPath),
        p.session is None && p.environment is Absent && no_file(p.explicit) && p.saved.1 == TokenFileView::Text(token) ==> resolves_to(
            p,
            token,
            HfTokenSource::ComfyBoxCredential,
        ),
        p.session is None && p.environment is Absent && no_file(p.explicit) && p.saved.1 is Absent && 0 <= k < p.cache.len()
            && p.cache[k].1 == TokenFileView::Text(token) && (forall|i: int|
            0 <= i < k ==> (#[trigger] p.cache[i]).1 is Absent) ==> resolves_to(
            p,
            token,
            HfTokenSource::HuggingFaceCache,
        ),
        p.session is None && p.environment is Absent && no_file(p.explicit) && p.saved.1 is Absent && (forall|i: int|
            0 <= i < p.cache.len() ==> (#[trigger] p.cache[i]).1 is Absent) ==> resolved(p)
            == Ok::<Option<CredentialView>, Text>(None),
        p.session is None && p.environment is NotUnicode ==> resolved(p) is Err,
        p.session is None && p.environment is Absent && (p.explicit matches Some((_, f))
            && f is Unreadable) ==> resolved(p) is Err,
{
    usable_is_trimmed(token);
    assert(trimmed(Seq::<char>::empty()).len() == 0);
    if forall|i: int| 0 <= i < p.cache.len() ==> (#[trigger] p.cache[i]).1 is Absent {
        no_cache(p.cache, 0);
    }
    if 0 <= k < p.cache.len() && p.cache[k].1 == TokenFileView::Text(token) && (forall|i: int|
        0 <= i < k ==> (#[trigger] p.cache[i]).1 is Absent) {
        first_cache(p.cache, 0, k);
    }
}

proof fn no_cache(cache: Seq<(Text, TokenFileView)>, at: int)
    requires
        0 <= at <= cache.len(),
        forall|i: int| 0 <= i < cache.len() ==> (#[trigger] cache[i]).1 is Absent,
    ensures
        cache_credential(cache, at) == Ok::<Option<CredentialView>, Text>(None),
    decreases cache.len() - at,
{
    if at < cache.len() {
        assert(cache[at].1 is Absent);
        no_cache(cache, at + 1);
    }
}

proof fn first_cache(cache: Seq<(Text, TokenFileView)>, at: int, k: int)
    requires
        0 <= at <= k < cache.len(),
        !(cache[k].1 is Absent),
        forall|i: int| 0 <= i < k ==> (#[trigger] cache[i]).1 is Absent,
    ensures
        cache_credential(cache, at) == crate::auth::file_credential(
            cache[k].0,
            cache[k].1,
            HfTokenSource::HuggingFaceCache,
        ),
    decreases k - at,
{
    if at < k {
        assert(cache[at].1 is Absent);
        first_cache(cache, at + 1, k);
    }
}

/// Downloads are carried out with what was configured, asked for and found: the endpoint, the token,
/// whether to replace, and how many chunks of what size. The configured endpoint comes before that
/// of the environment. A token that did not come from the environment is handed on in it.
pub proof fn downloads_use_the_settings(
    cfg: ConfigView,
    endpoint: Option<Text>,
    environment: Option<Text>,
    token: Option<Text>,
    force: bool,
)
    ensures
        options_of(cfg, endpoint, token, force).hf_endpoint == endpoint,
        options_of(cfg, endpoint, token, force).hf_token == token,
        options_of(cfg, endpoint, token, force).force == force,
        options_of(cfg, endpoint, token, force).parallelism == cfg.download_parallelism,
        options_of(cfg, endpoint, token, force).chunk_size_bytes == cfg.chunk_size_bytes,
        endpoint is Some ==> endpoint_of(endpoint, environment) == endpoint,
        endpoint_of(None, environment) == environment,
        !handed_on(HfTokenSource::Environment),
        handed_on(HfTokenSource::Session),
        handed_on(HfTokenSource::ExplicitTokenPath),
        handed_on(HfTokenSource::ComfyBoxCredential),
        handed_on(HfTokenSource::HuggingFaceCache),
{
}

/// The settings of a first run, and of a file that holds zeros or no index: four chunks of 16 MiB,
/// two files at a time, the official package index. What was set stays.
pub proof fn settings_have_their_defaults(c: ConfigView)
    ensures
        default_config().comfy_path is None,
        default_config().hf_endpoint is None,
        default_config().pypi_index_url == "https://pypi.org/simple"@,
        default_config().download_parallelism == 4,
        default_config().chunk_size_bytes == 16 * 1024 * 1024,
        default_config().max_concurrent_downloads == 2,
        default_config().comfy_reserve_vram_bits == 0x4080_0000,
        repaired(c).comfy_path == c.comfy_path,
        repaired(c).hf_endpoint == c.hf_endpoint,
        repaired(c).comfy_reserve_vram_bits == c.comfy_reserve_vram_bits,
        c.download_parallelism > 0 ==> repaired(c).download_parallelism == c.download_parallelism,
        c.download_parallelism == 0 ==> repaired(c).download_parallelism == 4,
        c.chunk_size_bytes > 0 ==> repaired(c).chunk_size_bytes == c.chunk_size_bytes,
        c.chunk_size_bytes == 0 ==> repaired(c).chunk_size_bytes == 16 * 1024 * 1024,
        c.max_concurrent_downloads > 0 ==> repaired(c).max_concurrent_downloads
            == c.max_concurrent_downloads,
        c.max_concurrent_downloads == 0 ==> repaired(c).max_concurrent_downloads == 2,
        c.pypi_index_url.len() > 0 ==> repaired(c).pypi_index_url == c.pypi_index_url,
        c.pypi_index_url.len() == 0 ==> repaired(c).pypi_index_url == "https://pypi.org/simple"@,
{
}

/// A server is started only where none is recorded, in the root of its installation, by the
/// installation's own Python, the one found in it or the system's, in this order, listening where it
/// was asked to, with the node manager enabled, and with its log below the root.
pub proof fn servers_are_started(
    windows: bool,
    instance: InstanceView,
    found_python: Option<Text>,
    host: Text,
    port: u16,
    pid: Option<u32>,
)
    ensures
        ({
            let r = start_of(windows, instance, found_python, host, port, pid);
            &&& r is Ok <==> pid is None
            &&& r matches Ok(plan) ==> {
                &&& plan.args == seq![
                    "main.py"@,
                    "--listen"@,
                    host,
                    "--port"@,
                    decimal(port as nat),
                    "--enable-manager"@,
                ]
                &&& plan.directory == instance.root
                &&& plan.log_path == joined_path(
                    windows,
                    joined_path(windows, instance.root, ".comfybox"@),
                    "comfyui.log"@,
                )
                &&& instance.python matches Some(own) ==> plan.program == own
                &&& instance.python is None && found_python is Some ==> plan.program
                    == found_python->0
                &&& instance.python is None && found_python is None ==> plan.program == if windows {
                    "python"@
                } else {
                    "python3"@
                }
            }
        }),
{
}

/// A start is a success exactly where the server did not exit at once and has a process; a stop
/// where its process is gone or was signalled.
pub proof fn starts_and_stops_are_judged(
    exited: Option<Text>,
    pid: Option<u32>,
    log: Text,
    signalled: u32,
    sent: bool,
)
    ensures
        start_outcome(exited, pid, log) is Ok <==> exited is None && pid is Some,
        start_outcome(exited, pid, log) matches Ok(n) ==> pid == Some(n),
        stop_outcome(StopPlan::Forget, sent) is None,
        stop_outcome(StopPlan::Signal(signalled), sent) is None <==> sent,
{
}

/// The server counts as running exactly where it is recorded and the process with its number looks
/// like it: it runs `main.py`, and mentions ComfyUI or works in the root. Only a number without a
/// process is forgotten.
pub proof fn servers_are_recognised(
    windows: bool,
    pid: Option<u32>,
    process: Option<ProcessView>,
    root: Text,
)
    ensures
        ({
            let looks = process matches Some(p) && contains_text(
                joined(p.command, " "@),
                "main.py"@,
            ) && (contains_text(joined(p.command, " "@), "ComfyUI"@) || (p.cwd matches Some(cwd)
                && crate::paths::components_of(windows, cwd) == crate::paths::components_of(
                windows,
                root,
            )));
            &&& server_status(windows, pid, process, root).0 <==> pid is Some && looks
            &&& server_status(windows, pid, process, root).1 <==> pid is Some && process is None
            &&& stop_of(windows, pid, process, root) is Ok <==> pid is Some && (process is None
                || looks)
            &&& stop_of(windows, pid, process, root) matches Ok(StopPlan::Signal(n)) ==> pid
                == Some(n) && looks
            &&& pid is Some && looks ==> stop_of(windows, pid, process, root) == Ok::<
                StopPlan,
                Text,
            >(StopPlan::Signal(pid->0))
        }),
{
}

/// An installation is where it is configured, as long as its `main.py`, `comfy` and `models` are
/// there; its Python is that of `.venv`, else that of `venv`.
pub proof fn installations_are_recognised(
    windows: bool,
    path: Option<Text>,
    root_facts: RootFacts,
    python_facts: PythonFacts,
    root: Text,
)
    ensures
        configured_as(windows, path, root_facts, python_facts) is Ok <==> path is Some
            && root_facts.main_is_file && root_facts.comfy_is_dir && root_facts.models_is_dir,
        configured_as(windows, path, root_facts, python_facts) matches Ok(i) ==> path == Some(i.root)
            && i.python == own_python(i.root, windows, python_facts),
        marks_of(windows, root) == (
            joined_path(windows, root, "main.py"@),
            joined_path(windows, root, "comfy"@),
            joined_path(windows, root, "models"@),
        ),
        python_facts.dot_venv ==> own_python(root, windows, python_facts) == Some(
            joined_path(
                windows,
                root,
                if windows {
                    ".venv/Scripts/python.exe"@
                } else {
                    ".venv/bin/python"@
                },
            ),
        ),
        !python_facts.dot_venv && python_facts.venv ==> own_python(root, windows, python_facts)
            == Some(
            joined_path(
                windows,
                root,
                if windows {
                    "venv/Scripts/python.exe"@
                } else {
                    "venv/bin/python"@
                },
            ),
        ),
        !python_facts.dot_venv && !python_facts.venv ==> own_python(root, windows, python_facts)
            is None,
        named_as_root(windows, root) <==> (crate::paths::file_name_of(windows, root) matches Some(n)
            && lower_text(n) == "comfyui"@),
{
    reveal_strlit("ComfyUI");
    reveal_strlit("comfyui");
    assert(lower_text("ComfyUI"@) =~= "comfyui"@);
}

/// A search begins in the working directory, the home directory, the given roots and every mounted
/// volume, in this order.
pub proof fn searches_begin_everywhere(
    cwd: Text,
    home: Text,
    extra: Seq<Text>,
    mounts: Seq<Text>,
)
    ensures
        search_order(Some(cwd), Some(home), extra, mounts) == seq![cwd, home] + extra + mounts,
        search_order(None, None, extra, mounts) == extra + mounts,
{
    assert(search_order(Some(cwd), Some(home), extra, mounts) =~= seq![cwd, home] + extra + mounts);
    assert(search_order(None, None, extra, mounts) =~= extra + mounts);
}

/// A repository is cloned at depth one to its temporary directory; after the first failure over
/// HTTP/1.1; three times in all.
pub proof fn repositories_are_cloned(url: Text, target: Text, attempt: u32)
    ensures
        clone_arguments(url, target, 0) == seq!["clone"@, "--depth"@, "1"@, url, target],
        attempt > 0 ==> clone_arguments(url, target, attempt) == seq![
            "-c"@,
            "http.version=HTTP/1.1"@,
            "clone"@,
            "--depth"@,
            "1"@,
            url,
            target,
        ],
        clone_step(attempt, true) == CloneStep::Publish,
        clone_step(attempt, false) == if attempt < 2 {
            CloneStep::CleanAndRetry
        } else {
            CloneStep::CleanAndFail
        },
{
    assert(clone_arguments(url, target, 0) =~= seq!["clone"@, "--depth"@, "1"@, url, target]);
    if attempt > 0 {
        assert(clone_arguments(url, target, attempt) =~= seq![
            "-c"@,
            "http.version=HTTP/1.1"@,
            "clone"@,
            "--depth"@,
            "1"@,
            url,
            target,
        ]);
    }
}

/// The server's switch is refused while the Python dependencies are not ready; else it stops what
/// runs and starts what does not.
pub proof fn the_switch_waits_for_dependencies(running: bool)
    ensures
        switch_of(false, running) is Err,
        switch_of(true, true) == Ok::<ServerSwitch, Text>(ServerSwitch::Stop),
        switch_of(true, false) == Ok::<ServerSwitch, Text>(ServerSwitch::Start),
{
}

/// The recommended volume is one of those found, stays in its place, has more than 2 GiB free, and
/// none such has more. Where there is one such, one is recommended.
pub proof fn the_roomiest_fixed_volume_is_recommended(s: Seq<StorageView>, y: StorageView)
    ensures
        first_suitable(by_space(s), 0) matches Some(x) ==> s.contains(x) && !x.removable
            && x.available_bytes > 2 * 1024 * 1024 * 1024,
        s.contains(y) && !y.removable && y.available_bytes > 2 * 1024 * 1024 * 1024 ==> (
        first_suitable(by_space(s), 0) matches Some(x) && x.available_bytes >= y.available_bytes),
{
    if s.contains(y) && !y.removable && y.available_bytes > 2 * 1024 * 1024 * 1024 {
        crate::laws::packages::the_largest_suitable_volume_is_recommended(s, y);
    }
    if let Some(x) = first_suitable(by_space(s), 0) {
        suitable_is_found(by_space(s), 0);
        crate::laws::packages::volumes_are_listed_by_space(s, x);
    }
}

proof fn suitable_is_found(s: Seq<StorageView>, at: int)
    requires
        0 <= at <= s.len(),
    ensures
        first_suitable(s, at) matches Some(x) ==> s.contains(x) && !x.removable && x.available_bytes
            > 2 * 1024 * 1024 * 1024,
    decreases s.len() - at,
{
    if at < s.len() {
        suitable_is_found(s, at + 1);
    }
}

/// What an artifact is downloaded from: the address of the chosen source, with the size that the
/// source gives, where it gives one; nothing else of the artifact changes.
pub proof fn sources_are_used(a: ArtifactView, source: usize)
    ensures
        ({
            let r = from_source(a, source);
            &&& r.id == a.id && r.name == a.name && r.relative_path == a.relative_path && r.sha256
                == a.sha256 && r.gated == a.gated
            &&& source < a.sources.len() ==> r.url == a.sources[source as int].url
            &&& source < a.sources.len() && a.sources[source as int].size_bytes is Some
                ==> r.size_bytes == a.sources[source as int].size_bytes
            &&& source < a.sources.len() && a.sources[source as int].size_bytes is None
                ==> r.size_bytes == a.size_bytes
            &&& source >= a.sources.len() ==> r == a
        }),
{
}

/// The artifacts of a selection are those that it names, in order, each from its chosen source;
/// refused where the catalog does not have one of them.
pub proof fn selections_name_their_artifacts(
    c: CatalogView,
    chosen: Seq<(Text, usize)>,
    end: int,
)
    requires
        0 <= end <= chosen.len(),
    ensures
        selection_for(c, chosen, end) is Ok <==> forall|i: int|
            0 <= i < end ==> has_artifact(c, (#[trigger] chosen[i]).0),
        selection_for(c, chosen, end) matches Ok(v) ==> v.len() == end && forall|i: int|
            0 <= i < end ==> (#[trigger] v[i]).id == chosen[i].0 && exists|k: int|
                0 <= k < c.artifacts.len() && (#[trigger] c.artifacts[k]).id == chosen[i].0 && v[i]
                    == from_source(c.artifacts[k], chosen[i].1),
    decreases end,
{
    if end > 0 {
        selections_name_their_artifacts(c, chosen, end - 1);
        entries_are_found(c, chosen[end - 1].0);
        if let Some(a) = found::<Artifact>(c.artifacts, chosen[end - 1].0) {
            let k = choose|k: int| 0 <= k < c.artifacts.len() && c.artifacts[k] == a;
            assert(c.artifacts[k].id == chosen[end - 1].0);
        }
    }
}

proof fn selected_members(chosen: Seq<(Text, usize)>, end: int, x: Text)
    requires
        0 <= end <= chosen.len(),
    ensures
        selected_ids(chosen, end).contains(x) <==> exists|i: int|
            0 <= i < end && (#[trigger] chosen[i]).0 == x,
    decreases end,
{
    if end > 0 {
        selected_members(chosen, end - 1, x);
        if exists|i: int| 0 <= i < end && (#[trigger] chosen[i]).0 == x {
            let i = choose|i: int| 0 <= i < end && (#[trigger] chosen[i]).0 == x;
            if i < end - 1 {
                assert(chosen[i].0 == x);
            }
        }
    }
}

/// What is recorded of a selection is exactly what it chose, for its own package or workflow; the
/// records of the others stay. For a single artifact nothing is recorded.
pub proof fn selections_are_recorded(
    before: ManagedState,
    after: ManagedState,
    s: SelectionView,
    x: Text,
    other: Text,
)
    ensures
        selection_kept(SelectionTarget::Package, before, after, s) ==> ({
            &&& after.packages@.contains_key(s.id)
            &&& after.packages@[s.id].artifact_ids@.contains(x) <==> exists|i: int|
                0 <= i < s.artifact_sources.len() && (#[trigger] s.artifact_sources[i]).0 == x
            &&& after.packages@[s.id].custom_node_ids@.contains(x) <==> s.custom_node_ids.contains(
                x,
            )
            &&& after.workflows == before.workflows
            &&& other != s.id && before.packages@.contains_key(other)
                ==> after.packages@.contains_key(other) && after.packages@[other]
                == before.packages@[other]
        }),
        selection_kept(SelectionTarget::Workflow, before, after, s) ==> ({
            &&& after.workflows@.contains_key(s.id)
            &&& after.workflows@[s.id].artifact_ids@.contains(x) <==> exists|i: int|
                0 <= i < s.artifact_sources.len() && (#[trigger] s.artifact_sources[i]).0 == x
            &&& after.workflows@[s.id].custom_node_ids@.contains(x) <==> s.custom_node_ids.contains(
                x,
            )
            &&& after.packages == before.packages
            &&& other != s.id && before.workflows@.contains_key(other)
                ==> after.workflows@.contains_key(other) && after.workflows@[other]
                == before.workflows@[other]
        }),
        selection_kept(SelectionTarget::Artifact, before, after, s) ==> after == before,
{
    selected_members(s.artifact_sources, s.artifact_sources.len() as int, x);
    assert(s.custom_node_ids.to_set().contains(x) == s.custom_node_ids.contains(x));
    if selection_kept(SelectionTarget::Package, before, after, s) {
        if other != s.id && before.packages@.contains_key(other) {
            assert(before.packages@.remove(s.id).contains_key(other));
            assert(after.packages@.remove(s.id).contains_key(other));
            assert(after.packages@.remove(s.id)[other] == before.packages@.remove(s.id)[other]);
        }
    }
    if selection_kept(SelectionTarget::Workflow, before, after, s) {
        if other != s.id && before.workflows@.contains_key(other) {
            assert(before.workflows@.remove(s.id).contains_key(other));
            assert(after.workflows@.remove(s.id).contains_key(other));
            assert(after.workflows@.remove(s.id)[other] == before.workflows@.remove(s.id)[other]);
        }
    }
}

/// Every artifact of a selection is queued: nothing of it is at rest afterwards.
pub proof fn selections_are_queued(
    q: QueueView,
    c: CatalogView,
    root: Text,
    s: SelectionView,
    options: OptionsView,
    now: Clock,
    k: int,
)
    requires
        selection_for(c, s.artifact_sources, s.artifact_sources.len() as int) is Ok,
        0 <= k < s.artifact_sources.len(),
    ensures
        !crate::laws::scheduling::at_rest(
            selection_queued(q, c, root, s, options, now).0.jobs,
            s.artifact_sources[k].0,
        ),
{
    let v = crate::actions::selection_artifacts(c, s);
    selections_name_their_artifacts(c, s.artifact_sources, s.artifact_sources.len() as int);
    assert(v[k].id == s.artifact_sources[k].0);
    crate::laws::scheduling::every_artifact_is_queued(q, root, v, options, now, k);
    let next = q.enqueued(root, v, options, now).0;
    nodes_leave_downloads(next, root, crate::actions::selection_nodes(c, s), now);
}

proof fn nodes_leave_downloads(
    q: QueueView,
    root: Text,
    nodes: Seq<crate::catalog::NodeView>,
    now: Clock,
)
    ensures
        q.queue_nodes(root, nodes, now).jobs == q.jobs,
    decreases nodes.len(),
{
    if nodes.len() > 0 {
        nodes_leave_downloads(q, root, nodes.drop_last(), now);
    }
}

/// What was installed is recorded for its package or workflow, in place of what was; the records of
/// the others stay.
pub proof fn installations_are_recorded(
    before: Map<Text, ManagedInstall>,
    after: Map<Text, ManagedInstall>,
    id: Text,
    artifacts: Set<Text>,
    nodes: Set<Text>,
    other: Text,
)
    requires
        noted(before, after, id, artifacts, nodes),
    ensures
        after.contains_key(id),
        after[id].artifact_ids@ == artifacts,
        after[id].custom_node_ids@ == nodes,
        other != id ==> (after.contains_key(other) <==> before.contains_key(other)),
        other != id && before.contains_key(other) ==> after[other] == before[other],
{
    assert(after.dom().contains(id));
    if other != id {
        assert(after.dom().contains(other) == before.dom().contains(other));
    }
}

/// The actions after which the dashboard comes back at once are those that only queue work.
pub proof fn queueing_actions_return_at_once(s: SelectionView, id: Text)
    ensures
        runs_in_background(ActionView::InstallPackage(s)),
        runs_in_background(ActionView::InstallArtifact(s)),
        runs_in_background(ActionView::InstallWorkflow(s)),
        runs_in_background(ActionView::InstallCustomNode(id)),
        runs_in_background(ActionView::InstallPythonDeps),
        runs_in_background(ActionView::InstallSystemDeps),
        !runs_in_background(ActionView::Quit),
        !runs_in_background(ActionView::InstallComfyUi),
        !runs_in_background(ActionView::LocateComfyUi),
        !runs_in_background(ActionView::ConfigurePypi),
        !runs_in_background(ActionView::SetHfToken),
        !runs_in_background(ActionView::ToggleServer),
{
}

/// The package indexes that can be chosen are the official one, Alibaba's and Tsinghua's, each once
/// and the current one first.
pub proof fn indexes_are_offered(current: Text)
    ensures
        pypi_order(current).len() == 3,
        forall|s: PypiSource| #[trigger] pypi_order(current).contains(s),
        forall|s: PypiSource|
            current == #[trigger] s.address() ==> pypi_order(current)[0].address() == current,
        PypiSource::Official.address() == "https://pypi.org/simple"@,
        PypiSource::Alibaba.address() == "https://mirrors.aliyun.com/pypi/simple/"@,
        PypiSource::Tsinghua.address() == "https://pypi.tuna.tsinghua.edu.cn/simple"@,
{
    let o = pypi_order(current);
    assert forall|s: PypiSource| #[trigger] o.contains(s) by {
        assert(o[0] == s || o[1] == s || o[2] == s);
    }
}

/// An installation that is found is listed once: those found before keep their places, one with the
/// same root is not listed again, and no two have the same root.
pub proof fn installations_are_listed_once(
    s: Seq<InstanceView>,
    windows: bool,
    root: Text,
    facts: PythonFacts,
    i: int,
    j: int,
)
    requires
        forall|a: int, b: int| 0 <= a < b < s.len() ==> (#[trigger] s[a]).root != (#[trigger] s[b]).root,
    ensures
        ({
            let r = with_root(s, windows, root, facts);
            &&& 0 <= i < s.len() ==> r[i] == s[i]
            &&& exists|k: int| 0 <= k < r.len() && (#[trigger] r[k]).root == root
            &&& 0 <= i < j < r.len() ==> r[i].root != r[j].root
            &&& (forall|k: int| 0 <= k < s.len() ==> (#[trigger] s[k]).root != root) ==> r.len()
                == s.len() + 1 && r.last().python == own_python(root, windows, facts)
        }),
{
    let r = with_root(s, windows, root, facts);
    let roots = roots_of(s);
    if roots.contains(root) {
        let k = choose|k: int| 0 <= k < roots.len() && roots[k] == root;
        assert(r[k].root == root);
        assert(s[k].root == root);
    } else {
        assert(r[s.len() as int].root == root);
        assert forall|k: int| 0 <= k < s.len() implies (#[trigger] s[k]).root != root by {
            assert(roots[k] == s[k].root);
        }
    }
}

}
