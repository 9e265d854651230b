//! Laws of the dashboard's keys and of the plan editor: what each key does where, what a plan lists,
//! what it leaves out, and what it asks for when it is accepted.
use crate::catalog::{
    found, group_artifacts_from, Artifact, ArtifactView, CatalogView, GroupView, Package,
    PackageView, WorkflowDefinition,
};
use crate::dashboard::{
    below, library_of, opened, optional_ids, section_at, sections_differ, Board, DashView,
    KeyOutcomeView, Section,
};
use crate::ids::ascending_exists;
use crate::jobs::Clock;
use crate::laws::bundles::{references_are_all_that_is_listed, refers_to_node};
use crate::plan::{
    main_models, others, plan_lists, rows_ignore_cursor, ActionView, Key, PlanView, RowView,
    SelectionView, TargetView,
};
use crate::text::Text;
use vstd::prelude::*;
use vstd::string::*;

verus! {

/// The key of a character that is typed.
pub open spec fn typed(c: char) -> Key {
    Key::Char { c, control: false }
}

/// Everywhere outside the plan editor and a focused download: `q` and Esc quit, as Ctrl-C does, `l`
/// locates and `i` installs ComfyUI, and `t` saves a token. None of them changes anything here.
pub proof fn global_keys(board: Board, c: CatalogView, root_valid: bool, now: Clock)
    requires
        board.dash.plan_editor is None,
    ensures
        board.after(c, typed('q'), root_valid, now) == (
            board,
            KeyOutcomeView::Act(ActionView::Quit),
        ),
        !board.dash.download_detail ==> board.after(c, Key::Esc, root_valid, now) == (
            board,
            KeyOutcomeView::Act(ActionView::Quit),
        ),
        board.after(c, Key::Char { c: 'c', control: true }, root_valid, now) == (
            board,
            KeyOutcomeView::Act(ActionView::Quit),
        ),
        board.after(c, typed('l'), root_valid, now) == (
            board,
            KeyOutcomeView::Act(ActionView::LocateComfyUi),
        ),
        board.after(c, typed('i'), root_valid, now) == (
            board,
            KeyOutcomeView::Act(ActionView::InstallComfyUi),
        ),
        board.after(c, typed('t'), root_valid, now) == (
            board,
            KeyOutcomeView::Act(ActionView::SetHfToken),
        ),
{
}

/// `s` and `p` want a valid installation: then the server is switched and the Python dependencies are
/// installed, and else neither is.
pub proof fn keys_that_want_an_installation(board: Board, c: CatalogView, now: Clock)
    requires
        board.dash.plan_editor is None,
    ensures
        board.after(c, typed('s'), true, now) == (board, KeyOutcomeView::CheckServer),
        board.after(c, typed('s'), false, now) == (board, KeyOutcomeView::Nothing),
        board.after(c, typed('p'), true, now) == (
            board,
            KeyOutcomeView::Act(ActionView::InstallPythonDeps),
        ),
        board.after(c, typed('p'), false, now).1 == KeyOutcomeView::Nothing,
        board.after(c, typed('p'), false, now).0.queue.jobs == board.queue.jobs,
        board.after(c, typed('p'), false, now).0.queue.python_deps == board.queue.python_deps,
        board.after(c, typed('p'), false, now).0.queue.logs.last().len() > 0,
{
    reveal_strlit("[");
}

/// In Downloads `x` pauses, `c` continues and `r` tries again the selected record, Enter focuses it,
/// and `b` and Esc give it back to the background.
pub proof fn download_keys(board: Board, c: CatalogView, root_valid: bool, now: Clock)
    requires
        board.dash.plan_editor is None,
        board.dash.section == Section::Downloads,
    ensures
        ({
            let at = board.dash.download_index as int;
            &&& board.after(c, typed('x'), root_valid, now) == (
                Board { queue: board.queue.paused(at, now), ..board },
                KeyOutcomeView::Nothing,
            )
            &&& board.after(c, typed('c'), root_valid, now) == (
                Board { queue: board.queue.resumed(at, now), ..board },
                KeyOutcomeView::Nothing,
            )
            &&& board.after(c, typed('r'), root_valid, now) == (
                Board { queue: board.queue.retried(at, now), ..board },
                KeyOutcomeView::Nothing,
            )
            &&& board.after(c, Key::Enter, root_valid, now) == (
                Board { dash: DashView { download_detail: true, ..board.dash }, ..board },
                KeyOutcomeView::Nothing,
            )
            &&& board.after(c, typed('b'), root_valid, now) == (
                Board { dash: DashView { download_detail: false, ..board.dash }, ..board },
                KeyOutcomeView::Nothing,
            )
            &&& board.dash.download_detail ==> board.after(c, Key::Esc, root_valid, now) == (
                Board { dash: DashView { download_detail: false, ..board.dash }, ..board },
                KeyOutcomeView::Nothing,
            )
        }),
{
}

/// In Settings `+` and `-` change how many files, and `]` and `[` how many chunks of a file, are
/// downloaded at a time, by one and between 1 and 32; the queue learns of the chunks, and the
/// configuration is saved. `y` chooses the package index.
pub proof fn setting_keys(board: Board, c: CatalogView, root_valid: bool, now: Clock)
    requires
        board.dash.plan_editor is None,
        board.dash.section == Section::Settings,
        1 <= board.cfg.max_concurrent_downloads <= 32,
        1 <= board.cfg.download_parallelism <= 32,
    ensures
        ({
            let files = board.cfg.max_concurrent_downloads;
            let chunks = board.cfg.download_parallelism;
            let (a, ao) = board.after(c, typed('+'), root_valid, now);
            let (b, bo) = board.after(c, typed('-'), root_valid, now);
            let (d, do_) = board.after(c, typed(']'), root_valid, now);
            let (e, eo) = board.after(c, typed('['), root_valid, now);
            &&& ao == KeyOutcomeView::SaveConfig && bo == KeyOutcomeView::SaveConfig && do_
                == KeyOutcomeView::SaveConfig && eo == KeyOutcomeView::SaveConfig
            &&& a.cfg.max_concurrent_downloads == if files < 32 {
                files + 1
            } else {
                32
            }
            &&& b.cfg.max_concurrent_downloads == if files > 1 {
                files - 1
            } else {
                1
            }
            &&& a.queue == board.queue && b.queue == board.queue
            &&& a.cfg.download_parallelism == chunks && b.cfg.download_parallelism == chunks
            &&& d.cfg.download_parallelism == if chunks < 32 {
                chunks + 1
            } else {
                32
            }
            &&& e.cfg.download_parallelism == if chunks > 1 {
                chunks - 1
            } else {
                1
            }
            &&& d.queue == board.queue.with_parallelism(d.cfg.download_parallelism, now)
            &&& e.queue == board.queue.with_parallelism(e.cfg.download_parallelism, now)
            &&& d.cfg.max_concurrent_downloads == files && e.cfg.max_concurrent_downloads == files
            &&& a.cfg.hf_endpoint == board.cfg.hf_endpoint && d.cfg.hf_endpoint
                == board.cfg.hf_endpoint
            &&& a.cfg.comfy_path == board.cfg.comfy_path && d.cfg.comfy_path
                == board.cfg.comfy_path
            &&& board.after(c, typed('y'), root_valid, now) == (
                board,
                KeyOutcomeView::Act(ActionView::ConfigurePypi),
            )
        }),
{
}

/// Outside Downloads `r` refreshes.
pub proof fn the_refresh_key(board: Board, c: CatalogView, root_valid: bool, now: Clock)
    requires
        board.dash.plan_editor is None,
        board.dash.section != Section::Downloads,
    ensures
        board.after(c, typed('r'), root_valid, now).1 == KeyOutcomeView::Refresh,
        board.after(c, typed('r'), root_valid, now).0.dash == board.dash,
        board.after(c, typed('r'), root_valid, now).0.cfg == board.cfg,
{
}

/// The sections in their order.
pub open spec fn sections() -> Seq<Section> {
    seq![
        Section::Overview,
        Section::Models,
        Section::Loras,
        Section::Vaes,
        Section::TextEncoders,
        Section::Upscalers,
        Section::RuntimeModels,
        Section::CustomNodes,
        Section::Workflows,
        Section::Downloads,
        Section::Logs,
        Section::Settings,
        Section::System,
    ]
}

proof fn numbered(i: int)
    requires
        0 <= i < 13,
    ensures
        sections()[i].order() == i,
        section_at(i as usize) == sections()[i],
{
    let s = sections()[i];
    assert(s.order() == i);
    sections_differ(section_at(i as usize), s);
}

/// Right and Tab go to the next section, Left and back-Tab to the one before, round and round; a
/// digit goes to the section with that number.
pub proof fn section_keys(board: Board, c: CatalogView, root_valid: bool, now: Clock, i: int)
    requires
        board.dash.plan_editor is None,
        0 <= i < 13,
        board.dash.section == sections()[i],
    ensures
        board.after(c, Key::Right, root_valid, now).0.dash.section == sections()[if i < 12 {
            i + 1
        } else {
            0
        }],
        board.after(c, Key::Tab, root_valid, now).0.dash.section == sections()[if i < 12 {
            i + 1
        } else {
            0
        }],
        board.after(c, Key::Left, root_valid, now).0.dash.section == sections()[if i > 0 {
            i - 1
        } else {
            12
        }],
        board.after(c, Key::BackTab, root_valid, now).0.dash.section == sections()[if i > 0 {
            i - 1
        } else {
            12
        }],
        board.after(c, typed('1'), root_valid, now).0.dash.section == Section::Overview,
        board.after(c, typed('2'), root_valid, now).0.dash.section == Section::Models,
        board.after(c, typed('9'), root_valid, now).0.dash.section == Section::Workflows,
        board.after(c, Key::Right, root_valid, now).1 == KeyOutcomeView::Nothing,
        board.after(c, Key::Left, root_valid, now).1 == KeyOutcomeView::Nothing,
        board.after(c, Key::Right, root_valid, now).0.queue == board.queue,
{
    numbered(i);
    numbered(
        if i < 12 {
            i + 1
        } else {
            0
        },
    );
    numbered(
        if i > 0 {
            i - 1
        } else {
            12
        },
    );
    numbered(0);
    numbered(1);
    numbered(8);
}

/// The selection of a list moves by one, round and round: down with Down and `j`, up with Up and `k`.
pub open spec fn moves(before: usize, len: nat, down: usize, up: usize) -> bool {
    before < len ==> down == (if before + 1 < len {
        before + 1
    } else {
        0
    }) && up == (if before > 0 {
        before - 1
    } else {
        len - 1
    })
}

proof fn steps_move(index: usize, len: nat)
    requires
        len <= usize::MAX,
    ensures
        moves(
            index,
            len,
            crate::dashboard::stepped(index, len, true),
            crate::dashboard::stepped(index, len, false),
        ),
{
    if index < len {
        let n = len as int;
        if index + 1 < n {
            assert((index + 1) % n == index + 1) by (nonlinear_arith)
                requires
                    0 <= index + 1 < n,
            ;
        } else {
            assert((index + 1) % n == 0) by (nonlinear_arith)
                requires
                    index + 1 == n,
                    n > 0,
            ;
        }
        if index > 0 {
            assert((index - 1) % n == index - 1) by (nonlinear_arith)
                requires
                    0 <= index - 1 < n,
            ;
        } else {
            assert(-1int % n == n - 1) by (nonlinear_arith)
                requires
                    n > 0,
            ;
        }
    }
}

/// Down and Up, as `j` and `k`, move the selection of the section's own list.
pub proof fn selection_keys(board: Board, c: CatalogView, root_valid: bool, now: Clock)
    requires
        board.dash.plan_editor is None,
        c.packages.len() <= usize::MAX,
        c.workflows.len() <= usize::MAX,
        c.custom_nodes.len() <= usize::MAX,
        library_of(c, board.dash.section).len() <= usize::MAX,
        board.queue.snapshots().len() <= usize::MAX,
    ensures
        ({
            let d = board.after(c, Key::Down, root_valid, now).0;
            let u = board.after(c, Key::Up, root_valid, now).0;
            let s = board.dash.section;
            &&& board.after(c, typed('j'), root_valid, now).0 == d
            &&& board.after(c, typed('k'), root_valid, now).0 == u
            &&& d.queue == board.queue && u.queue == board.queue && d.cfg == board.cfg
            &&& s == Section::Models ==> moves(
                board.dash.model_index,
                c.packages.len(),
                d.dash.model_index,
                u.dash.model_index,
            )
            &&& s == Section::Workflows ==> moves(
                board.dash.workflow_index,
                c.workflows.len(),
                d.dash.workflow_index,
                u.dash.workflow_index,
            )
            &&& s == Section::CustomNodes ==> moves(
                board.dash.custom_node_index,
                c.custom_nodes.len(),
                d.dash.custom_node_index,
                u.dash.custom_node_index,
            )
            &&& s == Section::Downloads ==> moves(
                board.dash.download_index,
                board.queue.snapshots().len(),
                d.dash.download_index,
                u.dash.download_index,
            )
            &&& (s == Section::Loras || s == Section::Vaes || s == Section::TextEncoders || s
                == Section::Upscalers || s == Section::RuntimeModels) ==> moves(
                board.dash.artifact_index,
                library_of(c, s).len(),
                d.dash.artifact_index,
                u.dash.artifact_index,
            )
        }),
{
    steps_move(board.dash.model_index, c.packages.len());
    steps_move(board.dash.workflow_index, c.workflows.len());
    steps_move(board.dash.custom_node_index, c.custom_nodes.len());
    steps_move(board.dash.download_index, board.queue.snapshots().len());
    steps_move(board.dash.artifact_index, library_of(c, board.dash.section).len());
}

proof fn below_has(arts: Seq<ArtifactView>, prefix: Text, end: int, a: ArtifactView)
    requires
        0 <= end <= arts.len(),
    ensures
        below(arts, prefix, end).contains(a) <==> exists|k: int|
            0 <= k < end && #[trigger] arts[k] == a && crate::text::has_prefix(
                a.relative_path,
                prefix,
            ),
    decreases end,
{
    if end > 0 {
        below_has(arts, prefix, end - 1, a);
        let r = below(arts, prefix, end);
        let rest = below(arts, prefix, end - 1);
        if crate::text::has_prefix(arts[end - 1].relative_path, prefix) {
            assert(r[rest.len() as int] == arts[end - 1]);
            if rest.contains(a) {
                let k = choose|k: int| 0 <= k < rest.len() && rest[k] == a;
                assert(r[k] == a);
            }
            if r.contains(a) {
                let k = choose|k: int| 0 <= k < r.len() && r[k] == a;
                if k < rest.len() {
                    assert(rest[k] == a);
                } else {
                    assert(arts[end - 1] == a);
                }
            }
        }
        if exists|k: int|
            0 <= k < end && #[trigger] arts[k] == a && crate::text::has_prefix(
                a.relative_path,
                prefix,
            ) {
            let k = choose|k: int|
                0 <= k < end && #[trigger] arts[k] == a && crate::text::has_prefix(
                    a.relative_path,
                    prefix,
                );
            if k < end - 1 {
                assert(arts[k] == a);
            }
        }
    }
}

/// `path` lies in the directory.
pub open spec fn lies_in(path: Text, dir: Text) -> bool {
    exists|rest: Text| path == #[trigger] (dir + rest)
}

proof fn prefix_is_directory(path: Text, dir: Text)
    ensures
        crate::text::has_prefix(path, dir) <==> lies_in(path, dir),
{
    if crate::text::has_prefix(path, dir) {
        assert(path =~= dir + path.skip(dir.len() as int));
    }
    if lies_in(path, dir) {
        let rest = choose|rest: Text| path == #[trigger] (dir + rest);
        assert(path.take(dir.len() as int) =~= dir);
    }
}

/// The library sections list the artifacts of their own directories, and all of them.
pub proof fn libraries_list_their_directories(c: CatalogView, a: ArtifactView)
    ensures
        library_of(c, Section::Loras).contains(a) <==> c.artifacts.contains(a) && lies_in(
            a.relative_path,
            "models/loras/"@,
        ),
        library_of(c, Section::Vaes).contains(a) <==> c.artifacts.contains(a) && lies_in(
            a.relative_path,
            "models/vae/"@,
        ),
        library_of(c, Section::TextEncoders).contains(a) <==> c.artifacts.contains(a) && lies_in(
            a.relative_path,
            "models/text_encoders/"@,
        ),
        library_of(c, Section::Upscalers).contains(a) <==> c.artifacts.contains(a) && lies_in(
            a.relative_path,
            "models/upscale_models/"@,
        ),
        library_of(c, Section::RuntimeModels).contains(a) <==> c.artifacts.contains(a) && lies_in(
            a.relative_path,
            "runtime_models/"@,
        ),
{
    let n = c.artifacts.len() as int;
    below_has(c.artifacts, "models/loras/"@, n, a);
    below_has(c.artifacts, "models/vae/"@, n, a);
    below_has(c.artifacts, "models/text_encoders/"@, n, a);
    below_has(c.artifacts, "models/upscale_models/"@, n, a);
    below_has(c.artifacts, "runtime_models/"@, n, a);
    prefix_is_directory(a.relative_path, "models/loras/"@);
    prefix_is_directory(a.relative_path, "models/vae/"@);
    prefix_is_directory(a.relative_path, "models/text_encoders/"@);
    prefix_is_directory(a.relative_path, "models/upscale_models/"@);
    prefix_is_directory(a.relative_path, "runtime_models/"@);
}

/// Enter in Models, Workflows and the libraries opens the plan of the selected entry, where the
/// installation is valid; in Custom Nodes it installs the selected one, and in System the system
/// packages.
pub proof fn enter_opens_or_installs(board: Board, c: CatalogView, now: Clock)
    requires
        board.dash.plan_editor is None,
    ensures
        ({
            let (next, outcome) = board.after(c, Key::Enter, true, now);
            let d = board.dash;
            &&& d.section == Section::Models && d.model_index < c.packages.len()
                && c.packages[d.model_index as int].primary_artifact_ids.len() > 0 ==> (
            next.dash.plan_editor matches Some(e) && e.target == TargetView::Package(
                c.packages[d.model_index as int].id,
            ))
            &&& d.section == Section::Models && d.model_index < c.packages.len()
                && c.packages[d.model_index as int].primary_artifact_ids.len() == 0 ==> next == board
            &&& d.section == Section::Workflows && d.workflow_index < c.workflows.len() ==> (
            next.dash.plan_editor matches Some(e) && e.target == TargetView::Workflow(
                c.workflows[d.workflow_index as int].id,
            ))
            &&& (d.section == Section::Loras || d.section == Section::Vaes || d.section
                == Section::TextEncoders || d.section == Section::Upscalers || d.section
                == Section::RuntimeModels) && d.artifact_index < library_of(c, d.section).len() ==> (
            next.dash.plan_editor matches Some(e) && e.target == TargetView::Artifact(
                library_of(c, d.section)[d.artifact_index as int].id,
            ))
            &&& d.section == Section::CustomNodes && d.custom_node_index < c.custom_nodes.len()
                ==> outcome == KeyOutcomeView::Act(
                ActionView::InstallCustomNode(c.custom_nodes[d.custom_node_index as int].id),
            )
            &&& d.section == Section::System && c.system_dependencies.len() > 0 ==> outcome
                == KeyOutcomeView::Act(ActionView::InstallSystemDeps)
            &&& next.queue == board.queue
            &&& next.cfg == board.cfg
        }),
{
}

proof fn in_the_sum(a: Seq<Text>, b: Seq<Text>, x: Text)
    ensures
        (a + b).contains(x) <==> a.contains(x) || b.contains(x),
{
    let all = a + b;
    if a.contains(x) {
        let i = choose|i: int| 0 <= i < a.len() && a[i] == x;
        assert(all[i] == x);
    }
    if b.contains(x) {
        let i = choose|i: int| 0 <= i < b.len() && b[i] == x;
        assert(all[a.len() + i] == x);
    }
    if all.contains(x) {
        let i = choose|i: int| 0 <= i < all.len() && all[i] == x;
        if i < a.len() {
            assert(a[i] == x);
        } else {
            assert(b[i - a.len()] == x);
        }
    }
}

proof fn groups_have(g: Seq<GroupView>, at: int, x: Text)
    requires
        0 <= at <= g.len(),
    ensures
        group_artifacts_from(g, at).contains(x) <==> exists|i: int|
            at <= i < g.len() && (#[trigger] g[i]).artifact_ids.contains(x),
    decreases g.len() - at,
{
    if at < g.len() {
        groups_have(g, at + 1, x);
        in_the_sum(g[at].artifact_ids, group_artifacts_from(g, at + 1), x);
        if exists|i: int| at <= i < g.len() && (#[trigger] g[i]).artifact_ids.contains(x) {
            let i = choose|i: int| at <= i < g.len() && (#[trigger] g[i]).artifact_ids.contains(x);
            if i > at {
                assert(g[i].artifact_ids.contains(x));
            }
        }
    }
}

/// The optional groups of the package have the artifact or the custom node.
pub open spec fn optional(p: PackageView, x: Text) -> bool {
    exists|g: int|
        0 <= g < p.optional_groups.len() && ((
        #[trigger] p.optional_groups[g]).artifact_ids.contains(x)
            || p.optional_groups[g].custom_node_ids.contains(x))
}

/// The plan of a package lists its primary artifacts as its models, in their order; as dependencies
/// its dependencies and the artifacts of its optional groups; and its custom nodes with theirs.
pub proof fn package_plans_list(c: CatalogView, id: Text, p: PackageView, x: Text)
    requires
        found::<Package>(c.packages, id) == Some(p),
    ensures
        ({
            let lists = plan_lists(c, TargetView::Package(id));
            &&& lists.models == p.primary_artifact_ids
            &&& lists.dependencies.contains(x) <==> p.dependency_artifact_ids.contains(x) || exists|
                g: int,
            |
                0 <= g < p.optional_groups.len() && (
                #[trigger] p.optional_groups[g]).artifact_ids.contains(x)
            &&& lists.nodes.contains(x) <==> refers_to_node(p, x)
        }),
{
    let lists = plan_lists(c, TargetView::Package(id));
    let deps = p.dependency_artifact_ids + group_artifacts_from(p.optional_groups, 0);
    ascending_exists(deps);
    ascending_exists(p.node_refs());
    in_the_sum(p.dependency_artifact_ids, group_artifacts_from(p.optional_groups, 0), x);
    groups_have(p.optional_groups, 0, x);
    references_are_all_that_is_listed(p, x);
    assert(lists.dependencies.contains(x) == lists.dependencies.to_set().contains(x));
    assert(deps.contains(x) == deps.to_set().contains(x));
    assert(lists.nodes.contains(x) == lists.nodes.to_set().contains(x));
    assert(p.node_refs().contains(x) == p.node_refs().to_set().contains(x));
}

/// The plan of a workflow lists each of its artifacts, as a model or as a dependency, and its custom
/// nodes; that of an artifact the artifact alone.
pub proof fn other_plans_list(c: CatalogView, id: Text, x: Text)
    ensures
        found::<WorkflowDefinition>(c.workflows, id) matches Some(w) ==> ({
            let lists = plan_lists(c, TargetView::Workflow(id));
            &&& lists.models.contains(x) || lists.dependencies.contains(x)
                <==> w.artifact_ids.contains(x)
            &&& lists.nodes == w.custom_node_ids
        }),
        found::<Artifact>(c.artifacts, id) is Some ==> ({
            let lists = plan_lists(c, TargetView::Artifact(id));
            &&& lists.models == seq![id]
            &&& lists.dependencies.len() == 0
            &&& lists.nodes.len() == 0
        }),
{
    if let Some(w) = found::<WorkflowDefinition>(c.workflows, id) {
        let ids = w.artifact_ids;
        let models = crate::plan::workflow_models(c, ids);
        main_models_are_listed(c, ids, ids.len() as int, x);
        others_are_the_rest(ids, models, ids.len() as int, x);
        if models.contains(x) && main_models(c, ids, ids.len() as int).len() == 0 {
            let k = choose|k: int| 0 <= k < models.len() && models[k] == x;
            assert(x == ids[0]);
        }
        if ids.contains(x) {
            let k = choose|k: int| 0 <= k < ids.len() && ids[k] == x;
            assert(ids[k] == x);
        }
    }
}

proof fn main_models_are_listed(c: CatalogView, ids: Seq<Text>, end: int, x: Text)
    requires
        0 <= end <= ids.len(),
    ensures
        main_models(c, ids, end).contains(x) ==> ids.contains(x),
    decreases end,
{
    if end > 0 {
        main_models_are_listed(c, ids, end - 1, x);
        let r = main_models(c, ids, end);
        let rest = main_models(c, ids, end - 1);
        if r.contains(x) {
            let k = choose|k: int| 0 <= k < r.len() && r[k] == x;
            if k < rest.len() {
                assert(rest[k] == x);
            } else {
                assert(ids[end - 1] == x);
            }
        }
    }
}

proof fn others_are_the_rest(ids: Seq<Text>, without: Seq<Text>, end: int, x: Text)
    requires
        0 <= end <= ids.len(),
    ensures
        others(ids, without, end).contains(x) <==> !without.contains(x) && exists|k: int|
            0 <= k < end && #[trigger] ids[k] == x,
    decreases end,
{
    if end > 0 {
        others_are_the_rest(ids, without, end - 1, x);
        let r = others(ids, without, end);
        let rest = others(ids, without, end - 1);
        if !without.contains(ids[end - 1]) {
            assert(r[rest.len() as int] == ids[end - 1]);
            if rest.contains(x) {
                let k = choose|k: int| 0 <= k < rest.len() && rest[k] == x;
                assert(r[k] == x);
            }
            if r.contains(x) {
                let k = choose|k: int| 0 <= k < r.len() && r[k] == x;
                if k < rest.len() {
                    assert(rest[k] == x);
                }
            }
        }
        if exists|k: int| 0 <= k < end && #[trigger] ids[k] == x {
            let k = choose|k: int| 0 <= k < end && #[trigger] ids[k] == x;
            if k < end - 1 {
                assert(ids[k] == x);
            }
        }
    }
}

proof fn optional_members(groups: Seq<GroupView>, end: int, x: Text)
    requires
        0 <= end <= groups.len(),
    ensures
        optional_ids(groups, end).contains(x) <==> exists|g: int|
            0 <= g < end && ((#[trigger] groups[g]).artifact_ids.contains(x)
                || groups[g].custom_node_ids.contains(x)),
    decreases end,
{
    if end > 0 {
        optional_members(groups, end - 1, x);
        let g = groups[end - 1];
        assert(g.artifact_ids.to_set().contains(x) == g.artifact_ids.contains(x));
        assert(g.custom_node_ids.to_set().contains(x) == g.custom_node_ids.contains(x));
        if exists|k: int|
            0 <= k < end && ((#[trigger] groups[k]).artifact_ids.contains(x)
                || groups[k].custom_node_ids.contains(x)) {
            let k = choose|k: int|
                0 <= k < end && ((#[trigger] groups[k]).artifact_ids.contains(x)
                    || groups[k].custom_node_ids.contains(x));
            if k < end - 1 {
                assert(groups[k].artifact_ids.contains(x) || groups[k].custom_node_ids.contains(
                    x,
                ));
            }
        }
    }
}

/// A plan opens with exactly the members of the package's optional groups declined, and with the
/// first source of everything; plans of workflows and artifacts decline nothing.
pub proof fn plans_open(c: CatalogView, target: TargetView, x: Text)
    ensures
        ({
            let e = opened(c, target);
            &&& e.target == target
            &&& e.cursor == 0
            &&& e.selected_sources.dom() == Set::<Text>::empty()
            &&& e.disabled_dependencies.contains(x) <==> (target matches TargetView::Package(id) && (
            found::<Package>(c.packages, id) matches Some(p) && optional(p, x)))
        }),
{
    if let TargetView::Package(id) = target {
        if let Some(p) = found::<Package>(c.packages, id) {
            optional_members(p.optional_groups, p.optional_groups.len() as int, x);
        }
    }
}

proof fn chosen_sources_are(e: PlanView, ids: Seq<Text>, end: int, x: Text, source: usize)
    requires
        0 <= end <= ids.len(),
    ensures
        e.chosen_sources(ids, end).contains((x, source)) <==> (exists|k: int|
            0 <= k < end && #[trigger] ids[k] == x) && !e.disabled_dependencies.contains(x)
            && source == (if e.selected_sources.contains_key(x) {
            e.selected_sources[x]
        } else {
            0
        }),
        e.chosen(ids, end).contains(x) <==> (exists|k: int| 0 <= k < end && #[trigger] ids[k] == x)
            && !e.disabled_dependencies.contains(x),
    decreases end,
{
    if end > 0 {
        chosen_sources_are(e, ids, end - 1, x, source);
        let r = e.chosen_sources(ids, end);
        let rest = e.chosen_sources(ids, end - 1);
        let last = ids[end - 1];
        let t = e.chosen(ids, end);
        let front = e.chosen(ids, end - 1);
        if !e.disabled_dependencies.contains(last) {
            assert(r[rest.len() as int] == (last, e.source_for(last)));
            assert(t[front.len() as int] == last);
            if rest.contains((x, source)) {
                let k = choose|k: int| 0 <= k < rest.len() && rest[k] == (x, source);
                assert(r[k] == (x, source));
            }
            if r.contains((x, source)) {
                let k = choose|k: int| 0 <= k < r.len() && r[k] == (x, source);
                if k < rest.len() {
                    assert(rest[k] == (x, source));
                }
            }
            if front.contains(x) {
                let k = choose|k: int| 0 <= k < front.len() && front[k] == x;
                assert(t[k] == x);
            }
            if t.contains(x) {
                let k = choose|k: int| 0 <= k < t.len() && t[k] == x;
                if k < front.len() {
                    assert(front[k] == x);
                }
            }
        }
        if exists|k: int| 0 <= k < end && #[trigger] ids[k] == x {
            let k = choose|k: int| 0 <= k < end && #[trigger] ids[k] == x;
            if k < end - 1 {
                assert(ids[k] == x);
            }
        }
    }
}

/// What an action installs.
pub open spec fn selection_in(action: ActionView) -> Option<SelectionView> {
    match action {
        ActionView::InstallPackage(s) => Some(s),
        ActionView::InstallArtifact(s) => Some(s),
        ActionView::InstallWorkflow(s) => Some(s),
        _ => None,
    }
}

/// An accepted plan asks for exactly what it lists and was not declined, each artifact from the
/// source that was chosen for it, or from the first; and it is for what the plan was opened for.
pub proof fn accepted_plans_ask_for_what_is_enabled(
    e: PlanView,
    c: CatalogView,
    x: Text,
    source: usize,
)
    ensures
        ({
            let lists = plan_lists(c, e.target);
            let s = selection_in(e.action(c));
            &&& s is Some
            &&& s->0.artifact_sources.contains((x, source)) <==> (lists.models.contains(x)
                || lists.dependencies.contains(x)) && !e.disabled_dependencies.contains(x) && source
                == (if e.selected_sources.contains_key(x) {
                e.selected_sources[x]
            } else {
                0
            })
            &&& s->0.custom_node_ids.contains(x) <==> lists.nodes.contains(x)
                && !e.disabled_dependencies.contains(x)
            &&& match e.target {
                TargetView::Package(id) => e.action(c) is InstallPackage && s->0.id == id,
                TargetView::Artifact(id) => e.action(c) is InstallArtifact && s->0.id == id,
                TargetView::Workflow(id) => e.action(c) is InstallWorkflow && s->0.id == id,
            }
        }),
{
    let lists = plan_lists(c, e.target);
    let ids = lists.models + lists.dependencies;
    in_the_sum(lists.models, lists.dependencies, x);
    chosen_sources_are(e, ids, ids.len() as int, x, source);
    chosen_sources_are(e, lists.nodes, lists.nodes.len() as int, x, source);
    if ids.contains(x) {
        let k = choose|k: int| 0 <= k < ids.len() && ids[k] == x;
        assert(ids[k] == x);
    }
    if lists.nodes.contains(x) {
        let k = choose|k: int| 0 <= k < lists.nodes.len() && lists.nodes[k] == x;
        assert(lists.nodes[k] == x);
    }
}

/// What the keys do on the row under the cursor: Enter and Right open and close a model or a
/// dependency and choose a source, Space enables and disables a dependency; the row OK asks for the
/// plan, the row Cancel leaves it, and so do Esc and Left anywhere. Nothing else of the plan changes.
pub proof fn plan_keys(e: PlanView, c: CatalogView)
    requires
        e.cursor < e.rows(c).len(),
        e.rows(c).len() <= usize::MAX,
    ensures
        ({
            let row = e.rows(c)[e.cursor as int];
            let (entered, asked) = e.after(c, Key::Enter);
            let (spaced, wanted) = e.after(c, typed(' '));
            &&& e.after(c, Key::Esc) == (None::<PlanView>, None::<ActionView>)
            &&& e.after(c, Key::Left) == (None::<PlanView>, None::<ActionView>)
            &&& e.after(c, Key::Right) == e.after(c, Key::Enter)
            &&& row is Accept ==> asked == Some(e.action(c))
            &&& row is Cancel ==> entered is None && asked is None
            &&& !(row is Accept) ==> asked is None && wanted is None
            &&& row matches RowView::DependencyArtifact(id) ==> {
                &&& spaced matches Some(n) && (n.disabled_dependencies.contains(id)
                    != e.disabled_dependencies.contains(id)) && n.expanded_artifacts
                    == e.expanded_artifacts && n.selected_sources == e.selected_sources && n.target
                    == e.target
                &&& entered matches Some(n) && (n.expanded_artifacts.contains(id)
                    != e.expanded_artifacts.contains(id)) && n.disabled_dependencies
                    == e.disabled_dependencies && n.selected_sources == e.selected_sources
            }
            &&& row matches RowView::DependencyNode(id) ==> (spaced matches Some(n)
                && n.disabled_dependencies.contains(id) != e.disabled_dependencies.contains(id)
                && n.selected_sources == e.selected_sources)
            &&& row matches RowView::Model(id) ==> (entered matches Some(n)
                && n.expanded_artifacts.contains(id) != e.expanded_artifacts.contains(id)
                && n.disabled_dependencies == e.disabled_dependencies && n.selected_sources
                == e.selected_sources)
            &&& row matches RowView::ModelSource(id, i) ==> (entered matches Some(n)
                && n.selected_sources == e.selected_sources.insert(id, i)
                && n.disabled_dependencies == e.disabled_dependencies)
            &&& row matches RowView::DependencySource(id, i) ==> (entered matches Some(n)
                && n.selected_sources == e.selected_sources.insert(id, i)
                && n.disabled_dependencies == e.disabled_dependencies)
            &&& row is Dependencies ==> (entered matches Some(n) && n.deps_expanded
                != e.deps_expanded && n.disabled_dependencies == e.disabled_dependencies)
        }),
{
    rows_ignore_cursor(e, e.clamped(c).cursor, c);
    assert(e.clamped(c) == e);
}

/// Down and Up, as Tab and back-Tab, move the cursor of a plan by one row, round and round.
pub proof fn plan_cursor_keys(e: PlanView, c: CatalogView)
    requires
        e.cursor < e.rows(c).len(),
        e.rows(c).len() <= usize::MAX,
    ensures
        ({
            let n = e.rows(c).len();
            &&& e.after(c, Key::Down).0 matches Some(d) && d == (PlanView {
                cursor: if e.cursor + 1 < n {
                    (e.cursor + 1) as usize
                } else {
                    0
                },
                ..e
            })
            &&& e.after(c, Key::Up).0 matches Some(u) && u == (PlanView {
                cursor: if e.cursor > 0 {
                    (e.cursor - 1) as usize
                } else {
                    (n - 1) as usize
                },
                ..e
            })
            &&& e.after(c, Key::Tab) == e.after(c, Key::Down)
            &&& e.after(c, Key::BackTab) == e.after(c, Key::Up)
            &&& e.after(c, typed('j')) == e.after(c, Key::Down)
            &&& e.after(c, typed('k')) == e.after(c, Key::Up)
            &&& e.after(c, Key::Down).1 is None && e.after(c, Key::Up).1 is None
        }),
{
    rows_ignore_cursor(e, e.clamped(c).cursor, c);
    assert(e.clamped(c) == e);
}

}
