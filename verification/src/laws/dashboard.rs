//! Laws of the dashboard: health, the plan editor, sections and settings.
use crate::catalog::{found, Artifact, CatalogView, GroupView, Package};
use crate::dashboard::{
    one_less, one_more, opened, optional_ids, section_at, sections_differ, stepped, Board, DashView,
    KeyOutcomeView, Section, MOST_PARALLEL, SECTIONS,
};
use crate::health::{worse, FactsView, Health};
use crate::jobs::Clock;
use crate::plan::{
    key_char, plan_lists, rows_ignore_cursor, toggled, ActionView, Key, PlanView, RowView,
    TargetView,
};
use crate::text::Text;
use vstd::prelude::*;

verus! {

/// Recovery comes first: what is broken before what is paused, blocked, missing and ready.
pub proof fn recovery_comes_first()
    ensures
        Health::Broken.rank() < Health::Paused.rank() < Health::Blocked.rank()
            < Health::Missing.rank() < Health::Ready.rank() < Health::Discovery.rank(),
{
}

/// The worse of two is one of them, needs at least as much attention as either, and does not
/// depend on their order or grouping.
pub proof fn the_worse_decides(a: Health, b: Health, c: Health)
    ensures
        worse(a, b) == a || worse(a, b) == b,
        worse(a, b).rank() <= a.rank(),
        worse(a, b).rank() <= b.rank(),
        worse(a, b) == worse(b, a),
        worse(a, worse(b, c)) == worse(worse(a, b), c),
        worse(a, a) == a,
{
}

proof fn ready_ids(f: FactsView, c: CatalogView, ids: Seq<Text>, at: int)
    requires
        0 <= at <= ids.len(),
        forall|i: int|
            at <= i < ids.len() ==> found::<Artifact>(c.artifacts, #[trigger] ids[i]) is Some
                && f.by_id.contains_key(ids[i]) && f.by_id[ids[i]] == Health::Ready,
    ensures
        f.ids_from(c, ids, at, Health::Ready) == Health::Ready,
    decreases ids.len() - at,
{
    if at < ids.len() {
        assert(found::<Artifact>(c.artifacts, ids[at]) is Some);
        ready_ids(f, c, ids, at + 1);
    }
}

/// A list of artifacts is ready where the installation is valid and every one of them is ready.
pub proof fn ready_lists_are_ready(f: FactsView, c: CatalogView, ids: Seq<Text>)
    requires
        f.root_valid,
        forall|i: int|
            0 <= i < ids.len() ==> found::<Artifact>(c.artifacts, #[trigger] ids[i]) is Some
                && f.by_id.contains_key(ids[i]) && f.by_id[ids[i]] == Health::Ready,
    ensures
        f.ids(c, ids) == Health::Ready,
{
    ready_ids(f, c, ids, 0);
}

proof fn broken_id(f: FactsView, c: CatalogView, ids: Seq<Text>, at: int, k: int, health: Health)
    requires
        0 <= at <= k < ids.len(),
        f.by_id.contains_key(ids[k]),
        f.by_id[ids[k]] == Health::Broken,
    ensures
        f.ids_from(c, ids, at, health) == Health::Broken,
    decreases k - at,
{
    match found::<Artifact>(c.artifacts, ids[at]) {
        None => {},
        Some(a) => {
            if !(f.by_id.contains_key(ids[at]) && f.by_id[ids[at]] == Health::Broken) {
                broken_id(f, c, ids, at + 1, k, f.with_artifact(health, ids[at], a.gated));
            }
        },
    }
}

/// One broken artifact makes the list broken.
pub proof fn broken_artifacts_break_the_list(f: FactsView, c: CatalogView, ids: Seq<Text>, k: int)
    requires
        f.root_valid,
        0 <= k < ids.len(),
        f.by_id.contains_key(ids[k]),
        f.by_id[ids[k]] == Health::Broken,
    ensures
        f.ids(c, ids) == Health::Broken,
{
    broken_id(f, c, ids, 0, k, Health::Ready);
}

/// A gated artifact that is not ready is blocked while there is no token.
pub proof fn gated_artifacts_wait_for_a_token(f: FactsView, health: Health, id: Text)
    requires
        !f.has_token,
        !(f.by_id.contains_key(id) && f.by_id[id] == Health::Ready),
    ensures
        f.with_artifact(health, id, true) == Health::Blocked,
{
}

/// Pressing a key that toggles a dependency twice leaves everything as it was.
pub proof fn toggling_twice_changes_nothing(s: Set<Text>, id: Text)
    ensures
        toggled(toggled(s, id), id) == s,
{
    assert(toggled(toggled(s, id), id) =~= s);
}

/// The rows of the editor end with the rows that accept and cancel.
pub proof fn plans_end_with_accept_and_cancel(e: PlanView, c: CatalogView)
    ensures
        ({
            let rows = e.rows(c);
            rows.len() >= 3 && rows[rows.len() - 1] is Cancel && rows[rows.len() - 2] is Accept
        }),
{
}

/// The cursor stands on a row after every key.
pub proof fn the_cursor_stays_on_a_row(e: PlanView, c: CatalogView, key: Key)
    requires
        e.rows(c).len() <= usize::MAX,
    ensures
        e.after(c, key).0 matches Some(next) ==> next.rows(c).len() <= usize::MAX ==> next.cursor
            < next.rows(c).len(),
{
    let k = e.clamped(c);
    rows_ignore_cursor(e, k.cursor, c);
    plans_end_with_accept_and_cancel(e, c);
    match e.after(c, key).0 {
        Some(next) => {
            plans_end_with_accept_and_cancel(next, c);
            rows_ignore_cursor(k, next.cursor, c);
            let row = k.rows(c)[k.cursor as int];
            pressed_clamps(k, c, row, key_char(key, ' '));
        },
        None => {},
    }
}

proof fn clamping_stands(e: PlanView, c: CatalogView)
    requires
        e.rows(c).len() <= usize::MAX,
    ensures
        e.clamped(c).cursor < e.clamped(c).rows(c).len(),
        e.clamped(c).rows(c) == e.rows(c),
{
    rows_ignore_cursor(e, e.clamped(c).cursor, c);
    plans_end_with_accept_and_cancel(e, c);
}

proof fn pressed_clamps(e: PlanView, c: CatalogView, row: RowView, space: bool)
    requires
        e.cursor < e.rows(c).len(),
    ensures
        e.pressed(c, row, space).0 matches Some(next) ==> next.rows(c).len() <= usize::MAX
            ==> next.cursor < next.rows(c).len(),
{
    match row {
        RowView::Model(id) => {
            let n = e.toggle_expanded(id);
            rows_ignore_cursor(n, n.clamped(c).cursor, c);
            if n.rows(c).len() <= usize::MAX {
                clamping_stands(n, c);
            }
        },
        RowView::ModelSource(id, i) => {
            let n = PlanView { selected_sources: e.selected_sources.insert(id, i), ..e };
            rows_ignore_cursor(n, n.clamped(c).cursor, c);
            if n.rows(c).len() <= usize::MAX {
                clamping_stands(n, c);
            }
        },
        RowView::DependencySource(id, i) => {
            let n = PlanView { selected_sources: e.selected_sources.insert(id, i), ..e };
            rows_ignore_cursor(n, n.clamped(c).cursor, c);
            if n.rows(c).len() <= usize::MAX {
                clamping_stands(n, c);
            }
        },
        RowView::Dependencies => {
            let n = PlanView { deps_expanded: !e.deps_expanded, ..e };
            rows_ignore_cursor(n, n.clamped(c).cursor, c);
            if n.rows(c).len() <= usize::MAX {
                clamping_stands(n, c);
            }
        },
        RowView::DependencyArtifact(id) => {
            let n = if space {
                e.toggle_disabled(id)
            } else {
                e.toggle_expanded(id)
            };
            rows_ignore_cursor(n, n.clamped(c).cursor, c);
            if n.rows(c).len() <= usize::MAX {
                clamping_stands(n, c);
            }
        },
        RowView::DependencyNode(id) => {
            let n = e.toggle_disabled(id);
            rows_ignore_cursor(n, n.clamped(c).cursor, c);
            if n.rows(c).len() <= usize::MAX {
                clamping_stands(n, c);
            }
        },
        _ => {},
    }
}

proof fn chosen_are_enabled(e: PlanView, ids: Seq<Text>, end: int, k: int)
    requires
        0 <= end <= ids.len(),
        0 <= k < e.chosen_sources(ids, end).len(),
    ensures
        e.enabled(e.chosen_sources(ids, end)[k].0),
        ids.contains(e.chosen_sources(ids, end)[k].0),
        e.chosen_sources(ids, end)[k].1 == e.source_for(e.chosen_sources(ids, end)[k].0),
    decreases end,
{
    if end > 0 {
        let rest = e.chosen_sources(ids, end - 1);
        assert(ids.contains(ids[end - 1]));
        if k < rest.len() {
            chosen_are_enabled(e, ids, end - 1, k);
        }
    }
}

/// The artifacts that an action installs.
pub open spec fn installs(action: ActionView) -> Seq<(Text, usize)> {
    match action {
        ActionView::InstallPackage(s) => s.artifact_sources,
        ActionView::InstallArtifact(s) => s.artifact_sources,
        ActionView::InstallWorkflow(s) => s.artifact_sources,
        _ => Seq::empty(),
    }
}

/// An accepted plan installs only what it lists and nothing that is disabled, each artifact from
/// the source that was chosen for it.
pub proof fn accepted_plans_leave_out_what_is_disabled(e: PlanView, c: CatalogView, k: int)
    requires
        0 <= k < installs(e.action(c)).len(),
    ensures
        ({
            let entry = installs(e.action(c))[k];
            let lists = plan_lists(c, e.target);
            e.enabled(entry.0) && (lists.models + lists.dependencies).contains(entry.0) && entry.1
                == e.source_for(entry.0)
        }),
{
    let lists = plan_lists(c, e.target);
    let ids = lists.models + lists.dependencies;
    chosen_are_enabled(e, ids, ids.len() as int, k);
}

proof fn optional_ids_hold(groups: Seq<GroupView>, end: int, g: int, id: Text)
    requires
        0 <= g < end <= groups.len(),
        groups[g].artifact_ids.contains(id) || groups[g].custom_node_ids.contains(id),
    ensures
        optional_ids(groups, end).contains(id),
    decreases end,
{
    if g < end - 1 {
        optional_ids_hold(groups, end - 1, g, id);
    }
}

/// A plan opens with the optional groups of its package disabled, and with the first source of
/// everything.
pub proof fn optional_groups_start_disabled(c: CatalogView, package: Text, g: int, id: Text)
    requires
        found::<Package>(c.packages, package) matches Some(p) && 0 <= g < p.optional_groups.len()
            && (p.optional_groups[g].artifact_ids.contains(id)
            || p.optional_groups[g].custom_node_ids.contains(id)),
    ensures
        !opened(c, TargetView::Package(package)).enabled(id),
        opened(c, TargetView::Package(package)).source_for(id) == 0,
{
    match found::<Package>(c.packages, package) {
        Some(p) => {
            optional_ids_hold(p.optional_groups, p.optional_groups.len() as int, g, id);
        },
        None => {},
    }
}

/// The next section and the one before lead back to each other.
pub proof fn sections_go_round(s: Section)
    ensures
        section_at(section_at(s.next_of()).previous_of()) == s,
        section_at(section_at(s.previous_of()).next_of()) == s,
{
    let next = section_at(s.next_of());
    let back = section_at(s.previous_of());
    section_numbers(s.next_of());
    section_numbers(s.previous_of());
    section_numbers(s.order());
    sections_differ(section_at(s.order()), s);
}

proof fn section_numbers(i: usize)
    requires
        i < SECTIONS,
    ensures
        section_at(i).order() == i,
{
    let s = if i == 0 {
        Section::Overview
    } else if i == 1 {
        Section::Models
    } else if i == 2 {
        Section::Loras
    } else if i == 3 {
        Section::Vaes
    } else if i == 4 {
        Section::TextEncoders
    } else if i == 5 {
        Section::Upscalers
    } else if i == 6 {
        Section::RuntimeModels
    } else if i == 7 {
        Section::CustomNodes
    } else if i == 8 {
        Section::Workflows
    } else if i == 9 {
        Section::Downloads
    } else if i == 10 {
        Section::Logs
    } else if i == 11 {
        Section::Settings
    } else {
        Section::System
    };
    assert(s.order() == i);
}

/// A step down and a step up the list lead back to where they began.
pub proof fn selection_steps_undo_each_other(index: usize, len: nat)
    requires
        index < len <= usize::MAX,
    ensures
        stepped(index, len, true) < len,
        stepped(index, len, false) < len,
        stepped(stepped(index, len, true), len, false) == index,
        stepped(stepped(index, len, false), len, true) == index,
{
    let n = len as int;
    if index + 1 < n {
        assert((index + 1) % n == index + 1) by (nonlinear_arith)
            requires
                0 <= index + 1 < n,
        ;
    } else {
        assert((index + 1) % n == 0) by (nonlinear_arith)
            requires
                index + 1 == n,
                n > 0,
        ;
    }
    if index > 0 {
        assert((index - 1) % n == index - 1) by (nonlinear_arith)
            requires
                0 <= index - 1 < n,
        ;
    } else {
        assert(-1int % n == n - 1) by (nonlinear_arith)
            requires
                n > 0,
        ;
    }
    assert(index as int % n == index) by (nonlinear_arith)
        requires
            0 <= index < n,
    ;
    if index + 1 == n {
        assert((0 - 1) % n == n - 1) by (nonlinear_arith)
            requires
                n > 0,
        ;
    }
    if index == 0 {
        assert((n - 1 + 1) % n == 0) by (nonlinear_arith)
            requires
                n > 0,
        ;
    }
}

/// The settings of parallel work stay between 1 and their limit.
pub proof fn parallel_settings_stay_in_range(n: usize)
    requires
        1 <= n <= MOST_PARALLEL,
    ensures
        1 <= one_more(n) <= MOST_PARALLEL,
        1 <= one_less(n) <= MOST_PARALLEL,
        n < MOST_PARALLEL ==> one_less(one_more(n)) == n,
        n > 1 ==> one_more(one_less(n)) == n,
{
}

/// Keys of the plan editor touch neither the configuration nor the queue.
pub proof fn editing_a_plan_changes_nothing_else(
    board: Board,
    c: CatalogView,
    key: Key,
    root_valid: bool,
    now: Clock,
)
    requires
        board.dash.plan_editor is Some,
    ensures
        ({
            let next = board.after(c, key, root_valid, now).0;
            next.cfg == board.cfg && next.queue == board.queue && next.dash == (DashView {
                plan_editor: next.dash.plan_editor,
                ..board.dash
            })
        }),
{
}

/// No plan is opened without a valid installation, and nothing is installed.
pub proof fn nothing_is_installed_without_a_root(
    board: Board,
    c: CatalogView,
    key: Key,
    now: Clock,
)
    requires
        board.dash.plan_editor is None,
    ensures
        ({
            let (next, outcome) = board.after(c, key, false, now);
            next.dash.plan_editor is None && !(outcome is CheckServer) && (outcome matches KeyOutcomeView::Act(
                a,
            ) ==> !(a is InstallPackage || a is InstallArtifact || a is InstallWorkflow
                || a is InstallCustomNode || a is InstallPythonDeps || a is ToggleServer))
        }),
{
}

}
