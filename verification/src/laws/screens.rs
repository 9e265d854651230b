//! Laws of what the dashboard shows, and of the words and numbers it shows it with.
use crate::actions::{doctor_report, probe_of, shown_python};
use crate::auth::HfTokenSource;
use crate::catalog::{
    found, Artifact, ArtifactView, CatalogView, NodeView, PackageView, SystemDependencyView,
    WorkflowView,
};
use crate::comfy::PythonFacts;
use crate::config::ConfigView;
use crate::dashboard::{DashView, Section};
use crate::download::gib;
use crate::health::{known_total, total_label, unknown_count, FactsView, Health, HealthView, Tone};
use crate::inventory::ArtifactStatus;
use crate::jobs::{JobStatus, SnapshotView};
use crate::laws::bundles::{entries_are_found, has_artifact};
use crate::packages::{status_words, PackageMark};
use crate::paths::joined_path;
use crate::plan::{plan_lists, PlanView, RowView};
use crate::screen::{
    artifact_details_of, artifact_list_of, attention_of, badge_of, dependency_lines,
    downloading_count, environment_of, eta_words, focused_of, header_of, index_name, job_badge_of,
    job_details_of, job_item_of, large_enough, library_of_health, log_lines, marked_tail, mib_words,
    model_details_of, model_item, model_list_of, named_item, node_details_of, node_health,
    node_list_of, scrolled, selected_artifact_details, selected_model_details,
    selected_node_details, selected_workflow_details, settings_of, system_of, tab_title,
    token_words, wide_enough, workflow_details_of, workflow_item, workflow_list_of, LineView,
    SystemFacts, SystemSnapshot,
};
use crate::size::{human_size, nearest_even};
use crate::text::{
    contains_text, decimal, has_prefix, has_suffix, left_aligned, right_aligned, Text,
};
use vstd::prelude::*;
use vstd::string::*;

verus! {

/// A part of the line is exactly the text.
pub open spec fn says(line: LineView, text: Text) -> bool {
    exists|j: int| 0 <= j < line.len() && (#[trigger] line[j]).text == text
}

/// A line holds the text as one of its parts.
pub open spec fn shows(lines: Seq<LineView>, text: Text) -> bool {
    exists|i: int| 0 <= i < lines.len() && says(#[trigger] lines[i], text)
}

/// A text in its column: the text itself, and blanks up to the width.
pub proof fn columns_are_filled(s: Text, width: nat)
    ensures
        has_prefix(left_aligned(s, width), s),
        has_suffix(right_aligned(s, width), s),
        left_aligned(s, width).len() == if s.len() >= width {
            s.len()
        } else {
            width
        },
        right_aligned(s, width).len() == left_aligned(s, width).len(),
        forall|i: int| s.len() <= i < left_aligned(s, width).len() ==> #[trigger] left_aligned(
            s,
            width,
        )[i] == ' ',
{
    assert(left_aligned(s, width).take(s.len() as int) =~= s);
    let r = right_aligned(s, width);
    assert(r.skip(r.len() - s.len()) =~= s);
}

/// What a health is called, and its colour.
pub proof fn healths_are_shown()
    ensures
        Health::Ready.words() == "READY"@ && Health::Ready.tone() == Tone::Green,
        Health::Missing.words() == "MISSING"@ && Health::Missing.tone() == Tone::Muted,
        Health::Paused.words() == "PAUSED"@ && Health::Paused.tone() == Tone::Yellow,
        Health::Broken.words() == "BROKEN"@ && Health::Broken.tone() == Tone::Red,
        Health::Blocked.words() == "TOKEN"@ && Health::Blocked.tone() == Tone::Yellow,
        Health::Discovery.words() == "DISCOVER"@ && Health::Discovery.tone() == Tone::Accent,
        forall|h: Health| (#[trigger] badge_of(h)).tone == h.tone() && badge_of(h).text
            == left_aligned(h.words(), 8),
{
}

/// What the status of a job is called, and its colour.
pub proof fn job_statuses_are_shown(s: JobStatus)
    ensures
        JobStatus::Queued.words() == "QUEUED"@,
        JobStatus::Resolving.words() == "RESOLVING"@,
        JobStatus::Downloading.words() == "DOWNLOADING"@,
        JobStatus::Processing.words() == "PROCESSING"@,
        JobStatus::Installing.words() == "INSTALLING"@,
        JobStatus::Paused.words() == "PAUSED"@,
        JobStatus::Failed.words() == "FAILED"@,
        JobStatus::Completed.words() == "DONE"@,
        job_badge_of(s).text == left_aligned(s.words(), 8),
        job_badge_of(s).tone == Tone::Green <==> s == JobStatus::Completed,
        job_badge_of(s).tone == Tone::Red <==> s == JobStatus::Failed,
        job_badge_of(s).tone == Tone::Yellow <==> s == JobStatus::Paused,
        job_badge_of(s).tone == Tone::Muted <==> s == JobStatus::Queued,
{
}

/// Where a token was found, and what an artifact's file is.
pub proof fn findings_are_named(downloaded: u64, expected: u64)
    ensures
        HfTokenSource::Session.words() == "current session"@,
        HfTokenSource::Environment.words() == "environment"@,
        HfTokenSource::ExplicitTokenPath.words() == "HF_TOKEN_PATH"@,
        HfTokenSource::ComfyBoxCredential.words() == "ComfyBox credential"@,
        HfTokenSource::HuggingFaceCache.words() == "Hugging Face cache"@,
        token_words(None) == "missing"@,
        forall|s: HfTokenSource| #[trigger]
            token_words(Some(s)) == "present · "@ + s.words(),
        status_words(ArtifactStatus::Installed) == "✓ installed"@,
        status_words(ArtifactStatus::Missing) == "○ missing"@,
        status_words(ArtifactStatus::SizeMismatch { actual: downloaded, expected })
            == "! mismatch"@,
        status_words(
            ArtifactStatus::Partial {
                downloaded_bytes: downloaded,
                expected_bytes: Some(expected),
            },
        ) == "◐ "@ + gib(downloaded) + " GiB partial"@,
        PackageMark::Installed.sign() == "✓"@,
        PackageMark::Partial.sign() == "◐"@,
        PackageMark::Missing.sign() == "○"@,
        PackageMark::Discovery.sign() == "?"@,
{
}

/// The unit that a number of bytes is shown in.
pub open spec fn unit_for(bytes: nat, unit: nat, name: Text) -> bool {
    ||| bytes < 1024 && unit == 1 && name == "B"@
    ||| 1024 <= bytes < 1048576 && unit == 1024 && name == "KiB"@
    ||| 1048576 <= bytes < 1073741824 && unit == 1048576 && name == "MiB"@
    ||| 1073741824 <= bytes < 1099511627776 && unit == 1073741824 && name == "GiB"@
    ||| 1099511627776 <= bytes && unit == 1099511627776 && name == "TiB"@
}

proof fn exact_below(n: nat)
    requires
        n < 9007199254740992,
    ensures
        crate::size::as_double(n) == n,
{
    assert(crate::size::double_step(n) == 1);
    assert(nearest_even(n, 1) == n);
}

/// A size is shown in the largest unit that it fills, to the nearest tenth.
pub proof fn sizes_are_shown(bytes: nat, unit: nat, name: Text, tenths: nat)
    requires
        bytes < 9007199254740992,
        unit_for(bytes, unit, name),
        2 * tenths * unit < 20 * bytes + unit,
        20 * bytes < 2 * tenths * unit + unit,
    ensures
        human_size(bytes) == decimal(tenths / 10) + "."@ + decimal(tenths % 10) + " "@ + name,
{
    exact_below(bytes);
    nearest_is(10 * bytes, unit, tenths);
}

proof fn nearest_is(n: nat, d: nat, k: nat)
    requires
        d > 0,
        2 * k * d < 2 * n + d,
        2 * n < 2 * k * d + d,
    ensures
        nearest_even(n, d) == k,
{
    let q = n / d;
    let r = n % d;
    assert(n == q * d + r && 0 <= r < d) by (nonlinear_arith)
        requires
            q == n / d,
            r == n % d,
            d > 0,
    ;
    if 2 * r < d || (2 * r == d && q % 2 == 0) {
        assert(k == q) by (nonlinear_arith)
            requires
                n == q * d + r,
                2 * r <= d,
                2 * k * d < 2 * n + d,
                2 * n < 2 * k * d + d,
                0 <= r,
                d > 0,
        ;
    } else {
        assert(k == q + 1) by (nonlinear_arith)
            requires
                n == q * d + r,
                2 * r >= d,
                r < d,
                2 * k * d < 2 * n + d,
                2 * n < 2 * k * d + d,
                d > 0,
        ;
    }
}

/// A size in GiB is shown to the nearest tenth, one in MiB to the nearest whole.
pub proof fn fixed_units_are_shown(bytes: u64, tenths: nat, whole: nat)
    requires
        bytes < 9007199254740992,
    ensures
        2 * tenths * 1073741824 < 20 * bytes + 1073741824 && 20 * bytes < 2 * tenths * 1073741824
            + 1073741824 ==> gib(bytes) == decimal(tenths / 10) + "."@ + decimal(tenths % 10),
        2 * whole * 1048576 < 2 * bytes + 1048576 && 2 * bytes < 2 * whole * 1048576 + 1048576
            ==> mib_words(bytes) == decimal(whole) + " MiB"@,
{
    exact_below(bytes as nat);
    if 2 * tenths * 1073741824 < 20 * bytes + 1073741824 && 20 * bytes < 2 * tenths * 1073741824
        + 1073741824 {
        nearest_is((10 * bytes) as nat, 1073741824, tenths);
    }
    if 2 * whole * 1048576 < 2 * bytes + 1048576 && 2 * bytes < 2 * whole * 1048576 + 1048576 {
        nearest_is(bytes as nat, 1048576, whole);
    }
}

/// The size that counts for an artifact: that of its first source, else its own.
pub open spec fn size_of_first(a: ArtifactView, n: u64) -> bool {
    if a.sources.len() > 0 && a.sources[0].size_bytes is Some {
        a.sources[0].size_bytes == Some(n)
    } else {
        a.size_bytes == Some(n)
    }
}

proof fn totals_look_no_further(c: CatalogView, ids: Seq<Text>, more: Seq<Text>, end: int)
    requires
        0 <= end <= ids.len(),
    ensures
        known_total(c, ids + more, end) == known_total(c, ids, end),
        unknown_count(c, ids + more, end) == unknown_count(c, ids, end),
    decreases end,
{
    if end > 0 {
        totals_look_no_further(c, ids, more, end - 1);
        assert((ids + more)[end - 1] == ids[end - 1]);
    }
}

/// Every artifact of a list counts towards its total with the size of its first source; one without
/// a size, or that the catalog does not have, counts as unknown.
pub proof fn totals_count_every_artifact(c: CatalogView, ids: Seq<Text>, id: Text, n: u64)
    ensures
        ({
            let longer = ids.push(id);
            let before = known_total(c, ids, ids.len() as int);
            let after = known_total(c, longer, longer.len() as int);
            let unknown = unknown_count(c, ids, ids.len() as int);
            &&& (found::<Artifact>(c.artifacts, id) matches Some(a) && size_of_first(a, n)) && before
                + n <= u64::MAX ==> after == before + n && unknown_count(
                c,
                longer,
                longer.len() as int,
            ) == unknown
            &&& !has_artifact(c, id) ==> after == before && unknown_count(
                c,
                longer,
                longer.len() as int,
            ) == unknown + 1
        }),
        known_total(c, Seq::empty(), 0) == 0,
        unknown_count(c, Seq::empty(), 0) == 0,
{
    let longer = ids.push(id);
    assert(longer =~= ids + seq![id]);
    totals_look_no_further(c, ids, seq![id], ids.len() as int);
    entries_are_found(c, id);
    assert(longer[ids.len() as int] == id);
}

/// A total is shown as the sum of the known sizes, with the number of unknown ones where there are
/// some.
pub proof fn totals_are_shown(c: CatalogView, ids: Seq<Text>)
    ensures
        ({
            let total = known_total(c, ids, ids.len() as int);
            let unknown = unknown_count(c, ids, ids.len() as int);
            &&& total > 0 && unknown == 0 ==> total_label(c, ids) == human_size(total as nat)
            &&& total > 0 && unknown > 0 ==> total_label(c, ids) == human_size(total as nat)
                + " + "@ + decimal(unknown) + " unknown"@
            &&& total == 0 && unknown > 0 ==> total_label(c, ids) == "size unknown"@
            &&& total == 0 && unknown == 0 ==> total_label(c, ids) == "0 B"@
        }),
{
}

/// The header tells whether ComfyUI is set up and whether its server runs.
pub proof fn headers_tell(configured: bool, running: bool, version: Text)
    ensures
        says(header_of(true, running, version), " COMFYUI READY "@),
        says(header_of(false, running, version), " SETUP REQUIRED "@),
        says(header_of(configured, true, version), " ● RUNNING "@),
        says(header_of(configured, false, version), " ○ STOPPED "@),
        says(header_of(configured, running, version), "v"@ + version + "  "@),
{
    assert(header_of(true, running, version)[3].text == " COMFYUI READY "@);
    assert(header_of(false, running, version)[3].text == " SETUP REQUIRED "@);
    assert(header_of(configured, true, version)[5].text == " ● RUNNING "@);
    assert(header_of(configured, false, version)[5].text == " ○ STOPPED "@);
    assert(header_of(configured, running, version)[2].text == "v"@ + version + "  "@);
}

/// A tab has the title of its section, short on a narrow screen.
pub proof fn tabs_have_titles(section: Section, width: u16)
    ensures
        width >= 100 ==> tab_title(section, width) == " "@ + section.words() + " "@,
        width < 100 ==> tab_title(section, width) == " "@ + section.short_words() + " "@,
        Section::Overview.words() == "Overview"@,
        Section::Models.words() == "Models"@,
        Section::Loras.words() == "LoRAs"@,
        Section::Vaes.words() == "VAEs"@,
        Section::TextEncoders.words() == "Text Encoders"@,
        Section::Upscalers.words() == "Upscalers"@,
        Section::RuntimeModels.words() == "Runtime"@,
        Section::CustomNodes.words() == "Custom Nodes"@,
        Section::Workflows.words() == "Workflows"@,
        Section::Downloads.words() == "Downloads"@,
        Section::Logs.words() == "Logs"@,
        Section::Settings.words() == "Settings"@,
        Section::System.words() == "System"@,
{
}

/// The environment card shows the path, the Python, whether the dependencies are ready, the token
/// and the endpoint.
pub proof fn the_environment_is_shown(
    path: Text,
    python: Text,
    token: Text,
    endpoint: Text,
    ready: bool,
    has_token: bool,
)
    ensures
        ({
            let r = environment_of(Some(path), Some(python), ready, has_token, token, endpoint);
            &&& says(r[0], path)
            &&& says(r[1], python)
            &&& ready ==> says(r[2], "ready"@)
            &&& !ready ==> says(r[2], "not installed"@)
            &&& has_token ==> says(r[3], token)
            &&& !has_token ==> says(r[3], "missing"@)
            &&& says(r[4], endpoint)
        }),
{
    let r = environment_of(Some(path), Some(python), ready, has_token, token, endpoint);
    assert(r[0][1].text == path);
    assert(r[1][1].text == python);
    assert(ready ==> r[2][1].text == "ready"@);
    assert(!ready ==> r[2][1].text == "not installed"@);
    assert(has_token ==> r[3][1].text == token);
    assert(!has_token ==> r[3][1].text == "missing"@);
    assert(r[4][1].text == endpoint);
}

/// The library card counts what is ready, missing, paused and broken, each under its name.
pub proof fn the_library_is_counted(h: HealthView)
    ensures
        ({
            let r = library_of_health(true, h);
            &&& r.len() == 4
            &&& says(r[0], "Ready"@) && says(r[0], " "@ + right_aligned(decimal(h.ready as nat), 3) + " "@)
            &&& says(r[1], "Missing"@) && says(
                r[1],
                " "@ + right_aligned(decimal(h.missing as nat), 3) + " "@,
            )
            &&& says(r[2], "Paused"@) && says(
                r[2],
                " "@ + right_aligned(decimal(h.paused as nat), 3) + " "@,
            )
            &&& says(r[3], "Broken"@) && says(
                r[3],
                " "@ + right_aligned(decimal(h.broken as nat), 3) + " "@,
            )
        }),
{
    let r = library_of_health(true, h);
    assert(r[0][1].text == "Ready"@ && r[1][1].text == "Missing"@);
    assert(r[2][1].text == "Paused"@ && r[3][1].text == "Broken"@);
    assert(r[0][0].text == " "@ + right_aligned(decimal(h.ready as nat), 3) + " "@);
    assert(r[1][0].text == " "@ + right_aligned(decimal(h.missing as nat), 3) + " "@);
    assert(r[2][0].text == " "@ + right_aligned(decimal(h.paused as nat), 3) + " "@);
    assert(r[3][0].text == " "@ + right_aligned(decimal(h.broken as nat), 3) + " "@);
}

/// The attention card warns of what is wrong, and tells that nothing is exactly where nothing is.
pub proof fn attention_is_called_for(
    root_valid: bool,
    has_token: bool,
    ready: bool,
    paused: int,
    broken: int,
)
    requires
        paused >= 0,
        broken >= 0,
    ensures
        ({
            let r = attention_of(root_valid, has_token, ready, paused, broken);
            &&& !root_valid ==> shows(r, "No valid ComfyUI installation is configured."@)
            &&& !has_token ==> shows(r, "HF_TOKEN is not set."@)
            &&& root_valid && !ready ==> shows(r, "ComfyUI Python dependencies are not ready."@)
            &&& root_valid && paused > 0 ==> shows(
                r,
                decimal(paused as nat) + " interrupted download(s) can be resumed from Downloads."@,
            )
            &&& root_valid && broken > 0 ==> shows(
                r,
                decimal(broken as nat) + " mismatched artifact(s) need force repair."@,
            )
            &&& root_valid && has_token && ready && paused == 0 && broken == 0 ==> r.len() == 1
                && says(r[0], "No action needed. ComfyBox is ready."@)
            &&& r[0][0].text == "✓ "@ ==> root_valid && has_token && ready && paused == 0 && broken
                == 0
        }),
{
    let r = attention_of(root_valid, has_token, ready, paused, broken);
    reveal_strlit("✓ ");
    reveal_strlit("● ");
    assert("✓ "@[0] != "● "@[0]);
    let a: int = if !root_valid {
        2
    } else {
        0
    };
    let b: int = a + if !has_token {
        2int
    } else {
        0
    };
    let d: int = b + if root_valid && !ready {
        2int
    } else {
        0
    };
    let e: int = d + if root_valid && paused > 0 {
        1int
    } else {
        0
    };
    if !root_valid {
        assert(r[0][1].text == "No valid ComfyUI installation is configured."@);
        assert(says(r[0], "No valid ComfyUI installation is configured."@));
    }
    if !has_token {
        assert(r[a][1].text == "HF_TOKEN is not set."@);
        assert(says(r[a], "HF_TOKEN is not set."@));
    }
    if root_valid && !ready {
        assert(r[b][1].text == "ComfyUI Python dependencies are not ready."@);
        assert(says(r[b], "ComfyUI Python dependencies are not ready."@));
    }
    if root_valid && paused > 0 {
        let t = decimal(paused as nat) + " interrupted download(s) can be resumed from Downloads."@;
        assert(r[d][1].text == t);
        assert(says(r[d], t));
    }
    if root_valid && broken > 0 {
        let t = decimal(broken as nat) + " mismatched artifact(s) need force repair."@;
        assert(r[e][1].text == t);
        assert(says(r[e], t));
    }
    if root_valid && has_token && ready && paused == 0 && broken == 0 {
        assert(r[0][1].text == "No action needed. ComfyBox is ready."@);
    }
}

/// The entries of the lists show the health, the name and the identifier of what they are of; that
/// of a package also the size of all that it requires.
pub proof fn entries_show_their_health(
    c: CatalogView,
    f: FactsView,
    p: PackageView,
    w: WorkflowView,
    file: bool,
    health: Health,
    name: Text,
)
    ensures
        model_item(c, f, p)[0] == badge_of(f.package(c, p)),
        says(model_item(c, f, p), p.name),
        says(model_item(c, f, p), "  "@ + p.id),
        says(
            model_item(c, f, p),
            "  "@ + total_label(c, p.primary_artifact_ids + p.dependency_artifact_ids),
        ),
        workflow_item(c, f, w, file)[0] == badge_of(f.workflow(c, w, file)),
        says(workflow_item(c, f, w, file), w.name),
        says(workflow_item(c, f, w, file), "  "@ + w.id),
        named_item(health, name)[0] == badge_of(health),
        says(named_item(health, name), name),
        node_health(f, name) == Health::Ready <==> f.installed_nodes.contains(name),
        node_health(f, name) == Health::Ready || node_health(f, name) == Health::Missing,
{
    let m = model_item(c, f, p);
    assert(m[2].text == p.name && m[3].text == "  "@ + p.id);
    assert(m[4].text == "  "@ + total_label(c, p.primary_artifact_ids + p.dependency_artifact_ids));
    let i = workflow_item(c, f, w, file);
    assert(i[2].text == w.name && i[3].text == "  "@ + w.id);
    assert(named_item(health, name)[2].text == name);
}

/// The details of a package, an artifact, a custom node and a workflow show what the catalog says of
/// them.
pub proof fn details_are_shown(
    d: DashView,
    c: CatalogView,
    f: FactsView,
    p: PackageView,
    a: ArtifactView,
    n: NodeView,
    w: WorkflowView,
)
    ensures
        shows(model_details_of(d, c, f, p), p.name),
        shows(model_details_of(d, c, f, p), "Family: "@ + p.family),
        shows(
            model_details_of(d, c, f, p),
            "Required artifacts: "@ + decimal(
                p.primary_artifact_ids.len() + p.dependency_artifact_ids.len(),
            ),
        ),
        shows(
            model_details_of(d, c, f, p),
            "Download size: "@ + total_label(c, p.primary_artifact_ids + p.dependency_artifact_ids),
        ),
        p.description matches Some(t) ==> shows(model_details_of(d, c, f, p), t),
        shows(artifact_details_of(d, c, f, a), a.name),
        shows(artifact_details_of(d, c, f, a), "Path: "@ + a.relative_path),
        a.description matches Some(t) ==> shows(artifact_details_of(d, c, f, a), t),
        shows(node_details_of(n), n.name),
        shows(node_details_of(n), "Repository: "@ + n.git_url),
        shows(node_details_of(n), "Folder: "@ + n.folder_name),
        shows(workflow_details_of(d, c, f, w), w.name),
        shows(workflow_details_of(d, c, f, w), "File: "@ + w.file),
        shows(workflow_details_of(d, c, f, w), "Models: "@ + decimal(w.artifact_ids.len())),
        shows(
            workflow_details_of(d, c, f, w),
            "Download size: "@ + total_label(c, w.artifact_ids),
        ),
        shows(
            workflow_details_of(d, c, f, w),
            "Custom nodes: "@ + decimal(w.custom_node_ids.len()),
        ),
{
    let m = model_details_of(d, c, f, p);
    shown_at(m, 0, 0, p.name);
    shown_at(m, 1, 0, "Family: "@ + p.family);
    shown_at(
        m,
        2,
        0,
        "Required artifacts: "@ + decimal(
            p.primary_artifact_ids.len() + p.dependency_artifact_ids.len(),
        ),
    );
    shown_at(
        m,
        3,
        0,
        "Download size: "@ + total_label(c, p.primary_artifact_ids + p.dependency_artifact_ids),
    );
    if let Some(t) = p.description {
        shown_at(m, 6, 0, t);
    }
    let b = artifact_details_of(d, c, f, a);
    shown_at(b, 0, 0, a.name);
    shown_at(b, 1, 0, "Path: "@ + a.relative_path);
    if let Some(t) = a.description {
        shown_at(b, 4, 0, t);
    }
    let e = node_details_of(n);
    shown_at(e, 0, 0, n.name);
    shown_at(e, 1, 0, "Repository: "@ + n.git_url);
    shown_at(e, 2, 0, "Folder: "@ + n.folder_name);
    let g = workflow_details_of(d, c, f, w);
    shown_at(g, 0, 0, w.name);
    shown_at(g, 1, 0, "File: "@ + w.file);
    shown_at(g, 2, 0, "Models: "@ + decimal(w.artifact_ids.len()));
    shown_at(g, 3, 0, "Download size: "@ + total_label(c, w.artifact_ids));
    shown_at(g, 4, 0, "Custom nodes: "@ + decimal(w.custom_node_ids.len()));
}

proof fn shown_at(lines: Seq<LineView>, i: int, j: int, text: Text)
    requires
        0 <= i < lines.len(),
        0 <= j < lines[i].len(),
        lines[i][j].text == text,
    ensures
        shows(lines, text),
{
    assert(says(lines[i], text));
}

/// A job is shown with its status, its name and how far it is; its details also with its speed, the
/// time left, its target, its source and, where it failed, the error.
pub proof fn jobs_are_shown(
    job: SnapshotView,
    percent: Text,
    speed: u64,
    eta: Option<u64>,
    total: u64,
)
    ensures
        job_item_of(job, percent)[0] == job_badge_of(job.status),
        says(job_item_of(job, percent), job.name),
        job.total_bytes == Some(total) ==> says(
            job_item_of(job, percent),
            "  "@ + (percent + "%  "@ + human_size(job.downloaded_bytes as nat) + " / "@ + human_size(
                total as nat,
            )),
        ),
        job.total_bytes is None ==> says(
            job_item_of(job, percent),
            "  "@ + human_size(job.downloaded_bytes as nat),
        ),
        ({
            let r = job_details_of(job, percent, speed, eta);
            &&& shows(r, job.name)
            &&& shows(r, "State: "@ + job.status.words())
            &&& shows(r, "Speed: "@ + human_size(speed as nat) + "/s"@)
            &&& shows(r, "Target: "@ + job.relative_path)
            &&& job.endpoint matches Some(e) ==> shows(r, "Source: "@ + e)
            &&& job.endpoint is None ==> shows(r, "Source: "@ + "https://huggingface.co"@)
            &&& job.error matches Some(e) ==> shows(r, "Error: "@ + e)
        }),
{
    let i = job_item_of(job, percent);
    assert(i[2].text == job.name);
    if job.total_bytes == Some(total) {
        assert(i[3].text == "  "@ + (percent + "%  "@ + human_size(job.downloaded_bytes as nat)
            + " / "@ + human_size(total as nat)));
    }
    if job.total_bytes is None {
        assert(i[3].text == "  "@ + human_size(job.downloaded_bytes as nat));
    }
    let r = job_details_of(job, percent, speed, eta);
    shown_at(r, 0, 0, job.name);
    shown_at(r, 1, 0, "State: "@ + job.status.words());
    shown_at(r, 3, 0, "Speed: "@ + human_size(speed as nat) + "/s"@);
    shown_at(r, 5, 0, "Target: "@ + job.relative_path);
    match job.endpoint {
        Some(e) => {
            shown_at(r, 6, 0, "Source: "@ + e);
        },
        None => {
            shown_at(r, 6, 0, "Source: "@ + "https://huggingface.co"@);
        },
    }
    if let Some(e) = job.error {
        shown_at(r, 11, 0, "Error: "@ + e);
    }
}

/// A time left is shown in minutes and seconds.
pub proof fn times_left_are_shown(minutes: u64, seconds: u64)
    requires
        seconds < 60,
        minutes * 60 + seconds <= u64::MAX,
    ensures
        eta_words(Some((minutes * 60 + seconds) as u64)) == decimal(minutes as nat) + "m "@
            + crate::text::two_digits(seconds as nat) + "s"@,
{
    let s = (minutes * 60 + seconds) as nat;
    assert(s / 60 == minutes && s % 60 == seconds);
}

proof fn tail_of_marked(logs: Seq<Text>, mark: Text, n: int, end: int)
    requires
        0 <= end <= logs.len(),
        n >= 0,
    ensures
        ({
            let marked = logs.take(end).filter(|t: Text| contains_text(t, mark));
            marked_tail(logs, mark, n, end) == if marked.len() <= n {
                marked
            } else {
                marked.skip(marked.len() - n)
            }
        }),
    decreases end,
{
    let keep = |t: Text| contains_text(t, mark);
    let marked = logs.take(end).filter(keep);
    reveal(Seq::filter);
    if end > 0 {
        assert(logs.take(end).drop_last() =~= logs.take(end - 1));
        assert(logs.take(end).last() == logs[end - 1]);
        let before = logs.take(end - 1).filter(keep);
        if n == 0 {
            assert(marked.skip(marked.len() - n) =~= Seq::<Text>::empty());
            if marked.len() == 0 {
                assert(marked =~= Seq::<Text>::empty());
            }
        } else if contains_text(logs[end - 1], mark) {
            tail_of_marked(logs, mark, n - 1, end - 1);
            assert(marked =~= before.push(logs[end - 1]));
            if marked.len() > n {
                assert(marked.skip(marked.len() - n) =~= before.skip(before.len() - (n - 1)).push(
                    logs[end - 1],
                ));
            }
        } else {
            tail_of_marked(logs, mark, n, end - 1);
            assert(marked =~= before);
        }
    } else {
        assert(logs.take(end) =~= Seq::<Text>::empty());
        assert(marked =~= Seq::<Text>::empty());
        assert(marked_tail(logs, mark, n, end) =~= marked);
    }
}

/// The window of a download shows its details; that of the Python dependencies also the last eight
/// lines of the log that come from them.
pub proof fn windows_show_the_output(
    job: SnapshotView,
    details: Seq<LineView>,
    logs: Seq<Text>,
    k: int,
)
    ensures
        job.artifact_id != "python-dependencies"@ ==> focused_of(Some(job), details, logs)
            == details,
        job.artifact_id == "python-dependencies"@ ==> ({
            let marked = logs.filter(|t: Text| contains_text(t, "[PYTHON]"@));
            let shown = if marked.len() <= 8 {
                marked
            } else {
                marked.skip(marked.len() - 8)
            };
            let r = focused_of(Some(job), details, logs);
            &&& r.len() == details.len() + 2 + shown.len()
            &&& r.take(details.len() as int) == details
            &&& 0 <= k < shown.len() ==> says(r[details.len() + 2 + k], shown[k])
        }),
{
    tail_of_marked(logs, "[PYTHON]"@, 8, logs.len() as int);
    assert(logs.take(logs.len() as int) =~= logs);
    if job.artifact_id == "python-dependencies"@ {
        let shown = marked_tail(logs, "[PYTHON]"@, 8, logs.len() as int);
        let r = focused_of(Some(job), details, logs);
        assert(r.take(details.len() as int) =~= details);
        if 0 <= k < shown.len() {
            assert(r[details.len() + 2 + k][0].text == shown[k]);
        }
    }
}

proof fn downloads_are_counted(jobs: Seq<SnapshotView>)
    ensures
        downloading_count(jobs) == jobs.filter(
            |j: SnapshotView| j.status == JobStatus::Downloading,
        ).len(),
    decreases jobs.len(),
{
    reveal(Seq::filter);
    if jobs.len() > 0 {
        downloads_are_counted(jobs.drop_last());
    }
}

/// The settings show the limits as they are set, the index, and how many of the jobs are downloading.
pub proof fn settings_are_shown(cfg: ConfigView, jobs: Seq<SnapshotView>)
    ensures
        says(settings_of(cfg, jobs)[0], decimal(cfg.max_concurrent_downloads as nat)),
        says(settings_of(cfg, jobs)[1], decimal(cfg.download_parallelism as nat)),
        says(settings_of(cfg, jobs)[2], mib_words(cfg.chunk_size_bytes)),
        says(
            settings_of(cfg, jobs)[3],
            decimal(jobs.filter(|j: SnapshotView| j.status == JobStatus::Downloading).len()),
        ),
        says(settings_of(cfg, jobs)[4], index_name(cfg.pypi_index_url)),
{
    downloads_are_counted(jobs);
    let r = settings_of(cfg, jobs);
    assert(r[0][1].text == decimal(cfg.max_concurrent_downloads as nat));
    assert(r[1][1].text == decimal(cfg.download_parallelism as nat));
    assert(r[2][1].text == mib_words(cfg.chunk_size_bytes));
    assert(r[3][1].text == decimal(downloading_count(jobs)));
    assert(r[4][1].text == index_name(cfg.pypi_index_url));
}

/// A system dependency is shown with its package, whether it is there and, where it is not, how to
/// install it.
pub proof fn system_dependencies_are_shown(d: SystemDependencyView)
    ensures
        says(dependency_lines(d, true)[0], "available"@),
        dependency_lines(d, true).len() == 1,
        says(dependency_lines(d, false)[0], "missing"@),
        dependency_lines(d, false).len() == 2,
        says(dependency_lines(d, false)[1], "  install: "@ + d.install),
        forall|ready: bool|
            (#[trigger] dependency_lines(d, ready))[0][0].text == left_aligned(d.package, 13),
{
    assert(dependency_lines(d, true)[0][1].text == "available"@);
    assert(dependency_lines(d, false)[0][1].text == "missing"@);
    assert(dependency_lines(d, false)[1][0].text == "  install: "@ + d.install);
}

/// The system section tells whether ComfyUI is configured, the server runs, Git and Python are
/// there, the dependencies are ready, and how much space is free.
pub proof fn the_system_is_shown(f: SystemFacts, s: SystemSnapshot, cfg: ConfigView, c: CatalogView)
    ensures
        ({
            let r = system_of(f, s, cfg, c);
            &&& says(r[0], if f.root_valid { "configured"@ } else { "not configured"@ })
            &&& says(r[1], if f.running { "running"@ } else { "stopped"@ })
            &&& says(r[2], if s.git { "available"@ } else { "missing"@ })
            &&& says(r[3], if s.python is Some { "available"@ } else { "missing"@ })
            &&& says(
                r[4],
                if s.python_dependencies_ready { "ready"@ } else { "not installed"@ },
            )
            &&& says(r[5], s.token_status@)
            &&& s.disk matches Some(n) ==> says(r[6], gib(n) + " GiB"@)
            &&& s.disk is None ==> says(r[6], "unknown"@)
            &&& f.log matches Some(l) ==> says(r[10], l@)
        }),
{
    let r = system_of(f, s, cfg, c);
    assert(r[0][1].text == if f.root_valid { "configured"@ } else { "not configured"@ });
    assert(r[1][1].text == if f.running { "running"@ } else { "stopped"@ });
    assert(r[2][1].text == if s.git { "available"@ } else { "missing"@ });
    assert(r[3][1].text == if s.python is Some { "available"@ } else { "missing"@ });
    assert(r[4][1].text == if s.python_dependencies_ready { "ready"@ } else { "not installed"@ });
    assert(r[5][1].text == s.token_status@);
    if let Some(n) = s.disk {
        assert(r[6][1].text == gib(n) + " GiB"@);
    } else {
        assert(r[6][1].text == "unknown"@);
    }
    if let Some(l) = f.log {
        assert(r[10][1].text == l@);
    }
}

/// The report counts the catalog and tells the path, the endpoint in use and whether there is a
/// token.
pub proof fn reports_tell(
    c: CatalogView,
    cfg: ConfigView,
    environment: Option<Text>,
    has_token: bool,
)
    ensures
        ({
            let r = doctor_report(c, cfg, environment, has_token);
            &&& r[0] == "catalog: "@ + (decimal(c.artifacts.len()) + " artifacts"@ + " / "@
                + decimal(c.packages.len()) + " packages"@ + " / "@ + decimal(c.workflows.len())
                + " workflows"@)
            &&& cfg.comfy_path matches Some(p) ==> r[1] == "ComfyUI: "@ + p
            &&& cfg.comfy_path is None ==> r[1] == "ComfyUI: "@ + "not configured"@
            &&& cfg.hf_endpoint matches Some(e) ==> r[2] == "HF endpoint: "@ + e
            &&& cfg.hf_endpoint is None && environment is Some ==> r[2] == "HF endpoint: "@
                + environment->0
            &&& cfg.hf_endpoint is None && environment is None ==> r[2] == "HF endpoint: "@
                + "https://huggingface.co"@
            &&& has_token ==> r[3] == "HF token: "@ + "present"@
            &&& !has_token ==> r[3] == "HF token: "@ + "not set"@
        }),
{
}

/// The Python that is shown: the embedded one on Windows, the installation's own, else the system's.
/// Libraries and programs are looked for with `ldconfig` and with the program itself.
pub proof fn pythons_are_found(root: Text, facts: PythonFacts, system: bool, embedded: bool)
    ensures
        shown_python(root, true, true, facts, system) == Some(
            joined_path(true, root, "python_embeded/python.exe"@),
        ),
        facts.dot_venv ==> shown_python(root, false, embedded, facts, system) == Some(
            joined_path(false, root, ".venv/bin/python"@),
        ),
        !facts.dot_venv && facts.venv ==> shown_python(root, false, embedded, facts, system) == Some(
            joined_path(false, root, "venv/bin/python"@),
        ),
        !facts.dot_venv && !facts.venv ==> shown_python(root, false, embedded, facts, true) == Some(
            "python3"@,
        ),
        !facts.dot_venv && !facts.venv ==> shown_python(root, false, embedded, facts, false) is None,
        probe_of("libegl"@) == Some(("ldconfig"@, "-p"@)),
        probe_of("ffmpeg"@) == Some(("ffmpeg"@, "-version"@)),
{
    reveal_strlit("libegl");
    reveal_strlit("ffmpeg");
    assert("libegl"@[0] == 'l' && "ffmpeg"@[0] == 'f');
}

/// Every package, custom node, workflow and artifact of the section has its entry, in the order of
/// the catalog.
pub proof fn lists_are_complete(
    c: CatalogView,
    f: FactsView,
    section: Section,
    files: Seq<bool>,
    i: int,
)
    ensures
        model_list_of(c, f).len() == c.packages.len(),
        0 <= i < c.packages.len() ==> model_list_of(c, f)[i] == model_item(c, f, c.packages[i]),
        node_list_of(c, f).len() == c.custom_nodes.len(),
        0 <= i < c.custom_nodes.len() ==> says(node_list_of(c, f)[i], c.custom_nodes[i].name)
            && node_list_of(c, f)[i][0] == badge_of(
            if f.installed_nodes.contains(c.custom_nodes[i].id) {
                Health::Ready
            } else {
                Health::Missing
            },
        ),
        workflow_list_of(c, f, files).len() == c.workflows.len(),
        0 <= i < c.workflows.len() ==> workflow_list_of(c, f, files)[i] == workflow_item(
            c,
            f,
            c.workflows[i],
            files[i],
        ),
        ({
            let arts = crate::dashboard::library_of(c, section);
            &&& artifact_list_of(c, f, section).len() == arts.len()
            &&& 0 <= i < arts.len() ==> says(artifact_list_of(c, f, section)[i], arts[i].name)
                && artifact_list_of(c, f, section)[i][0] == badge_of(f.artifact(arts[i].id))
        }),
{
    if 0 <= i < c.custom_nodes.len() {
        assert(node_list_of(c, f)[i][2].text == c.custom_nodes[i].name);
    }
    let arts = crate::dashboard::library_of(c, section);
    if 0 <= i < arts.len() {
        assert(artifact_list_of(c, f, section)[i][2].text == arts[i].name);
    }
}

/// The details are those of what is selected.
pub proof fn the_selection_is_detailed(d: DashView, c: CatalogView, f: FactsView, index: usize)
    ensures
        d.model_index < c.packages.len() ==> selected_model_details(d, c, f) == model_details_of(
            d,
            c,
            f,
            c.packages[d.model_index as int],
        ),
        d.workflow_index < c.workflows.len() ==> selected_workflow_details(d, c, f)
            == workflow_details_of(d, c, f, c.workflows[d.workflow_index as int]),
        index < c.custom_nodes.len() ==> selected_node_details(c, index) == node_details_of(
            c.custom_nodes[index as int],
        ),
        ({
            let arts = crate::dashboard::library_of(c, d.section);
            d.artifact_index < arts.len() ==> selected_artifact_details(d, c, f)
                == artifact_details_of(d, c, f, arts[d.artifact_index as int])
        }),
{
}

/// The cursor of a plan can be seen. Eight lines stand above the plan's first row; the plan is
/// scrolled no further than to the line of the cursor, and no further than it has to be.
pub proof fn cursors_can_be_seen(cursor: usize, height: u16)
    requires
        cursor + 8 <= usize::MAX,
        height >= 4,
    ensures
        0 <= scrolled(cursor, height),
        scrolled(cursor, height) <= cursor + 8,
        cursor + 8 - scrolled(cursor, height) <= height - 4,
        scrolled(cursor, height) > 0 ==> cursor + 8 - scrolled(cursor, height) == height - 4,
{
}

/// The sizes that the dashboard asks for.
pub proof fn terminals_have_a_least_size(width: u16, height: u16)
    ensures
        large_enough(width, height) <==> width >= 72 && height >= 20,
        wide_enough(width) <==> width >= 108,
{
}

/// The log is shown by its last lines, as many as there is room for.
pub proof fn the_end_of_the_log_is_shown(logs: Seq<Text>, height: u16, k: int)
    requires
        height >= 2,
    ensures
        ({
            let r = log_lines(logs, height);
            &&& r.len() == if logs.len() <= height - 2 {
                logs.len() as int
            } else {
                height - 2
            }
            &&& 0 <= k < r.len() ==> says(r[k], logs[logs.len() - r.len() + k])
        }),
{
    let r = log_lines(logs, height);
    if 0 <= k < r.len() {
        assert(r[k][0].text == logs[logs.len() - r.len() + k]);
    }
}

proof fn rows_hold(e: PlanView, c: CatalogView, ids: Seq<Text>, model: bool, end: int, row: RowView)
    requires
        0 <= end <= ids.len(),
    ensures
        e.rows_of(c, ids, model, end).contains(row) <==> exists|k: int|
            0 <= k < end && e.artifact_rows(c, #[trigger] ids[k], model).contains(row),
    decreases end,
{
    if end > 0 {
        rows_hold(e, c, ids, model, end - 1, row);
        either_part(
            e.rows_of(c, ids, model, end - 1),
            e.artifact_rows(c, ids[end - 1], model),
            row,
        );
        if e.rows_of(c, ids, model, end - 1).contains(row) {
            let k = choose|k: int|
                0 <= k < end - 1 && e.artifact_rows(c, #[trigger] ids[k], model).contains(row);
            assert(e.artifact_rows(c, ids[k], model).contains(row));
        }
        if exists|k: int| 0 <= k < end && e.artifact_rows(c, #[trigger] ids[k], model).contains(row) {
            let k = choose|k: int|
                0 <= k < end && e.artifact_rows(c, #[trigger] ids[k], model).contains(row);
            if k < end - 1 {
                assert(e.artifact_rows(c, ids[k], model).contains(row));
            }
        }
    }
}

proof fn either_part(a: Seq<RowView>, b: Seq<RowView>, x: RowView)
    ensures
        (a + b).contains(x) <==> a.contains(x) || b.contains(x),
{
    let r = a + b;
    if a.contains(x) {
        let i = choose|i: int| 0 <= i < a.len() && a[i] == x;
        assert(r[i] == x);
    }
    if b.contains(x) {
        let i = choose|i: int| 0 <= i < b.len() && b[i] == x;
        assert(r[a.len() + i] == x);
    }
    if r.contains(x) {
        let i = choose|i: int| 0 <= i < r.len() && r[i] == x;
        if i < a.len() {
            assert(a[i] == x);
        } else {
            assert(b[i - a.len()] == x);
        }
    }
}

/// The rows of a plan: every model; where the dependencies are opened, every dependency and custom
/// node; the rows OK and Cancel.
pub proof fn plans_show_what_they_list(e: PlanView, c: CatalogView, id: Text)
    ensures
        ({
            let lists = plan_lists(c, e.target);
            let rows = e.rows(c);
            &&& rows.contains(RowView::Model(id)) <==> lists.models.contains(id)
            &&& rows.contains(RowView::DependencyArtifact(id)) <==> e.deps_expanded
                && lists.dependencies.contains(id)
            &&& rows.contains(RowView::DependencyNode(id)) <==> e.deps_expanded
                && lists.nodes.contains(id)
            &&& rows.contains(RowView::Dependencies)
            &&& rows[rows.len() - 2] is Accept
            &&& rows[rows.len() - 1] is Cancel
        }),
{
    row_is_listed(e, c, RowView::Model(id), id);
    row_is_listed(e, c, RowView::DependencyArtifact(id), id);
    row_is_listed(e, c, RowView::DependencyNode(id), id);
    row_is_listed(e, c, RowView::Dependencies, id);
}

proof fn row_is_listed(e: PlanView, c: CatalogView, row: RowView, id: Text)
    requires
        row == RowView::Model(id) || row == RowView::DependencyArtifact(id) || row
            == RowView::DependencyNode(id) || row == RowView::Dependencies,
    ensures
        ({
            let lists = plan_lists(c, e.target);
            let rows = e.rows(c);
            &&& row is Model ==> (rows.contains(row) <==> lists.models.contains(id))
            &&& row is DependencyArtifact ==> (rows.contains(row) <==> e.deps_expanded
                && lists.dependencies.contains(id))
            &&& row is DependencyNode ==> (rows.contains(row) <==> e.deps_expanded
                && lists.nodes.contains(id))
            &&& row is Dependencies ==> rows.contains(row)
        }),
{
    let lists = plan_lists(c, e.target);
    let models = e.rows_of(c, lists.models, true, lists.models.len() as int);
    let middle = seq![RowView::Dependencies];
    let deps = e.rows_of(c, lists.dependencies, false, lists.dependencies.len() as int);
    let nodes = lists.nodes.map_values(|x: Text| RowView::DependencyNode(x));
    let open = if e.deps_expanded {
        deps + nodes
    } else {
        Seq::empty()
    };
    let end = seq![RowView::Accept, RowView::Cancel];
    either_part(models + middle + open, end, row);
    either_part(models + middle, open, row);
    either_part(models, middle, row);
    either_part(deps, nodes, row);
    assert(middle[0] == RowView::Dependencies);
    rows_hold(e, c, lists.models, true, lists.models.len() as int, row);
    rows_hold(e, c, lists.dependencies, false, lists.dependencies.len() as int, row);
    assert forall|x: Text, model: bool| #[trigger]
        e.artifact_rows(c, x, model).contains(row) implies (row is Model && model && x == id)
        || (row is DependencyArtifact && !model && x == id) by {
        let rows = e.artifact_rows(c, x, model);
        let k = choose|k: int| 0 <= k < rows.len() && rows[k] == row;
        if k > 0 {
            assert(rows[k] == e.sources_of(c, x, model)[k - 1]);
            assert(rows[k] is ModelSource || rows[k] is DependencySource);
        }
    }
    assert(e.artifact_rows(c, id, true)[0] == RowView::Model(id));
    assert(e.artifact_rows(c, id, false)[0] == RowView::DependencyArtifact(id));
    if lists.models.contains(id) {
        let k = choose|k: int| 0 <= k < lists.models.len() && lists.models[k] == id;
        assert(e.artifact_rows(c, lists.models[k], true).contains(RowView::Model(id)));
    }
    if lists.dependencies.contains(id) {
        let k = choose|k: int| 0 <= k < lists.dependencies.len() && lists.dependencies[k] == id;
        assert(e.artifact_rows(c, lists.dependencies[k], false).contains(
            RowView::DependencyArtifact(id),
        ));
    }
    if lists.nodes.contains(id) {
        let k = choose|k: int| 0 <= k < lists.nodes.len() && lists.nodes[k] == id;
        assert(nodes[k] == RowView::DependencyNode(id));
    }
    if nodes.contains(row) {
        let k = choose|k: int| 0 <= k < nodes.len() && nodes[k] == row;
        assert(lists.nodes[k] == id || !(row is DependencyNode));
    }
    if models.contains(row) {
        let k = choose|k: int|
            0 <= k < lists.models.len() && e.artifact_rows(
                c,
                #[trigger] lists.models[k],
                true,
            ).contains(row);
        assert(lists.models[k] == id);
    }
    if deps.contains(row) {
        let k = choose|k: int|
            0 <= k < lists.dependencies.len() && e.artifact_rows(
                c,
                #[trigger] lists.dependencies[k],
                false,
            ).contains(row);
        assert(lists.dependencies[k] == id);
    }
}

/// The rows of a plan show what they stand for: the name, the status and the size; whether a
/// dependency is enabled, and which source is chosen. The row of the cursor is marked.
pub proof fn rows_show_what_they_stand_for(
    e: PlanView,
    c: CatalogView,
    f: FactsView,
    id: Text,
    a: ArtifactView,
    n: NodeView,
    i: int,
)
    requires
        found::<Artifact>(c.artifacts, id) == Some(a),
    ensures
        ({
            let size = if e.source_for(id) < a.sources.len()
                && a.sources[e.source_for(id) as int].size is Some {
                a.sources[e.source_for(id) as int].size->0
            } else {
                match a.size_bytes {
                    Some(bytes) => human_size(bytes as nat),
                    None => "size unknown"@,
                }
            };
            let state = "  ["@ + f.artifact(id).words() + " · "@ + size + "]"@;
            let arrow = if e.expanded_artifacts.contains(id) {
                "▾"@
            } else {
                "▸"@
            };
            let mark = if e.disabled_dependencies.contains(id) {
                " "@
            } else {
                "x"@
            };
            &&& e.row_text(c, f, RowView::Model(id)) == arrow + " Model  "@ + a.name + state
            &&& e.row_text(c, f, RowView::DependencyArtifact(id)) == "    "@ + arrow + " ["@ + mark
                + "] "@ + a.name + state
        }),
        found::<crate::catalog::CustomNode>(c.custom_nodes, n.id) == Some(n) ==> e.row_text(
            c,
            f,
            RowView::DependencyNode(n.id),
        ) == "    ["@ + (if e.disabled_dependencies.contains(n.id) {
            " "@
        } else {
            "x"@
        }) + "] "@ + n.name + "  ["@ + (if f.installed_nodes.contains(n.id) {
            "READY"@
        } else {
            "MISSING"@
        }) + "]"@,
        0 <= i < e.rows(c).len() && i == e.cursor ==> e.lines(c, f)[i] == (
            "› "@ + e.row_text(c, f, e.rows(c)[i]),
            true,
        ),
        0 <= i < e.rows(c).len() && i != e.cursor && e.cursor < e.rows(c).len() ==> e.lines(c, f)[i]
            == ("  "@ + e.row_text(c, f, e.rows(c)[i]), false),
        e.lines(c, f).len() == e.rows(c).len(),
{
}

/// An opened artifact shows each of its sources under it, in their order; one that lists none shows
/// itself as one.
pub proof fn opened_artifacts_show_their_sources(
    e: PlanView,
    c: CatalogView,
    id: Text,
    a: ArtifactView,
    i: int,
)
    requires
        found::<Artifact>(c.artifacts, id) == Some(a),
        e.expanded_artifacts.contains(id),
        0 <= i,
        i < a.sources.len() || i == 0,
        i <= usize::MAX,
    ensures
        e.artifact_rows(c, id, true)[i + 1] == RowView::ModelSource(id, i as usize),
        e.artifact_rows(c, id, false)[i + 1] == RowView::DependencySource(id, i as usize),
        e.artifact_rows(c, id, true).len() == 1 + if a.sources.len() == 0 {
            1
        } else {
            a.sources.len()
        },
{
}

}
