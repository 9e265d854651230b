//! What the dashboard shows: lines of text in the dashboard's colours.
use crate::catalog::{
    Artifact, ArtifactView, Catalog, CatalogView, NodeView, Package, PackageView, SystemDependency,
    SystemDependencyView, WorkflowView,
};
use crate::config::{AppConfig, ConfigView};
use crate::dashboard::{
    artifacts_for_section, library_of, within, DashView, Dashboard, Section, SECTIONS,
};
use crate::download::{gib, gib_text};
use crate::health::{
    artifact_ids_size, chained, total_label, ArtifactHealthSnapshot, FactsView, Health, HealthFacts,
    HealthView, Tone,
};
use crate::jobs::{JobSnapshot, JobStatus, SnapshotView};
use crate::json::{member, text_in, Json, JsonView};
use crate::plan::{PlanEditor, PlanTarget, PlanView, TargetView};
use crate::size::{
    as_double, format_human_size, human_size, nearest_double, nearest_even, round_even, MIB,
};
use crate::text::{
    align_left, align_right, cat2, cat3, cat4, cat5, contains, contains_text, decimal, decimal_text,
    join_texts, joined, left_aligned, right_aligned, same_text, two_digit_text, two_digits, Text,
};
use vstd::prelude::*;
use vstd::string::*;

verus! {

/// A piece of text in one style.
#[derive(Debug)]
pub struct Span {
    pub text: String,
    pub tone: Tone,
    pub bold: bool,
}

/// What a [`Span`] holds.
pub struct SpanView {
    pub text: Text,
    pub tone: Tone,
    pub bold: bool,
}

impl DeepView for Span {
    type V = SpanView;

    open spec fn deep_view(&self) -> SpanView {
        SpanView { text: self.text@, tone: self.tone, bold: self.bold }
    }
}

/// A line.
pub type Line = Vec<Span>;

/// What a line holds.
pub type LineView = Seq<SpanView>;

pub open spec fn in_tone(text: Text, tone: Tone) -> SpanView {
    SpanView { text, tone, bold: false }
}

pub open spec fn in_bold(text: Text, tone: Tone) -> SpanView {
    SpanView { text, tone, bold: true }
}

pub open spec fn raw(text: Text) -> SpanView {
    in_tone(text, Tone::Plain)
}

/// A line of plain text.
pub open spec fn text_line(text: Text) -> LineView {
    seq![raw(text)]
}

fn toned(text: &str, tone: Tone) -> (r: Span)
    ensures
        r.deep_view() == in_tone(text@, tone),
{
    Span { text: text.to_owned(), tone, bold: false }
}

fn bold(text: &str, tone: Tone) -> (r: Span)
    ensures
        r.deep_view() == in_bold(text@, tone),
{
    Span { text: text.to_owned(), tone, bold: true }
}

fn plain(text: &str) -> (r: Span)
    ensures
        r.deep_view() == raw(text@),
{
    toned(text, Tone::Plain)
}

fn line1(a: Span) -> (r: Line)
    ensures
        r.deep_view() == seq![a.deep_view()],
{
    let mut r: Line = Vec::new();
    let ghost v = a.deep_view();
    r.push(a);
    assert(r.deep_view() =~= seq![v]);
    r
}

fn line2(a: Span, b: Span) -> (r: Line)
    ensures
        r.deep_view() == seq![a.deep_view(), b.deep_view()],
{
    let mut r: Line = Vec::new();
    let ghost v = seq![a.deep_view(), b.deep_view()];
    r.push(a);
    r.push(b);
    assert(r.deep_view() =~= v);
    r
}

fn line3(a: Span, b: Span, c: Span) -> (r: Line)
    ensures
        r.deep_view() == seq![a.deep_view(), b.deep_view(), c.deep_view()],
{
    let mut r: Line = Vec::new();
    let ghost v = seq![a.deep_view(), b.deep_view(), c.deep_view()];
    r.push(a);
    r.push(b);
    r.push(c);
    assert(r.deep_view() =~= v);
    r
}

fn words(text: &str) -> (r: Line)
    ensures
        r.deep_view() == text_line(text@),
{
    line1(plain(text))
}

fn put(lines: &mut Vec<Line>, line: Line)
    ensures
        final(lines).deep_view() == old(lines).deep_view().push(line.deep_view()),
{
    let ghost before = lines.deep_view();
    let ghost v = line.deep_view();
    lines.push(line);
    assert(lines.deep_view() =~= before.push(v));
}

fn no_lines() -> (r: Vec<Line>)
    ensures
        r.deep_view() == Seq::<LineView>::empty(),
{
    let r: Vec<Line> = Vec::new();
    assert(r.deep_view() =~= Seq::<LineView>::empty());
    r
}

/// A label in its column.
pub open spec fn label_span(value: Text) -> SpanView {
    in_tone(left_aligned(value, 13), Tone::Muted)
}

fn label(value: &str) -> (r: Span)
    ensures
        r.deep_view() == label_span(value@),
{
    let text = align_left(value, 13);
    toned(text.as_str(), Tone::Muted)
}

/// A state, green where all is well and red where it is not.
pub open spec fn state_span_of(value: Text, healthy: bool) -> SpanView {
    in_tone(
        value,
        if healthy {
            Tone::Green
        } else {
            Tone::Red
        },
    )
}

fn state_span(value: &str, healthy: bool) -> (r: Span)
    ensures
        r.deep_view() == state_span_of(value@, healthy),
{
    toned(
        value,
        if healthy {
            Tone::Green
        } else {
            Tone::Red
        },
    )
}

/// The badge of a health.
pub open spec fn badge_of(health: Health) -> SpanView {
    in_bold(left_aligned(health.words(), 8), health.tone())
}

fn status_badge(health: Health) -> (r: Span)
    ensures
        r.deep_view() == badge_of(health),
{
    let text = align_left(health.label(), 8);
    bold(text.as_str(), health.color())
}

/// The colour of a job's badge.
pub open spec fn job_tone(status: JobStatus) -> Tone {
    match status {
        JobStatus::Completed => Tone::Green,
        JobStatus::Queued => Tone::Muted,
        JobStatus::Paused => Tone::Yellow,
        JobStatus::Failed => Tone::Red,
        _ => Tone::Accent,
    }
}

/// The badge of a job.
pub open spec fn job_badge_of(status: JobStatus) -> SpanView {
    in_bold(left_aligned(status.words(), 8), job_tone(status))
}

fn job_badge(status: JobStatus) -> (r: Span)
    ensures
        r.deep_view() == job_badge_of(status),
{
    let tone = match status {
        JobStatus::Completed => Tone::Green,
        JobStatus::Queued => Tone::Muted,
        JobStatus::Paused => Tone::Yellow,
        JobStatus::Failed => Tone::Red,
        _ => Tone::Accent,
    };
    let text = align_left(status.label(), 8);
    bold(text.as_str(), tone)
}

/// A number and what it counts.
pub open spec fn metric_of(name: Text, value: int, tone: Tone) -> LineView {
    seq![in_bold(" "@ + right_aligned(decimal(value as nat), 3) + " "@, tone), raw(name)]
}

fn metric_line(name: &str, value: usize, tone: Tone) -> (r: Line)
    ensures
        r.deep_view() == metric_of(name@, value as int, tone),
{
    let n = decimal_text(value as u64);
    let padded = align_right(n.as_str(), 3);
    let text = cat3(" ", padded.as_str(), " ");
    line2(bold(text.as_str(), tone), plain(name))
}

/// A warning.
pub open spec fn warning_of(message: Text, tone: Tone) -> LineView {
    seq![in_tone("● "@, tone), raw(message)]
}

fn warning_line(message: &str, tone: Tone) -> (r: Line)
    ensures
        r.deep_view() == warning_of(message@, tone),
{
    line2(toned("● ", tone), plain(message))
}

/// The least terminal that the dashboard is shown in.
pub const LEAST_WIDTH: u16 = 72;

pub const LEAST_HEIGHT: u16 = 20;

/// A terminal that the dashboard can be shown on.
pub open spec fn large_enough(width: u16, height: u16) -> bool {
    width >= LEAST_WIDTH && height >= LEAST_HEIGHT
}

/// Whether the dashboard can be shown in a terminal.
pub fn terminal_fits(width: u16, height: u16) -> (r: bool)
    ensures
        r == large_enough(width, height),
{
    width >= LEAST_WIDTH && height >= LEAST_HEIGHT
}

/// The width from which titles and hints are shown in full.
pub const WIDE: u16 = 100;

/// The width from which lists have details beside them.
pub const TWO_COLUMNS: u16 = 108;

/// A terminal with room for two columns.
pub open spec fn wide_enough(width: u16) -> bool {
    width >= TWO_COLUMNS
}

/// Whether a list has details beside it.
pub fn has_two_columns(width: u16) -> (r: bool)
    ensures
        r == wide_enough(width),
{
    width >= TWO_COLUMNS
}

/// How far a plan is scrolled, so that the line of its cursor is the last that can be seen.
pub open spec fn scrolled(cursor: usize, height: u16) -> int {
    let line: int = if cursor + 8 <= usize::MAX {
        cursor + 8
    } else {
        usize::MAX as int
    };
    let room: int = if height >= 4 {
        height - 4
    } else {
        0
    };
    if line >= room {
        line - room
    } else {
        0
    }
}

/// How far the plan is scrolled so that its cursor can be seen in a card of `height` rows.
pub fn plan_scroll(cursor: usize, height: u16) -> (r: usize)
    ensures
        r == scrolled(cursor, height),
{
    let line: usize = if cursor <= usize::MAX - 8 {
        cursor + 8
    } else {
        usize::MAX
    };
    let room: usize = if height >= 4 {
        (height - 4) as usize
    } else {
        0
    };
    if line >= room {
        line - room
    } else {
        0
    }
}

/// The header.
pub open spec fn header_of(configured: bool, running: bool, version: Text) -> LineView {
    seq![
        in_bold(" COMFY"@, Tone::Accent),
        in_bold("BOX "@, Tone::White),
        in_tone("v"@ + version + "  "@, Tone::Muted),
        if configured {
            in_tone(" COMFYUI READY "@, Tone::Green)
        } else {
            in_bold(" SETUP REQUIRED "@, Tone::Red)
        },
        raw("  "@),
        if running {
            in_bold(" ● RUNNING "@, Tone::Green)
        } else {
            in_tone(" ○ STOPPED "@, Tone::Muted)
        },
    ]
}

/// The header.
pub fn render_header(configured: bool, running: bool, version: &str) -> (r: Line)
    ensures
        r.deep_view() == header_of(configured, running, version@),
{
    let v = cat3("v", version, "  ");
    let mut r: Line = Vec::new();
    r.push(bold(" COMFY", Tone::Accent));
    r.push(bold("BOX ", Tone::White));
    r.push(toned(v.as_str(), Tone::Muted));
    if configured {
        r.push(toned(" COMFYUI READY ", Tone::Green));
    } else {
        r.push(bold(" SETUP REQUIRED ", Tone::Red));
    }
    r.push(plain("  "));
    if running {
        r.push(bold(" ● RUNNING ", Tone::Green));
    } else {
        r.push(toned(" ○ STOPPED ", Tone::Muted));
    }
    assert(r.deep_view() =~= header_of(configured, running, version@));
    r
}

/// The title of a tab.
pub open spec fn tab_title(section: Section, width: u16) -> Text {
    " "@ + (if width < WIDE {
        section.short_words()
    } else {
        section.words()
    }) + " "@
}

/// The titles of the tabs, in the order of the sections.
pub fn render_tabs(width: u16) -> (r: Vec<String>)
    ensures
        r@.len() == SECTIONS,
        forall|s: Section| r.deep_view()[#[trigger] s.order() as int] == tab_title(s, width),
{
    let mut out: Vec<String> = Vec::new();
    let mut i: usize = 0;
    while i < SECTIONS
        invariant
            i <= SECTIONS,
            out@.len() == i,
            forall|s: Section|
                #[trigger] s.order() < i ==> out@[s.order() as int]@ == tab_title(s, width),
        decreases SECTIONS - i,
    {
        let section = Section::at(i);
        let title = if width < WIDE {
            section.short_title()
        } else {
            section.title()
        };
        let text = cat3(" ", title, " ");
        out.push(text);
        proof {
            assert forall|s: Section| #[trigger] s.order() < i + 1 implies out@[s.order() as int]@
                == tab_title(s, width) by {
                if s.order() == i {
                    crate::dashboard::sections_differ(s, section);
                }
            }
        }
        i += 1;
    }
    assert forall|s: Section| out.deep_view()[#[trigger] s.order() as int] == tab_title(s, width) by {
        assert(s.order() < SECTIONS);
    }
    out
}

/// What is known of the system.
pub struct SystemSnapshot {
    pub git: bool,
    pub python: Option<String>,
    pub disk: Option<u64>,
    pub token_status: String,
    pub has_token: bool,
    pub dependency_status: Vec<(String, bool)>,
    pub python_dependencies_ready: bool,
}

/// What is said of the token: where it was found, or that it is missing.
pub open spec fn token_words(source: Option<crate::auth::HfTokenSource>) -> Text {
    match source {
        Some(s) => "present · "@ + s.words(),
        None => "missing"@,
    }
}

/// What is said of the token.
pub fn token_status(source: Option<crate::auth::HfTokenSource>) -> (r: String)
    ensures
        r@ == token_words(source),
{
    match source {
        Some(s) => cat2("present · ", s.label()),
        None => "missing".to_owned(),
    }
}

/// The environment card.
pub open spec fn environment_of(
    path: Option<Text>,
    python: Option<Text>,
    ready: bool,
    has_token: bool,
    token: Text,
    endpoint: Text,
) -> Seq<LineView> {
    seq![
        seq![
            label_span("Path"@),
            raw(
                match path {
                    Some(p) => p,
                    None => "Not configured"@,
                },
            ),
        ],
        seq![
            label_span("Python"@),
            raw(
                match python {
                    Some(p) => p,
                    None => "Not detected"@,
                },
            ),
        ],
        seq![
            label_span("Dependencies"@),
            state_span_of(
                if ready {
                    "ready"@
                } else {
                    "not installed"@
                },
                ready,
            ),
        ],
        seq![
            label_span("HF token"@),
            if has_token {
                in_tone(token, Tone::Green)
            } else {
                in_tone("missing"@, Tone::Yellow)
            },
        ],
        seq![label_span("Endpoint"@), raw(endpoint)],
    ]
}

/// The environment card.
pub fn render_environment_card(
    path: &Option<String>,
    python: &Option<String>,
    system: &SystemSnapshot,
    endpoint: &str,
) -> (r: Vec<Line>)
    ensures
        r.deep_view() == environment_of(
            path.deep_view(),
            python.deep_view(),
            system.python_dependencies_ready,
            system.has_token,
            system.token_status@,
            endpoint@,
        ),
{
    let mut out = no_lines();
    let path_text: &str = match path {
        Some(p) => p.as_str(),
        None => "Not configured",
    };
    let python_text: &str = match python {
        Some(p) => p.as_str(),
        None => "Not detected",
    };
    let ready = system.python_dependencies_ready;
    put(&mut out, line2(label("Path"), plain(path_text)));
    put(&mut out, line2(label("Python"), plain(python_text)));
    put(
        &mut out,
        line2(
            label("Dependencies"),
            state_span(
                if ready {
                    "ready"
                } else {
                    "not installed"
                },
                ready,
            ),
        ),
    );
    let token = if system.has_token {
        toned(system.token_status.as_str(), Tone::Green)
    } else {
        toned("missing", Tone::Yellow)
    };
    put(&mut out, line2(label("HF token"), token));
    put(&mut out, line2(label("Endpoint"), plain(endpoint)));
    assert(out.deep_view() =~~= environment_of(
        path.deep_view(),
        python.deep_view(),
        ready,
        system.has_token,
        system.token_status@,
        endpoint@,
    ));
    out
}

/// The library card.
pub open spec fn library_of_health(root_valid: bool, h: HealthView) -> Seq<LineView> {
    if !root_valid {
        seq![text_line("Configure a valid ComfyUI installation to scan models."@)]
    } else {
        seq![
            metric_of("Ready"@, h.ready, Tone::Green),
            metric_of("Missing"@, h.missing, Tone::Muted),
            metric_of("Paused"@, h.paused, Tone::Yellow),
            metric_of("Broken"@, h.broken, Tone::Red),
        ]
    }
}

/// The library card.
pub fn render_library_card(root_valid: bool, health: &ArtifactHealthSnapshot) -> (r: Vec<Line>)
    ensures
        r.deep_view() == library_of_health(root_valid, health.deep_view()),
{
    let mut out = no_lines();
    if !root_valid {
        put(&mut out, words("Configure a valid ComfyUI installation to scan models."));
    } else {
        put(&mut out, metric_line("Ready", health.ready, Tone::Green));
        put(&mut out, metric_line("Missing", health.missing, Tone::Muted));
        put(&mut out, metric_line("Paused", health.paused, Tone::Yellow));
        put(&mut out, metric_line("Broken", health.broken, Tone::Red));
    }
    assert(out.deep_view() =~= library_of_health(root_valid, health.deep_view()));
    out
}

/// What needs attention, apart from an all-clear.
pub open spec fn warnings_of(
    root_valid: bool,
    has_token: bool,
    ready: bool,
    paused: int,
    broken: int,
) -> Seq<LineView> {
    (if !root_valid {
        seq![
            warning_of("No valid ComfyUI installation is configured."@, Tone::Red),
            text_line("  Press l to locate one or i to install ComfyUI."@),
        ]
    } else {
        Seq::empty()
    }) + (if !has_token {
        seq![
            warning_of("HF_TOKEN is not set."@, Tone::Yellow),
            text_line(
                "  Public downloads work; press t to save a token for gated repositories."@,
            ),
        ]
    } else {
        Seq::empty()
    }) + (if root_valid && !ready {
        seq![
            warning_of("ComfyUI Python dependencies are not ready."@, Tone::Yellow),
            text_line(
                "  Press p to install them in the background; server start/stop is locked until complete."@,
            ),
        ]
    } else {
        Seq::empty()
    }) + (if root_valid && paused > 0 {
        seq![
            warning_of(
                decimal(paused as nat)
                    + " interrupted download(s) can be resumed from Downloads."@,
                Tone::Yellow,
            ),
        ]
    } else {
        Seq::empty()
    }) + (if root_valid && broken > 0 {
        seq![
            warning_of(
                decimal(broken as nat) + " mismatched artifact(s) need force repair."@,
                Tone::Red,
            ),
        ]
    } else {
        Seq::empty()
    })
}

/// The attention card.
pub open spec fn attention_of(
    root_valid: bool,
    has_token: bool,
    ready: bool,
    paused: int,
    broken: int,
) -> Seq<LineView> {
    let warnings = warnings_of(root_valid, has_token, ready, paused, broken);
    if warnings.len() == 0 {
        seq![seq![in_bold("✓ "@, Tone::Green), raw("No action needed. ComfyBox is ready."@)]]
    } else {
        warnings
    }
}

/// The attention card: what keeps ComfyBox from being ready.
pub fn render_attention_card(
    root_valid: bool,
    has_token: bool,
    ready: bool,
    paused: usize,
    broken: usize,
) -> (r: Vec<Line>)
    ensures
        r.deep_view() == attention_of(root_valid, has_token, ready, paused as int, broken as int),
{
    let mut out = no_lines();
    if !root_valid {
        put(&mut out, warning_line("No valid ComfyUI installation is configured.", Tone::Red));
        put(&mut out, words("  Press l to locate one or i to install ComfyUI."));
    }
    if !has_token {
        put(&mut out, warning_line("HF_TOKEN is not set.", Tone::Yellow));
        put(
            &mut out,
            words("  Public downloads work; press t to save a token for gated repositories."),
        );
    }
    if root_valid && !ready {
        put(&mut out, warning_line("ComfyUI Python dependencies are not ready.", Tone::Yellow));
        put(
            &mut out,
            words(
                "  Press p to install them in the background; server start/stop is locked until complete.",
            ),
        );
    }
    if root_valid && paused > 0 {
        let n = decimal_text(paused as u64);
        let message = cat2(n.as_str(), " interrupted download(s) can be resumed from Downloads.");
        put(&mut out, warning_line(message.as_str(), Tone::Yellow));
    }
    if root_valid && broken > 0 {
        let n = decimal_text(broken as u64);
        let message = cat2(n.as_str(), " mismatched artifact(s) need force repair.");
        put(&mut out, warning_line(message.as_str(), Tone::Red));
    }
    assert(out.deep_view() =~= warnings_of(
        root_valid,
        has_token,
        ready,
        paused as int,
        broken as int,
    ));
    if out.len() == 0 {
        put(
            &mut out,
            line2(bold("✓ ", Tone::Green), plain("No action needed. ComfyBox is ready.")),
        );
        assert(out.deep_view() =~= attention_of(
            root_valid,
            has_token,
            ready,
            paused as int,
            broken as int,
        ));
    }
    out
}

/// The entry of a package.
pub open spec fn model_item(c: CatalogView, f: FactsView, p: PackageView) -> LineView {
    seq![
        badge_of(f.package(c, p)),
        raw(" "@),
        in_tone(p.name, Tone::White),
        in_tone("  "@ + p.id, Tone::Muted),
        in_tone(
            "  "@ + total_label(c, p.primary_artifact_ids + p.dependency_artifact_ids),
            Tone::Muted,
        ),
    ]
}

fn render_model_item(catalog: &Catalog, facts: &HealthFacts, package: &Package) -> (r: Line)
    ensures
        r.deep_view() == model_item(catalog.deep_view(), facts.deep_view(), package.deep_view()),
{
    let ids = chained(&package.primary_artifact_ids, &package.dependency_artifact_ids);
    let size = artifact_ids_size(catalog, &ids);
    let id_text = cat2("  ", package.id.as_str());
    let size_text = cat2("  ", size.as_str());
    let mut r: Line = Vec::new();
    r.push(status_badge(facts.package_health(catalog, package)));
    r.push(plain(" "));
    r.push(toned(package.name.as_str(), Tone::White));
    r.push(toned(id_text.as_str(), Tone::Muted));
    r.push(toned(size_text.as_str(), Tone::Muted));
    assert(r.deep_view() =~= model_item(
        catalog.deep_view(),
        facts.deep_view(),
        package.deep_view(),
    ));
    r
}

/// The entries of all packages.
pub open spec fn model_list_of(c: CatalogView, f: FactsView) -> Seq<LineView> {
    c.packages.map_values(|p: PackageView| model_item(c, f, p))
}

/// The list of packages.
pub fn render_model_list(catalog: &Catalog, facts: &HealthFacts) -> (r: Vec<Line>)
    ensures
        r.deep_view() == model_list_of(catalog.deep_view(), facts.deep_view()),
{
    let ghost c = catalog.deep_view();
    let ghost f = facts.deep_view();
    let ghost want = c.packages.map_values(|p: PackageView| model_item(c, f, p));
    let mut out = no_lines();
    let mut i: usize = 0;
    assert(out.deep_view() =~= want.take(0));
    while i < catalog.packages.len()
        invariant
            i <= catalog.packages@.len(),
            c == catalog.deep_view(),
            f == facts.deep_view(),
            want == c.packages.map_values(|p: PackageView| model_item(c, f, p)),
            out.deep_view() == want.take(i as int),
        decreases catalog.packages@.len() - i,
    {
        assert(c.packages[i as int] == catalog.packages@[i as int].deep_view());
        put(&mut out, render_model_item(catalog, facts, &catalog.packages[i]));
        assert(out.deep_view() =~= want.take(i + 1));
        i += 1;
    }
    assert(want.take(want.len() as int) =~= want);
    out
}

/// The lines of the plan editor.
pub open spec fn plan_section(e: PlanView, c: CatalogView, f: FactsView) -> Seq<LineView> {
    e.lines(c, f).map_values(
        |l: (Text, bool)|
            seq![
                SpanView {
                    text: l.0,
                    tone: if l.1 {
                        Tone::Chosen
                    } else {
                        Tone::White
                    },
                    bold: l.1,
                },
            ],
    )
}

fn put_plan(lines: &mut Vec<Line>, editor: &PlanEditor, catalog: &Catalog, facts: &HealthFacts)
    ensures
        final(lines).deep_view() == old(lines).deep_view() + plan_section(
            editor.deep_view(),
            catalog.deep_view(),
            facts.deep_view(),
        ),
{
    let ghost start = lines.deep_view();
    let ghost want = plan_section(editor.deep_view(), catalog.deep_view(), facts.deep_view());
    let rows = editor.render_plan_lines(catalog, facts);
    let ghost texts = rows.deep_view();
    let mut i: usize = 0;
    assert(start =~= start + want.take(0));
    while i < rows.len()
        invariant
            i <= rows@.len(),
            texts == rows.deep_view(),
            texts == editor.deep_view().lines(catalog.deep_view(), facts.deep_view()),
            want == plan_section(editor.deep_view(), catalog.deep_view(), facts.deep_view()),
            lines.deep_view() == start + want.take(i as int),
        decreases rows@.len() - i,
    {
        let row = &rows[i];
        assert(texts[i as int] == row.deep_view());
        let tone = if row.selected {
            Tone::Chosen
        } else {
            Tone::White
        };
        let span = Span { text: row.text.clone(), tone, bold: row.selected };
        assert(want[i as int] =~= seq![span.deep_view()]);
        put(lines, line1(span));
        assert(lines.deep_view() =~= start + want.take(i + 1));
        i += 1;
    }
    assert(want.take(want.len() as int) =~= want);
}

/// The plan editor, where it is open for the target, or the hint of what opens it.
pub open spec fn plan_or_hint(
    editor: Option<PlanView>,
    target: TargetView,
    c: CatalogView,
    f: FactsView,
) -> Seq<LineView> {
    match editor {
        Some(e) => if e.target == target {
            plan_section(e, c, f)
        } else {
            seq![text_line("[ Enter ] Configure install    [ r ] Refresh checks"@)]
        },
        None => seq![text_line("[ Enter ] Configure install    [ r ] Refresh checks"@)],
    }
}

fn same_target(a: &PlanTarget, b: &PlanTarget) -> (r: bool)
    ensures
        r == (a.deep_view() == b.deep_view()),
{
    match (a, b) {
        (PlanTarget::Package(x), PlanTarget::Package(y)) => same_text(x.as_str(), y.as_str()),
        (PlanTarget::Artifact(x), PlanTarget::Artifact(y)) => same_text(x.as_str(), y.as_str()),
        (PlanTarget::Workflow(x), PlanTarget::Workflow(y)) => same_text(x.as_str(), y.as_str()),
        _ => false,
    }
}

fn put_plan_or_hint(
    lines: &mut Vec<Line>,
    editor: &Option<PlanEditor>,
    target: &PlanTarget,
    catalog: &Catalog,
    facts: &HealthFacts,
)
    ensures
        final(lines).deep_view() == old(lines).deep_view() + plan_or_hint(
            editor.deep_view(),
            target.deep_view(),
            catalog.deep_view(),
            facts.deep_view(),
        ),
{
    let ghost start = lines.deep_view();
    if let Some(e) = editor {
        if same_target(&e.target, target) {
            put_plan(lines, e, catalog, facts);
            return ;
        }
    }
    put(lines, words("[ Enter ] Configure install    [ r ] Refresh checks"));
    assert(lines.deep_view() =~= start + seq![
        text_line("[ Enter ] Configure install    [ r ] Refresh checks"@),
    ]);
}

/// The details of a package.
pub open spec fn model_details_of(
    d: DashView,
    c: CatalogView,
    f: FactsView,
    p: PackageView,
) -> Seq<LineView> {
    seq![
        seq![in_bold(p.name, Tone::Accent)],
        text_line("Family: "@ + p.family),
        text_line(
            "Required artifacts: "@ + decimal(
                p.primary_artifact_ids.len() + p.dependency_artifact_ids.len(),
            ),
        ),
        text_line(
            "Download size: "@ + total_label(
                c,
                p.primary_artifact_ids + p.dependency_artifact_ids,
            ),
        ),
        text_line("Optional groups: "@ + decimal(p.optional_groups.len())),
        text_line(""@),
        text_line(
            match p.description {
                Some(t) => t,
                None => "Enter installs the package and its required dependencies."@,
            },
        ),
        text_line(""@),
    ] + plan_or_hint(d.plan_editor, TargetView::Package(p.id), c, f)
}

/// The details of the selected package.
pub open spec fn selected_model_details(d: DashView, c: CatalogView, f: FactsView) -> Seq<LineView> {
    if d.model_index < c.packages.len() {
        model_details_of(d, c, f, c.packages[d.model_index as int])
    } else {
        Seq::empty()
    }
}

/// The details of the selected package; nothing where none is selected.
pub fn render_model_details(dash: &Dashboard, catalog: &Catalog, facts: &HealthFacts) -> (r: Vec<
    Line,
>)
    ensures
        r.deep_view() == selected_model_details(
            dash.deep_view(),
            catalog.deep_view(),
            facts.deep_view(),
        ),
{
    let mut out = no_lines();
    if dash.model_index >= catalog.packages.len() {
        return out;
    }
    let p = &catalog.packages[dash.model_index];
    let ghost v = p.deep_view();
    assert(catalog.deep_view().packages[dash.model_index as int] == v);
    let ids = chained(&p.primary_artifact_ids, &p.dependency_artifact_ids);
    let required = decimal_text(ids.len() as u64);
    let size = artifact_ids_size(catalog, &ids);
    let groups = decimal_text(p.optional_groups.len() as u64);
    let description: &str = match &p.description {
        Some(t) => t.as_str(),
        None => "Enter installs the package and its required dependencies.",
    };
    put(&mut out, line1(bold(p.name.as_str(), Tone::Accent)));
    put(&mut out, words(cat2("Family: ", p.family.as_str()).as_str()));
    put(&mut out, words(cat2("Required artifacts: ", required.as_str()).as_str()));
    put(&mut out, words(cat2("Download size: ", size.as_str()).as_str()));
    put(&mut out, words(cat2("Optional groups: ", groups.as_str()).as_str()));
    put(&mut out, words(""));
    put(&mut out, words(description));
    put(&mut out, words(""));
    let ghost head = out.deep_view();
    put_plan_or_hint(
        &mut out,
        &dash.plan_editor,
        &PlanTarget::Package(p.id.clone()),
        catalog,
        facts,
    );
    assert(out.deep_view() =~= model_details_of(
        dash.deep_view(),
        catalog.deep_view(),
        facts.deep_view(),
        v,
    ));
    out
}

/// The entry of an artifact or a custom node.
pub open spec fn named_item(health: Health, name: Text) -> LineView {
    seq![badge_of(health), raw(" "@), in_tone(name, Tone::White)]
}

/// The entries of the artifacts of a library section.
pub open spec fn artifact_list_of(c: CatalogView, f: FactsView, section: Section) -> Seq<LineView> {
    library_of(c, section).map_values(|a: ArtifactView| named_item(f.artifact(a.id), a.name))
}

/// The list of the artifacts of the section.
pub fn render_artifact_list(dash: &Dashboard, catalog: &Catalog, facts: &HealthFacts) -> (r: Vec<
    Line,
>)
    ensures
        r.deep_view() == artifact_list_of(catalog.deep_view(), facts.deep_view(), dash.section),
{
    let arts = artifacts_for_section(catalog, dash.section);
    let ghost views = arts.deep_view();
    let ghost f = facts.deep_view();
    let ghost want = views.map_values(|a: ArtifactView| named_item(f.artifact(a.id), a.name));
    let mut out = no_lines();
    let mut i: usize = 0;
    assert(out.deep_view() =~= want.take(0));
    while i < arts.len()
        invariant
            i <= arts@.len(),
            views == arts.deep_view(),
            f == facts.deep_view(),
            want == views.map_values(|a: ArtifactView| named_item(f.artifact(a.id), a.name)),
            out.deep_view() == want.take(i as int),
        decreases arts@.len() - i,
    {
        let a = arts[i];
        assert(views[i as int] == a.deep_view());
        let health = facts.artifact_health(a.id.as_str());
        put(
            &mut out,
            line3(status_badge(health), plain(" "), toned(a.name.as_str(), Tone::White)),
        );
        assert(out.deep_view() =~= want.take(i + 1));
        i += 1;
    }
    assert(want.take(want.len() as int) =~= want);
    out
}

/// The details of an artifact.
pub open spec fn artifact_details_of(
    d: DashView,
    c: CatalogView,
    f: FactsView,
    a: ArtifactView,
) -> Seq<LineView> {
    seq![
        seq![in_bold(a.name, Tone::Accent)],
        text_line("Path: "@ + a.relative_path),
        text_line(
            "Sources: "@ + decimal(
                if a.sources.len() >= 1 {
                    a.sources.len()
                } else {
                    1
                },
            ),
        ),
        text_line(""@),
        text_line(
            match a.description {
                Some(t) => t,
                None => "Enter downloads this artifact."@,
            },
        ),
        text_line(""@),
    ] + plan_or_hint(d.plan_editor, TargetView::Artifact(a.id), c, f)
}

/// The details of the selected artifact of a library section; the last where fewer are listed.
pub open spec fn selected_artifact_details(d: DashView, c: CatalogView, f: FactsView) -> Seq<
    LineView,
> {
    let arts = library_of(c, d.section);
    if arts.len() > 0 {
        artifact_details_of(d, c, f, arts[within(d.artifact_index, arts.len())])
    } else {
        Seq::empty()
    }
}

/// The details of the selected artifact; nothing where the section has none.
pub fn render_artifact_details(dash: &Dashboard, catalog: &Catalog, facts: &HealthFacts) -> (r: Vec<
    Line,
>)
    ensures
        r.deep_view() == selected_artifact_details(
            dash.deep_view(),
            catalog.deep_view(),
            facts.deep_view(),
        ),
{
    let mut out = no_lines();
    let arts = artifacts_for_section(catalog, dash.section);
    if arts.len() == 0 {
        return out;
    }
    let at = if dash.artifact_index < arts.len() {
        dash.artifact_index
    } else {
        arts.len() - 1
    };
    let a = arts[at];
    let ghost v = a.deep_view();
    assert(arts.deep_view()[at as int] == v);
    let n = decimal_text(
        if a.sources.len() >= 1 {
            a.sources.len() as u64
        } else {
            1
        },
    );
    let description: &str = match &a.description {
        Some(t) => t.as_str(),
        None => "Enter downloads this artifact.",
    };
    put(&mut out, line1(bold(a.name.as_str(), Tone::Accent)));
    put(&mut out, words(cat2("Path: ", a.relative_path.as_str()).as_str()));
    put(&mut out, words(cat2("Sources: ", n.as_str()).as_str()));
    put(&mut out, words(""));
    put(&mut out, words(description));
    put(&mut out, words(""));
    put_plan_or_hint(
        &mut out,
        &dash.plan_editor,
        &PlanTarget::Artifact(a.id.clone()),
        catalog,
        facts,
    );
    assert(out.deep_view() =~= artifact_details_of(
        dash.deep_view(),
        catalog.deep_view(),
        facts.deep_view(),
        v,
    ));
    out
}

/// The health of a custom node.
pub open spec fn node_health(f: FactsView, id: Text) -> Health {
    if f.installed_nodes.contains(id) {
        Health::Ready
    } else {
        Health::Missing
    }
}

/// The entries of all custom nodes.
pub open spec fn node_list_of(c: CatalogView, f: FactsView) -> Seq<LineView> {
    c.custom_nodes.map_values(|n: NodeView| named_item(node_health(f, n.id), n.name))
}

/// The list of custom nodes.
pub fn render_node_list(catalog: &Catalog, facts: &HealthFacts) -> (r: Vec<Line>)
    ensures
        r.deep_view() == node_list_of(catalog.deep_view(), facts.deep_view()),
{
    let ghost f = facts.deep_view();
    let ghost nodes = catalog.deep_view().custom_nodes;
    let ghost want = nodes.map_values(|n: NodeView| named_item(node_health(f, n.id), n.name));
    let mut out = no_lines();
    let mut i: usize = 0;
    assert(out.deep_view() =~= want.take(0));
    while i < catalog.custom_nodes.len()
        invariant
            i <= catalog.custom_nodes@.len(),
            f == facts.deep_view(),
            nodes == catalog.deep_view().custom_nodes,
            want == nodes.map_values(|n: NodeView| named_item(node_health(f, n.id), n.name)),
            out.deep_view() == want.take(i as int),
        decreases catalog.custom_nodes@.len() - i,
    {
        let n = &catalog.custom_nodes[i];
        assert(nodes[i as int] == n.deep_view());
        let health = if facts.installed_nodes.contains(n.id.as_str()) {
            Health::Ready
        } else {
            Health::Missing
        };
        put(
            &mut out,
            line3(status_badge(health), plain(" "), toned(n.name.as_str(), Tone::White)),
        );
        assert(out.deep_view() =~= want.take(i + 1));
        i += 1;
    }
    assert(want.take(want.len() as int) =~= want);
    out
}

/// The details of a custom node.
pub open spec fn node_details_of(n: NodeView) -> Seq<LineView> {
    seq![
        seq![in_bold(n.name, Tone::Accent)],
        text_line("Repository: "@ + n.git_url),
        text_line("Folder: "@ + n.folder_name),
        text_line("Aliases: "@ + joined(n.node_types, ", "@)),
        text_line(""@),
        text_line("[ Enter ] Install    [ r ] Refresh checks"@),
    ]
}

/// The details of the selected custom node; the last where fewer are listed.
pub open spec fn selected_node_details(c: CatalogView, index: usize) -> Seq<LineView> {
    if c.custom_nodes.len() > 0 {
        node_details_of(c.custom_nodes[within(index, c.custom_nodes.len())])
    } else {
        Seq::empty()
    }
}

/// The details of the selected custom node; nothing where there is none.
pub fn render_node_details(dash: &Dashboard, catalog: &Catalog) -> (r: Vec<Line>)
    ensures
        r.deep_view() == selected_node_details(catalog.deep_view(), dash.custom_node_index),
{
    let mut out = no_lines();
    if catalog.custom_nodes.len() == 0 {
        return out;
    }
    let at = if dash.custom_node_index < catalog.custom_nodes.len() {
        dash.custom_node_index
    } else {
        catalog.custom_nodes.len() - 1
    };
    let n = &catalog.custom_nodes[at];
    assert(catalog.deep_view().custom_nodes[at as int] == n.deep_view());
    let types = join_texts(&n.node_types, ", ");
    put(&mut out, line1(bold(n.name.as_str(), Tone::Accent)));
    put(&mut out, words(cat2("Repository: ", n.git_url.as_str()).as_str()));
    put(&mut out, words(cat2("Folder: ", n.folder_name.as_str()).as_str()));
    put(&mut out, words(cat2("Aliases: ", types.as_str()).as_str()));
    put(&mut out, words(""));
    put(&mut out, words("[ Enter ] Install    [ r ] Refresh checks"));
    assert(out.deep_view() =~= node_details_of(n.deep_view()));
    out
}

/// The entry of a workflow.
pub open spec fn workflow_item(c: CatalogView, f: FactsView, w: WorkflowView, file: bool) -> LineView {
    seq![
        badge_of(f.workflow(c, w, file)),
        raw(" "@),
        in_tone(w.name, Tone::White),
        in_tone("  "@ + w.id, Tone::Muted),
    ]
}

/// The entries of all workflows, given which of their files are there.
pub open spec fn workflow_list_of(c: CatalogView, f: FactsView, files: Seq<bool>) -> Seq<LineView> {
    Seq::new(c.workflows.len(), |i: int| workflow_item(c, f, c.workflows[i], files[i]))
}

/// The list of workflows; `files` says for each whether its file is there.
pub fn render_workflow_list(catalog: &Catalog, facts: &HealthFacts, files: &Vec<bool>) -> (r: Vec<
    Line,
>)
    requires
        files@.len() == catalog.workflows@.len(),
    ensures
        r.deep_view() == workflow_list_of(catalog.deep_view(), facts.deep_view(), files@),
{
    let ghost c = catalog.deep_view();
    let ghost f = facts.deep_view();
    let ghost want = Seq::new(
        catalog.workflows@.len(),
        |i: int| workflow_item(c, f, c.workflows[i], files@[i]),
    );
    let mut out = no_lines();
    let mut i: usize = 0;
    assert(out.deep_view() =~= want.take(0));
    while i < catalog.workflows.len()
        invariant
            i <= catalog.workflows@.len() == files@.len(),
            c == catalog.deep_view(),
            f == facts.deep_view(),
            want == Seq::new(
                catalog.workflows@.len(),
                |i: int| workflow_item(c, f, c.workflows[i], files@[i]),
            ),
            out.deep_view() == want.take(i as int),
        decreases catalog.workflows@.len() - i,
    {
        let w = &catalog.workflows[i];
        assert(c.workflows[i as int] == w.deep_view());
        let id_text = cat2("  ", w.id.as_str());
        let mut line: Line = Vec::new();
        line.push(status_badge(facts.workflow_health(catalog, w, files[i])));
        line.push(plain(" "));
        line.push(toned(w.name.as_str(), Tone::White));
        line.push(toned(id_text.as_str(), Tone::Muted));
        assert(line.deep_view() =~= want[i as int]);
        put(&mut out, line);
        assert(out.deep_view() =~= want.take(i + 1));
        i += 1;
    }
    assert(out.deep_view() =~= want);
    out
}

/// The details of a workflow.
pub open spec fn workflow_details_of(
    d: DashView,
    c: CatalogView,
    f: FactsView,
    w: WorkflowView,
) -> Seq<LineView> {
    seq![
        seq![in_bold(w.name, Tone::Accent)],
        text_line("File: "@ + w.file),
        text_line("Models: "@ + decimal(w.artifact_ids.len())),
        text_line("Download size: "@ + total_label(c, w.artifact_ids)),
        text_line("Custom nodes: "@ + decimal(w.custom_node_ids.len())),
        text_line(""@),
        text_line(
            "Enter installs the workflow, models, VAEs, text encoders, LoRAs, and custom nodes."@,
        ),
        text_line(""@),
    ] + plan_or_hint(d.plan_editor, TargetView::Workflow(w.id), c, f)
}

/// The details of the selected workflow.
pub open spec fn selected_workflow_details(d: DashView, c: CatalogView, f: FactsView) -> Seq<
    LineView,
> {
    if d.workflow_index < c.workflows.len() {
        workflow_details_of(d, c, f, c.workflows[d.workflow_index as int])
    } else {
        Seq::empty()
    }
}

/// The details of the selected workflow; nothing where none is selected.
pub fn render_workflow_details(dash: &Dashboard, catalog: &Catalog, facts: &HealthFacts) -> (r: Vec<
    Line,
>)
    ensures
        r.deep_view() == selected_workflow_details(
            dash.deep_view(),
            catalog.deep_view(),
            facts.deep_view(),
        ),
{
    let mut out = no_lines();
    if dash.workflow_index >= catalog.workflows.len() {
        return out;
    }
    let w = &catalog.workflows[dash.workflow_index];
    let ghost v = w.deep_view();
    assert(catalog.deep_view().workflows[dash.workflow_index as int] == v);
    let models = decimal_text(w.artifact_ids.len() as u64);
    let size = artifact_ids_size(catalog, &w.artifact_ids);
    let nodes = decimal_text(w.custom_node_ids.len() as u64);
    put(&mut out, line1(bold(w.name.as_str(), Tone::Accent)));
    put(&mut out, words(cat2("File: ", w.file.as_str()).as_str()));
    put(&mut out, words(cat2("Models: ", models.as_str()).as_str()));
    put(&mut out, words(cat2("Download size: ", size.as_str()).as_str()));
    put(&mut out, words(cat2("Custom nodes: ", nodes.as_str()).as_str()));
    put(&mut out, words(""));
    put(
        &mut out,
        words("Enter installs the workflow, models, VAEs, text encoders, LoRAs, and custom nodes."),
    );
    put(&mut out, words(""));
    put_plan_or_hint(
        &mut out,
        &dash.plan_editor,
        &PlanTarget::Workflow(w.id.clone()),
        catalog,
        facts,
    );
    assert(out.deep_view() =~= workflow_details_of(
        dash.deep_view(),
        catalog.deep_view(),
        facts.deep_view(),
        v,
    ));
    out
}

/// How far a job is: the percentage as it is written, and the bytes.
pub open spec fn progress_of(job: SnapshotView, percent: Text, between: Text) -> Text {
    match job.total_bytes {
        Some(total) => percent + between + human_size(job.downloaded_bytes as nat) + " / "@
            + human_size(total as nat),
        None => human_size(job.downloaded_bytes as nat),
    }
}

fn progress_text(job: &JobSnapshot, percent: &str, between: &str) -> (r: String)
    ensures
        r@ == progress_of(job.deep_view(), percent@, between@),
{
    let done = format_human_size(job.downloaded_bytes);
    match job.total_bytes {
        Some(total) => {
            let all = format_human_size(total);
            cat5(percent, between, done.as_str(), " / ", all.as_str())
        },
        None => done,
    }
}

/// The entry of a job.
pub open spec fn job_item_of(job: SnapshotView, percent: Text) -> LineView {
    seq![
        job_badge_of(job.status),
        raw(" "@),
        in_tone(job.name, Tone::White),
        in_tone("  "@ + progress_of(job, percent, "%  "@), Tone::Muted),
    ]
}

/// The entry of a job; `percent` is its progress in percent, as it is written.
pub fn render_job_item(job: &JobSnapshot, percent: &str) -> (r: Line)
    ensures
        r.deep_view() == job_item_of(job.deep_view(), percent@),
{
    let progress = progress_text(job, percent, "%  ");
    let text = cat2("  ", progress.as_str());
    let mut r: Line = Vec::new();
    r.push(job_badge(job.status));
    r.push(plain(" "));
    r.push(toned(job.name.as_str(), Tone::White));
    r.push(toned(text.as_str(), Tone::Muted));
    assert(r.deep_view() =~= job_item_of(job.deep_view(), percent@));
    r
}

/// A time left, in minutes and seconds.
pub open spec fn eta_words(seconds: Option<u64>) -> Text {
    match seconds {
        Some(s) => decimal(s as nat / 60) + "m "@ + two_digits(s as nat % 60) + "s"@,
        None => "—"@,
    }
}

fn eta_text(seconds: Option<u64>) -> (r: String)
    ensures
        r@ == eta_words(seconds),
{
    match seconds {
        Some(s) => {
            let m = decimal_text(s / 60);
            let t = two_digit_text(s % 60);
            cat4(m.as_str(), "m ", t.as_str(), "s")
        },
        None => "—".to_owned(),
    }
}

/// The details of a job.
pub open spec fn job_details_of(
    job: SnapshotView,
    percent: Text,
    bytes_per_second: u64,
    eta: Option<u64>,
) -> Seq<LineView> {
    seq![
        seq![in_bold(job.name, Tone::Accent)],
        text_line("State: "@ + job.status.words()),
        text_line("Progress: "@ + progress_of(job, percent, "% · "@)),
        text_line("Speed: "@ + human_size(bytes_per_second as nat) + "/s"@),
        text_line("ETA: "@ + eta_words(eta)),
        text_line("Target: "@ + job.relative_path),
        text_line(
            "Source: "@ + match job.endpoint {
                Some(e) => e,
                None => "https://huggingface.co"@,
            },
        ),
        text_line("ID: "@ + job.artifact_id),
        text_line(""@),
        text_line("x pauses; c continues a paused job; r retries a failed job."@),
        text_line("Enter focuses this view; b returns the transfer to the background."@),
    ] + match job.error {
        Some(e) => seq![seq![in_tone("Error: "@ + e, Tone::Red)]],
        None => Seq::empty(),
    }
}

/// The details of a job; its progress in percent, its speed and the time left are given.
pub fn job_details(job: &JobSnapshot, percent: &str, bytes_per_second: u64, eta: Option<u64>) -> (r:
    Vec<Line>)
    ensures
        r.deep_view() == job_details_of(job.deep_view(), percent@, bytes_per_second, eta),
{
    let progress = progress_text(job, percent, "% · ");
    let speed = format_human_size(bytes_per_second);
    let left = eta_text(eta);
    let source: &str = match &job.endpoint {
        Some(e) => e.as_str(),
        None => "https://huggingface.co",
    };
    let mut out = no_lines();
    put(&mut out, line1(bold(job.name.as_str(), Tone::Accent)));
    put(&mut out, words(cat2("State: ", job.status.label()).as_str()));
    put(&mut out, words(cat2("Progress: ", progress.as_str()).as_str()));
    put(&mut out, words(cat3("Speed: ", speed.as_str(), "/s").as_str()));
    put(&mut out, words(cat2("ETA: ", left.as_str()).as_str()));
    put(&mut out, words(cat2("Target: ", job.relative_path.as_str()).as_str()));
    put(&mut out, words(cat2("Source: ", source).as_str()));
    put(&mut out, words(cat2("ID: ", job.artifact_id.as_str()).as_str()));
    put(&mut out, words(""));
    put(&mut out, words("x pauses; c continues a paused job; r retries a failed job."));
    put(&mut out, words("Enter focuses this view; b returns the transfer to the background."));
    if let Some(e) = &job.error {
        let text = cat2("Error: ", e.as_str());
        put(&mut out, line1(toned(text.as_str(), Tone::Red)));
    }
    assert(out.deep_view() =~= job_details_of(job.deep_view(), percent@, bytes_per_second, eta));
    out
}

/// The last `n` of the first `end` lines that hold `mark`.
pub open spec fn marked_tail(logs: Seq<Text>, mark: Text, n: int, end: int) -> Seq<Text>
    decreases end,
{
    if end <= 0 || n <= 0 {
        Seq::empty()
    } else if contains_text(logs[end - 1], mark) {
        marked_tail(logs, mark, n - 1, end - 1).push(logs[end - 1])
    } else {
        marked_tail(logs, mark, n, end - 1)
    }
}

fn marked_lines(logs: &Vec<String>, mark: &str, n: usize, end: usize) -> (r: Vec<String>)
    requires
        end <= logs@.len(),
    ensures
        r.deep_view() == marked_tail(logs.deep_view(), mark@, n as int, end as int),
    decreases end,
{
    if end == 0 || n == 0 {
        let out: Vec<String> = Vec::new();
        assert(out.deep_view() =~= Seq::empty());
        return out;
    }
    assert(logs.deep_view()[end - 1] == logs@[end - 1]@);
    if contains(logs[end - 1].as_str(), mark) {
        let mut out = marked_lines(logs, mark, n - 1, end - 1);
        let ghost before = out.deep_view();
        out.push(logs[end - 1].clone());
        assert(out.deep_view() =~= before.push(logs@[end - 1]@));
        out
    } else {
        marked_lines(logs, mark, n, end - 1)
    }
}

/// How much of the output of pip is shown beside its job.
pub const OUTPUT_LINES: usize = 8;

/// The details of a job in a window of their own: those of the Python dependencies with the end of
/// the output of pip.
pub open spec fn focused_of(
    job: Option<SnapshotView>,
    details: Seq<LineView>,
    logs: Seq<Text>,
) -> Seq<LineView> {
    match job {
        None => seq![text_line("No download selected."@)],
        Some(j) => if j.artifact_id == "python-dependencies"@ {
            details + seq![
                text_line(""@),
                seq![in_bold("Live process output"@, Tone::Accent)],
            ] + marked_tail(
                logs,
                "[PYTHON]"@,
                OUTPUT_LINES as int,
                logs.len() as int,
            ).map_values(|t: Text| text_line(t))
        } else {
            details
        },
    }
}

/// The view of an optional reference.
pub open spec fn job_view(job: Option<&JobSnapshot>) -> Option<SnapshotView> {
    match job {
        Some(j) => Some(j.deep_view()),
        None => None,
    }
}

/// The details of a job in a window of their own.
pub fn render_download_window(job: Option<&JobSnapshot>, details: Vec<Line>, logs: &Vec<String>) -> (r:
    Vec<Line>)
    ensures
        r.deep_view() == focused_of(job_view(job), details.deep_view(), logs.deep_view()),
{
    match job {
        None => {
            let mut out = no_lines();
            put(&mut out, words("No download selected."));
            assert(out.deep_view() =~= seq![text_line("No download selected."@)]);
            out
        },
        Some(j) => {
            let mut out = details;
            let ghost start = out.deep_view();
            if same_text(j.artifact_id.as_str(), "python-dependencies") {
                put(&mut out, words(""));
                put(&mut out, line1(bold("Live process output", Tone::Accent)));
                let ghost head = start + seq![
                    text_line(""@),
                    seq![in_bold("Live process output"@, Tone::Accent)],
                ];
                assert(out.deep_view() =~= head);
                let tail = marked_lines(logs, "[PYTHON]", OUTPUT_LINES, logs.len());
                let ghost texts = tail.deep_view();
                let ghost want = texts.map_values(|t: Text| text_line(t));
                let mut i: usize = 0;
                assert(head =~= head + want.take(0));
                while i < tail.len()
                    invariant
                        i <= tail@.len(),
                        texts == tail.deep_view(),
                        want == texts.map_values(|t: Text| text_line(t)),
                        out.deep_view() == head + want.take(i as int),
                    decreases tail@.len() - i,
                {
                    put(&mut out, words(tail[i].as_str()));
                    assert(out.deep_view() =~= head + want.take(i + 1));
                    i += 1;
                }
                assert(want.take(want.len() as int) =~= want);
            }
            out
        },
    }
}

/// The last lines of the log that a card of `height` rows has room for.
pub open spec fn log_lines(logs: Seq<Text>, height: u16) -> Seq<LineView> {
    let room: int = if height >= 2 {
        height - 2
    } else {
        0
    };
    crate::queue::last_of(logs, room).map_values(|t: Text| text_line(t))
}

/// The lines of the log that are shown in an area of `height` rows: the last that fit.
pub fn render_logs(logs: &Vec<String>, height: u16) -> (r: Vec<Line>)
    ensures
        r.deep_view() == log_lines(logs.deep_view(), height),
{
    let room: usize = if height >= 2 {
        (height - 2) as usize
    } else {
        0
    };
    let from: usize = if logs.len() <= room {
        0
    } else {
        logs.len() - room
    };
    let ghost shown = crate::queue::last_of(logs.deep_view(), room as int);
    let ghost want = shown.map_values(|t: Text| text_line(t));
    assert(shown =~= logs.deep_view().skip(from as int));
    let mut out = no_lines();
    let mut i: usize = from;
    assert(out.deep_view() =~= want.take(0));
    while i < logs.len()
        invariant
            from <= i <= logs@.len(),
            shown == logs.deep_view().skip(from as int),
            want == shown.map_values(|t: Text| text_line(t)),
            out.deep_view() == want.take(i - from),
        decreases logs@.len() - i,
    {
        assert(shown[i - from] == logs@[i as int]@);
        put(&mut out, words(logs[i].as_str()));
        assert(out.deep_view() =~= want.take(i - from + 1));
        i += 1;
    }
    assert(want.take(want.len() as int) =~= want);
    out
}

/// A size in MiB, without decimal places.
pub open spec fn mib_words(bytes: u64) -> Text {
    decimal(nearest_even(as_double(bytes as nat), MIB as nat)) + " MiB"@
}

fn mib_text(bytes: u64) -> (r: String)
    ensures
        r@ == mib_words(bytes),
{
    let n: u128 = round_even(nearest_double(bytes), MIB as u128);
    let text = decimal_text(n as u64);
    cat2(text.as_str(), " MiB")
}

/// The name of a Python package index.
pub open spec fn index_name(url: Text) -> Text {
    if contains_text(url, "mirrors.aliyun.com"@) {
        "China mirror (Alibaba Cloud)"@
    } else if contains_text(url, "pypi.tuna.tsinghua.edu.cn"@) {
        "China mirror (Tsinghua)"@
    } else {
        "Official PyPI"@
    }
}

fn index_label(url: &str) -> (r: &'static str)
    ensures
        r@ == index_name(url@),
{
    if contains(url, "mirrors.aliyun.com") {
        "China mirror (Alibaba Cloud)"
    } else if contains(url, "pypi.tuna.tsinghua.edu.cn") {
        "China mirror (Tsinghua)"
    } else {
        "Official PyPI"
    }
}

/// How many of the jobs are downloading.
pub open spec fn downloading_count(jobs: Seq<SnapshotView>) -> nat
    decreases jobs.len(),
{
    if jobs.len() == 0 {
        0
    } else {
        downloading_count(jobs.drop_last()) + if jobs.last().status == JobStatus::Downloading {
            1nat
        } else {
            0nat
        }
    }
}

fn count_downloading(jobs: &Vec<JobSnapshot>) -> (r: usize)
    ensures
        r == downloading_count(jobs.deep_view()),
{
    let ghost all = jobs.deep_view();
    let mut n: usize = 0;
    let mut i: usize = 0;
    assert(all.take(0) =~= Seq::empty());
    while i < jobs.len()
        invariant
            i <= jobs@.len(),
            n <= i,
            all == jobs.deep_view(),
            n == downloading_count(all.take(i as int)),
        decreases jobs@.len() - i,
    {
        proof {
            assert(all[i as int] == jobs@[i as int].deep_view());
            assert(all.take(i + 1).drop_last() =~= all.take(i as int));
        }
        if jobs[i].status == JobStatus::Downloading {
            n += 1;
        }
        i += 1;
    }
    assert(all.take(all.len() as int) =~= all);
    n
}

/// The settings.
pub open spec fn settings_of(cfg: ConfigView, jobs: Seq<SnapshotView>) -> Seq<LineView> {
    seq![
        seq![
            label_span("Files"@),
            in_bold(decimal(cfg.max_concurrent_downloads as nat), Tone::Accent),
            raw("  −/+ change"@),
        ],
        seq![
            label_span("Chunks/file"@),
            in_bold(decimal(cfg.download_parallelism as nat), Tone::Accent),
            raw("  [/ ] change"@),
        ],
        seq![label_span("Chunk size"@), raw(mib_words(cfg.chunk_size_bytes))],
        seq![label_span("Active now"@), raw(decimal(downloading_count(jobs)))],
        seq![
            label_span("Python index"@),
            in_bold(index_name(cfg.pypi_index_url), Tone::Accent),
            raw("  y change"@),
        ],
        text_line(""@),
        text_line("Increasing the file limit starts queued downloads immediately."@),
        text_line(
            "Lowering it never kills active transfers; they finish, and new jobs wait until the active count is below the new limit."@,
        ),
        text_line("Settings are saved for future runs."@),
    ]
}

/// The settings.
pub fn render_settings(cfg: &AppConfig, jobs: &Vec<JobSnapshot>) -> (r: Vec<Line>)
    ensures
        r.deep_view() == settings_of(cfg.deep_view(), jobs.deep_view()),
{
    let files = decimal_text(cfg.max_concurrent_downloads as u64);
    let chunks = decimal_text(cfg.download_parallelism as u64);
    let size = mib_text(cfg.chunk_size_bytes);
    let active = decimal_text(count_downloading(jobs) as u64);
    let mut out = no_lines();
    put(
        &mut out,
        line3(label("Files"), bold(files.as_str(), Tone::Accent), plain("  −/+ change")),
    );
    put(
        &mut out,
        line3(label("Chunks/file"), bold(chunks.as_str(), Tone::Accent), plain("  [/ ] change")),
    );
    put(&mut out, line2(label("Chunk size"), plain(size.as_str())));
    put(&mut out, line2(label("Active now"), plain(active.as_str())));
    put(
        &mut out,
        line3(
            label("Python index"),
            bold(index_label(cfg.pypi_index_url.as_str()), Tone::Accent),
            plain("  y change"),
        ),
    );
    put(&mut out, words(""));
    put(&mut out, words("Increasing the file limit starts queued downloads immediately."));
    put(
        &mut out,
        words(
            "Lowering it never kills active transfers; they finish, and new jobs wait until the active count is below the new limit.",
        ),
    );
    put(&mut out, words("Settings are saved for future runs."));
    assert(out.deep_view() =~= settings_of(cfg.deep_view(), jobs.deep_view()));
    out
}

/// What the System section shows of the state of the installation.
pub struct SystemFacts {
    pub root_valid: bool,
    pub running: bool,
    pub packages: usize,
    pub workflows: usize,
    pub log: Option<String>,
}

/// The words for a thing that is there or not.
pub open spec fn yes_no(value: bool, yes: Text, no: Text) -> SpanView {
    state_span_of(
        if value {
            yes
        } else {
            no
        },
        value,
    )
}

fn yes_or_no(value: bool, yes: &str, no: &str) -> (r: Span)
    ensures
        r.deep_view() == yes_no(value, yes@, no@),
{
    state_span(
        if value {
            yes
        } else {
            no
        },
        value,
    )
}

/// The first lines of the System section.
pub open spec fn system_head(f: SystemFacts, s: SystemSnapshot, cfg: ConfigView) -> Seq<LineView> {
    seq![
        seq![label_span("ComfyUI"@), yes_no(f.root_valid, "configured"@, "not configured"@)],
        seq![label_span("Server"@), yes_no(f.running, "running"@, "stopped"@)],
        seq![label_span("Git"@), yes_no(s.git, "available"@, "missing"@)],
        seq![label_span("Python"@), yes_no(s.python is Some, "available"@, "missing"@)],
        seq![
            label_span("Py deps"@),
            yes_no(s.python_dependencies_ready, "ready"@, "not installed"@),
        ],
        seq![label_span("HF_TOKEN"@), state_span_of(s.token_status@, s.has_token)],
        seq![
            label_span("Free disk"@),
            raw(
                match s.disk {
                    Some(n) => gib(n) + " GiB"@,
                    None => "unknown"@,
                },
            ),
        ],
        seq![label_span("Parallelism"@), raw(decimal(cfg.download_parallelism as nat))],
        seq![label_span("Chunk size"@), raw(mib_words(cfg.chunk_size_bytes))],
        seq![
            label_span("State records"@),
            raw(
                decimal(f.packages as nat) + " packages / "@ + decimal(f.workflows as nat)
                    + " workflows"@,
            ),
        ],
        seq![
            label_span("Log"@),
            raw(
                match f.log {
                    Some(l) => l@,
                    None => "not created"@,
                },
            ),
        ],
    ]
}

fn render_system_head(facts: &SystemFacts, system: &SystemSnapshot, cfg: &AppConfig) -> (r: Vec<
    Line,
>)
    ensures
        r.deep_view() == system_head(*facts, *system, cfg.deep_view()),
{
    let disk = match system.disk {
        Some(n) => {
            let g = gib_text(n);
            cat2(g.as_str(), " GiB")
        },
        None => "unknown".to_owned(),
    };
    let parallelism = decimal_text(cfg.download_parallelism as u64);
    let size = mib_text(cfg.chunk_size_bytes);
    let packages = decimal_text(facts.packages as u64);
    let workflows = decimal_text(facts.workflows as u64);
    let records = cat4(packages.as_str(), " packages / ", workflows.as_str(), " workflows");
    let log: &str = match &facts.log {
        Some(l) => l.as_str(),
        None => "not created",
    };
    let mut out = no_lines();
    put(
        &mut out,
        line2(label("ComfyUI"), yes_or_no(facts.root_valid, "configured", "not configured")),
    );
    put(&mut out, line2(label("Server"), yes_or_no(facts.running, "running", "stopped")));
    put(&mut out, line2(label("Git"), yes_or_no(system.git, "available", "missing")));
    put(
        &mut out,
        line2(label("Python"), yes_or_no(system.python.is_some(), "available", "missing")),
    );
    put(
        &mut out,
        line2(
            label("Py deps"),
            yes_or_no(system.python_dependencies_ready, "ready", "not installed"),
        ),
    );
    put(
        &mut out,
        line2(label("HF_TOKEN"), state_span(system.token_status.as_str(), system.has_token)),
    );
    put(&mut out, line2(label("Free disk"), plain(disk.as_str())));
    put(&mut out, line2(label("Parallelism"), plain(parallelism.as_str())));
    put(&mut out, line2(label("Chunk size"), plain(size.as_str())));
    put(&mut out, line2(label("State records"), plain(records.as_str())));
    put(&mut out, line2(label("Log"), plain(log)));
    assert(out.deep_view() =~~= system_head(*facts, *system, cfg.deep_view()));
    out
}

/// The lines of one system dependency.
pub open spec fn dependency_lines(d: SystemDependencyView, ready: bool) -> Seq<LineView> {
    seq![
        seq![
            label_span(d.package),
            yes_no(ready, "available"@, "missing"@),
            in_tone("  "@ + joined(d.required_by, ", "@), Tone::Muted),
        ],
    ] + if ready {
        Seq::empty()
    } else {
        seq![seq![in_tone("  install: "@ + d.install, Tone::Muted)]]
    }
}

/// The lines of the first `end` system dependencies.
pub open spec fn dependencies_lines(
    d: Seq<SystemDependencyView>,
    status: Seq<(String, bool)>,
    end: int,
) -> Seq<LineView>
    decreases end,
{
    if end <= 0 {
        Seq::empty()
    } else {
        dependencies_lines(d, status, end - 1) + dependency_lines(d[end - 1], status[end - 1].1)
    }
}

/// The lines of the system dependencies.
pub open spec fn system_dependencies_of(
    d: Seq<SystemDependencyView>,
    status: Seq<(String, bool)>,
) -> Seq<LineView> {
    if d.len() == 0 {
        Seq::empty()
    } else {
        seq![
            text_line(""@),
            seq![in_bold("Manifest system dependencies"@, Tone::Accent)],
        ] + dependencies_lines(
            d,
            status,
            if d.len() <= status.len() {
                d.len() as int
            } else {
                status.len() as int
            },
        )
    }
}

fn put_dependencies(
    lines: &mut Vec<Line>,
    d: &Vec<SystemDependency>,
    status: &Vec<(String, bool)>,
)
    ensures
        final(lines).deep_view() == old(lines).deep_view() + system_dependencies_of(
            d.deep_view(),
            status@,
        ),
{
    let ghost start = lines.deep_view();
    let ghost views = d.deep_view();
    if d.len() == 0 {
        assert(lines.deep_view() =~= start + system_dependencies_of(views, status@));
        return ;
    }
    put(lines, words(""));
    put(lines, line1(bold("Manifest system dependencies", Tone::Accent)));
    let ghost head = start + seq![
        text_line(""@),
        seq![in_bold("Manifest system dependencies"@, Tone::Accent)],
    ];
    assert(lines.deep_view() =~= head);
    let n: usize = if d.len() <= status.len() {
        d.len()
    } else {
        status.len()
    };
    let mut i: usize = 0;
    assert(head =~= head + dependencies_lines(views, status@, 0));
    while i < n
        invariant
            i <= n,
            n <= d@.len(),
            n <= status@.len(),
            views == d.deep_view(),
            lines.deep_view() == head + dependencies_lines(views, status@, i as int),
        decreases n - i,
    {
        let ghost before = lines.deep_view();
        let dependency = &d[i];
        assert(views[i as int] == dependency.deep_view());
        let ready = status[i].1;
        let by = join_texts(&dependency.required_by, ", ");
        let by_text = cat2("  ", by.as_str());
        put(
            lines,
            line3(
                label(dependency.package.as_str()),
                yes_or_no(ready, "available", "missing"),
                toned(by_text.as_str(), Tone::Muted),
            ),
        );
        if !ready {
            let text = cat2("  install: ", dependency.install.as_str());
            put(lines, line1(toned(text.as_str(), Tone::Muted)));
        }
        assert(lines.deep_view() =~= before + dependency_lines(views[i as int], ready));
        assert(lines.deep_view() =~= head + dependencies_lines(views, status@, i + 1));
        i += 1;
    }
    assert(lines.deep_view() =~= start + system_dependencies_of(views, status@));
}

/// The lines of the policy for Python dependencies.
pub open spec fn policy_of(policy: Option<JsonView>) -> Seq<LineView> {
    match policy {
        None => Seq::empty(),
        Some(p) => seq![
            text_line(""@),
            seq![in_bold("Manifest Python dependency policy"@, Tone::Accent)],
        ] + (match text_in(member(p, "environment"@)) {
            Some(e) => seq![seq![label_span("Environment"@), raw(e)]],
            None => Seq::empty(),
        }) + (match text_in(member(p, "custom_node_requirements"@)) {
            Some(t) => seq![seq![in_tone(t, Tone::Muted)]],
            None => Seq::empty(),
        }),
    }
}

fn put_policy(lines: &mut Vec<Line>, policy: &Option<Json>)
    ensures
        final(lines).deep_view() == old(lines).deep_view() + policy_of(
            crate::json::opt_json_view(*policy),
        ),
{
    let ghost start = lines.deep_view();
    if let Some(p) = policy {
        put(lines, words(""));
        put(lines, line1(bold("Manifest Python dependency policy", Tone::Accent)));
        if let Some(value) = p.get("environment") {
            if let Some(e) = value.as_str() {
                put(lines, line2(label("Environment"), plain(e.as_str())));
            }
        }
        if let Some(value) = p.get("custom_node_requirements") {
            if let Some(t) = value.as_str() {
                put(lines, line1(toned(t.as_str(), Tone::Muted)));
            }
        }
    }
    assert(lines.deep_view() =~= start + policy_of(crate::json::opt_json_view(*policy)));
}

/// The System section.
pub open spec fn system_of(
    f: SystemFacts,
    s: SystemSnapshot,
    cfg: ConfigView,
    c: CatalogView,
) -> Seq<LineView> {
    system_head(f, s, cfg) + system_dependencies_of(
        c.system_dependencies,
        s.dependency_status@,
    ) + policy_of(c.python_dependencies) + if c.system_dependencies.len() == 0 {
        Seq::empty()
    } else {
        seq![
            text_line(""@),
            seq![in_bold("[ Enter ] Install missing system dependencies"@, Tone::Chosen)],
        ]
    }
}

/// The System section.
pub fn render_system(
    facts: &SystemFacts,
    system: &SystemSnapshot,
    cfg: &AppConfig,
    catalog: &Catalog,
) -> (r: Vec<Line>)
    ensures
        r.deep_view() == system_of(*facts, *system, cfg.deep_view(), catalog.deep_view()),
{
    let mut out = render_system_head(facts, system, cfg);
    put_dependencies(&mut out, &catalog.system_dependencies, &system.dependency_status);
    put_policy(&mut out, &catalog.python_dependencies);
    let ghost before = out.deep_view();
    if catalog.system_dependencies.len() > 0 {
        put(&mut out, words(""));
        put(
            &mut out,
            line1(bold("[ Enter ] Install missing system dependencies", Tone::Chosen)),
        );
    }
    assert(out.deep_view() =~= system_of(*facts, *system, cfg.deep_view(), catalog.deep_view()));
    out
}

/// The section lists things that Enter installs.
pub open spec fn lists_installables(section: Section) -> bool {
    section == Section::Models || section.is_library() || section == Section::CustomNodes || section
        == Section::Workflows
}

/// The hints of the keys.
pub open spec fn footer_of(editing: bool, section: Section, width: u16) -> Text {
    if editing {
        " ↑/↓ choose  Enter expand/select source  Space enable/disable dep  Esc back  OK download "@
    } else if width < WIDE {
        if lists_installables(section) {
            " ←/→ tabs  ↑/↓ select  Enter install  s server  t token  r refresh  q quit "@
        } else if section == Section::Downloads {
            " ←/→ tabs  ↑/↓ select  Enter watch  x pause  c continue  r retry  q quit "@
        } else if section == Section::Settings {
            " ←/→ tabs  −/+ files  [/] chunks  y PyPI  q quit "@
        } else if section == Section::System {
            " ←/→ tabs  Enter install system deps  q quit "@
        } else {
            " ←/→ tabs  s server  l locate  i install  t token  r refresh  q quit "@
        }
    } else {
        " ←/→ tabs  ↑/↓ select "@ + (if lists_installables(section) {
            " Enter install  r refresh checks "@
        } else if section == Section::Downloads {
            " Enter watch  x pause  c continue  r retry  b background "@
        } else if section == Section::Settings {
            " −/+ files  [/] chunks  y PyPI source "@
        } else if section == Section::System {
            " Enter install system deps "@
        } else {
            ""@
        })
            + " s start/stop  l locate  i install ComfyUI  p Python deps  t token  r refresh  q quit "@
    }
}

fn section_lists_installables(section: Section) -> (r: bool)
    ensures
        r == lists_installables(section),
{
    match section {
        Section::Models => true,
        Section::Loras => true,
        Section::Vaes => true,
        Section::TextEncoders => true,
        Section::Upscalers => true,
        Section::RuntimeModels => true,
        Section::CustomNodes => true,
        Section::Workflows => true,
        _ => false,
    }
}

/// The hints of the keys.
pub fn render_footer(dash: &Dashboard, width: u16) -> (r: String)
    ensures
        r@ == footer_of(dash.plan_editor is Some, dash.section, width),
{
    if dash.plan_editor.is_some() {
        return " ↑/↓ choose  Enter expand/select source  Space enable/disable dep  Esc back  OK download ".to_owned();
    }
    let installs = section_lists_installables(dash.section);
    if width < WIDE {
        let text = if installs {
            " ←/→ tabs  ↑/↓ select  Enter install  s server  t token  r refresh  q quit "
        } else if dash.section == Section::Downloads {
            " ←/→ tabs  ↑/↓ select  Enter watch  x pause  c continue  r retry  q quit "
        } else if dash.section == Section::Settings {
            " ←/→ tabs  −/+ files  [/] chunks  y PyPI  q quit "
        } else if dash.section == Section::System {
            " ←/→ tabs  Enter install system deps  q quit "
        } else {
            " ←/→ tabs  s server  l locate  i install  t token  r refresh  q quit "
        };
        return text.to_owned();
    }
    let hint = if installs {
        " Enter install  r refresh checks "
    } else if dash.section == Section::Downloads {
        " Enter watch  x pause  c continue  r retry  b background "
    } else if dash.section == Section::Settings {
        " −/+ files  [/] chunks  y PyPI source "
    } else if dash.section == Section::System {
        " Enter install system deps "
    } else {
        ""
    };
    cat3(
        " ←/→ tabs  ↑/↓ select ",
        hint,
        " s start/stop  l locate  i install ComfyUI  p Python deps  t token  r refresh  q quit ",
    )
}

}
