//! Workflow files: which models and custom nodes they ask for.
use crate::catalog::{Artifact, ArtifactView, Catalog, CatalogView, CustomNode, NodeView};
use crate::ids::IdSet;
use crate::json::{
    items_in, json_items, json_text_value, json_view, member, parse_json, text_in, Json, JsonView,
};
use crate::paths::{file_name, file_name_of};
use crate::text::{
    after_last, byte_len, byte_length, cat2, contains_char, ends_with, has_suffix, has_text,
    lower_text, replace_chars, replaced, same_text, tail_after, to_lower, Text,
};
use vstd::prelude::*;
use vstd::string::*;

verus! {

/// What a workflow asks for.
pub struct WorkflowInspection {
    pub artifact_ids: IdSet,
    pub custom_node_ids: IdSet,
    pub unresolved_model_filenames: IdSet,
    pub node_types: IdSet,
}

/// What a [`WorkflowInspection`] holds.
pub struct InspectionView {
    pub artifact_ids: Set<Text>,
    pub custom_node_ids: Set<Text>,
    pub unresolved_model_filenames: Set<Text>,
    pub node_types: Set<Text>,
}

impl DeepView for WorkflowInspection {
    type V = InspectionView;

    open spec fn deep_view(&self) -> InspectionView {
        InspectionView {
            artifact_ids: self.artifact_ids@,
            custom_node_ids: self.custom_node_ids@,
            unresolved_model_filenames: self.unresolved_model_filenames@,
            node_types: self.node_types@,
        }
    }
}

/// The texts in `v`, those in its elements and members too, in order.
pub open spec fn strings_of(v: JsonView) -> Seq<Text>
    decreases v, 0int,
{
    match v {
        JsonView::Text(s) => seq![s],
        JsonView::Array(xs) => strings_from(xs, 0),
        JsonView::Object(ms) => member_strings_from(ms, 0),
        _ => Seq::empty(),
    }
}

/// The texts in the elements from `at` on.
pub open spec fn strings_from(xs: Seq<JsonView>, at: int) -> Seq<Text>
    decreases xs, xs.len() - at,
{
    if at < 0 || at >= xs.len() {
        Seq::empty()
    } else {
        strings_of(xs[at]) + strings_from(xs, at + 1)
    }
}

/// The texts in the values of the members from `at` on.
pub open spec fn member_strings_from(ms: Seq<(Text, JsonView)>, at: int) -> Seq<Text>
    decreases ms, ms.len() - at,
{
    if at < 0 || at >= ms.len() {
        Seq::empty()
    } else {
        strings_of(ms[at].1) + member_strings_from(ms, at + 1)
    }
}

fn collect_strings(v: &Json, out: &mut Vec<String>)
    ensures
        final(out).deep_view() == old(out).deep_view() + strings_of(json_view(*v)),
    decreases *v,
{
    let ghost start = out.deep_view();
    let ghost all = strings_of(json_view(*v));
    match v {
        Json::Text(s) => {
            out.push(s.clone());
            assert(out.deep_view() =~= start + seq![s@]);
        },
        Json::Array(xs) => {
            let ghost views = json_view(*v)->Array_0;
            let mut i: usize = 0;
            assert(start + all =~= out.deep_view() + strings_from(views, 0));
            while i < xs.len()
                invariant
                    i <= xs@.len(),
                    *v == Json::Array(*xs),
                    json_view(*v) == JsonView::Array(views),
                    views.len() == xs@.len(),
                    start + all == out.deep_view() + strings_from(views, i as int),
                decreases xs@.len() - i,
            {
                let ghost before = out.deep_view();
                assert(decreases_to!(*v => v->Array_0));
                assert(decreases_to!(*xs => xs@[i as int]));
                collect_strings(&xs[i], out);
                assert(views[i as int] == json_view(xs@[i as int]));
                assert(start + all =~= out.deep_view() + strings_from(views, i + 1));
                i += 1;
            }
            assert(out.deep_view() =~= start + all);
        },
        Json::Object(ms) => {
            let ghost views = json_view(*v)->Object_0;
            let mut i: usize = 0;
            assert(start + all =~= out.deep_view() + member_strings_from(views, 0));
            while i < ms.len()
                invariant
                    i <= ms@.len(),
                    *v == Json::Object(*ms),
                    json_view(*v) == JsonView::Object(views),
                    views.len() == ms@.len(),
                    start + all == out.deep_view() + member_strings_from(views, i as int),
                decreases ms@.len() - i,
            {
                let ghost before = out.deep_view();
                assert(decreases_to!(*v => v->Object_0));
                assert(decreases_to!(*ms => ms@[i as int]));
                collect_strings(&ms[i].1, out);
                assert(views[i as int].1 == json_view(ms@[i as int].1));
                assert(start + all =~= out.deep_view() + member_strings_from(views, i + 1));
                i += 1;
            }
            assert(out.deep_view() =~= start + all);
        },
        _ => {
            assert(out.deep_view() =~= start + all);
        },
    }
}

/// The texts of one node of a graph: its type, then those of its widgets.
pub open spec fn node_strings(node: JsonView) -> Seq<Text> {
    (match text_in(member(node, "type"@)) {
        Some(t) => seq![t],
        None => Seq::empty(),
    }) + (match member(node, "widgets_values"@) {
        Some(w) => strings_of(w),
        None => Seq::empty(),
    })
}

/// The texts of the nodes from `at` on.
pub open spec fn graph_strings(nodes: Seq<JsonView>, at: int) -> Seq<Text>
    decreases nodes.len() - at,
{
    if at < 0 || at >= nodes.len() {
        Seq::empty()
    } else {
        node_strings(nodes[at]) + graph_strings(nodes, at + 1)
    }
}

/// The texts that are looked at: the types and widgets of the nodes, or, where there is no list of
/// nodes, every text.
pub open spec fn workflow_strings(v: JsonView) -> Seq<Text> {
    match items_in(member(v, "nodes"@)) {
        Some(nodes) => graph_strings(nodes, 0),
        None => strings_of(v),
    }
}

fn push_node_strings(node: &Json, out: &mut Vec<String>)
    ensures
        final(out).deep_view() == old(out).deep_view() + node_strings(json_view(*node)),
{
    let ghost start = out.deep_view();
    if let Some(t) = node.get("type") {
        if let Some(s) = t.as_str() {
            out.push(s.clone());
            assert(out.deep_view() =~= start.push(s@));
        }
    }
    if let Some(w) = node.get("widgets_values") {
        collect_strings(w, out);
    }
    assert(out.deep_view() =~= start + node_strings(json_view(*node)));
}

fn strings_in_workflow(json: &Json) -> (r: Vec<String>)
    ensures
        r.deep_view() == workflow_strings(json_view(*json)),
{
    let mut out: Vec<String> = Vec::new();
    assert(out.deep_view() =~= Seq::empty());
    let ghost view = json_view(*json);
    if let Some(list) = json.get("nodes") {
        if let Some(nodes) = list.as_array() {
            let ghost views = json_items(nodes@);
            let mut i: usize = 0;
            assert(graph_strings(views, 0) =~= out.deep_view() + graph_strings(views, 0));
            while i < nodes.len()
                invariant
                    i <= nodes@.len(),
                    views == json_items(nodes@),
                    workflow_strings(view) == out.deep_view() + graph_strings(views, i as int),
                decreases nodes@.len() - i,
            {
                let ghost before = out.deep_view();
                push_node_strings(&nodes[i], &mut out);
                assert(views[i as int] == json_view(nodes@[i as int]));
                assert(workflow_strings(view) =~= out.deep_view() + graph_strings(views, i + 1));
                i += 1;
            }
            assert(out.deep_view() =~= workflow_strings(view));
            return out;
        }
    }
    collect_strings(json, &mut out);
    assert(out.deep_view() =~= strings_of(view));
    out
}

/// The last of the first `end` artifacts whose file has the name.
pub open spec fn artifact_named(
    windows: bool,
    arts: Seq<ArtifactView>,
    name: Text,
    end: int,
) -> Option<Text>
    decreases end,
{
    if end <= 0 {
        None
    } else if file_name_of(windows, arts[end - 1].relative_path) == Some(name) {
        Some(arts[end - 1].id)
    } else {
        artifact_named(windows, arts, name, end - 1)
    }
}

/// What follows the last slash of either sort.
pub open spec fn base_name(s: Text) -> Text {
    after_last(replaced(s, "\\"@, '/'), '/')
}

/// The artifact that a text of a workflow names: by the whole text, or by its last segment.
pub open spec fn artifact_meant(windows: bool, arts: Seq<ArtifactView>, s: Text) -> Option<Text> {
    match artifact_named(windows, arts, s, arts.len() as int) {
        Some(id) => Some(id),
        None => artifact_named(windows, arts, base_name(s), arts.len() as int),
    }
}

fn find_artifact_named<'a>(windows: bool, arts: &'a Vec<Artifact>, name: &str) -> (r: Option<
    &'a String,
>)
    ensures
        (match r {
            Some(id) => Some(id@),
            None => None,
        }) == artifact_named(windows, arts.deep_view(), name@, arts@.len() as int),
{
    let ghost views = arts.deep_view();
    let mut i: usize = arts.len();
    while i > 0
        invariant
            i <= arts@.len(),
            views == arts.deep_view(),
            artifact_named(windows, views, name@, views.len() as int) == artifact_named(
                windows,
                views,
                name@,
                i as int,
            ),
        decreases i,
    {
        let a = &arts[i - 1];
        assert(views[i - 1] == a.deep_view());
        if let Some(n) = file_name(windows, a.relative_path.as_str()) {
            if same_text(n.as_str(), name) {
                return Some(&a.id);
            }
        }
        i -= 1;
    }
    None
}

/// A text that ends as the names of model files do.
pub open spec fn model_like(s: Text) -> bool {
    let l = lower_text(s);
    has_suffix(l, ".safetensors"@) || has_suffix(l, ".ckpt"@) || has_suffix(l, ".pth"@)
        || has_suffix(l, ".pt"@) || has_suffix(l, ".onnx"@)
}

/// Whether `s` ends as the names of model files do.
pub fn looks_like_model(s: &str) -> (r: bool)
    ensures
        r == model_like(s@),
{
    let l = to_lower(s);
    let l = l.as_str();
    ends_with(l, ".safetensors") || ends_with(l, ".ckpt") || ends_with(l, ".pth") || ends_with(
        l,
        ".pt",
    ) || ends_with(l, ".onnx")
}

/// A text that can be the type of a node.
pub open spec fn type_like(s: Text) -> bool {
    !s.contains('/') && !s.contains('\\') && byte_len(s) < 100
}

/// The identifiers of those of the first `end` custom nodes that have the type.
pub open spec fn nodes_with_type(nodes: Seq<NodeView>, s: Text, end: int) -> Set<Text>
    decreases end,
{
    if end <= 0 {
        Set::empty()
    } else {
        let rest = nodes_with_type(nodes, s, end - 1);
        if nodes[end - 1].node_types.contains(s) {
            rest.insert(nodes[end - 1].id)
        } else {
            rest
        }
    }
}

/// What the texts ask for.
pub open spec fn inspected(windows: bool, strings: Seq<Text>, c: CatalogView) -> InspectionView
    decreases strings.len(),
{
    if strings.len() == 0 {
        InspectionView {
            artifact_ids: Set::empty(),
            custom_node_ids: Set::empty(),
            unresolved_model_filenames: Set::empty(),
            node_types: Set::empty(),
        }
    } else {
        let rest = inspected(windows, strings.drop_last(), c);
        let s = strings.last();
        InspectionView {
            artifact_ids: match artifact_meant(windows, c.artifacts, s) {
                Some(id) => rest.artifact_ids.insert(id),
                None => rest.artifact_ids,
            },
            unresolved_model_filenames: if artifact_meant(windows, c.artifacts, s) is None && model_like(s) {
                rest.unresolved_model_filenames.insert(s)
            } else {
                rest.unresolved_model_filenames
            },
            custom_node_ids: rest.custom_node_ids.union(
                nodes_with_type(c.custom_nodes, s, c.custom_nodes.len() as int),
            ),
            node_types: if type_like(s) {
                rest.node_types.insert(s)
            } else {
                rest.node_types
            },
        }
    }
}

fn add_nodes_with_type(nodes: &Vec<CustomNode>, s: &str, out: &mut IdSet)
    ensures
        final(out)@ == old(out)@.union(
            nodes_with_type(nodes.deep_view(), s@, nodes@.len() as int),
        ),
{
    let ghost views = nodes.deep_view();
    let ghost start = out@;
    let mut i: usize = 0;
    assert(out@ =~= start.union(nodes_with_type(views, s@, 0)));
    while i < nodes.len()
        invariant
            i <= nodes@.len(),
            views == nodes.deep_view(),
            out@ == start.union(nodes_with_type(views, s@, i as int)),
        decreases nodes@.len() - i,
    {
        let node = &nodes[i];
        assert(views[i as int] == node.deep_view());
        if has_text(&node.node_types, s) {
            out.insert(node.id.clone());
        }
        assert(out@ =~= start.union(nodes_with_type(views, s@, i + 1)));
        i += 1;
    }
}

/// What the workflow `json` asks for: known artifacts by their file names, custom nodes by their
/// types, and model files that no artifact is known for.
pub fn inspect_json(json: &Json, catalog: &Catalog, windows: bool) -> (r: WorkflowInspection)
    ensures
        r.deep_view() == inspected(
            windows,
            workflow_strings(json_view(*json)),
            catalog.deep_view(),
        ),
{
    let strings = strings_in_workflow(json);
    let ghost all = strings.deep_view();
    let ghost c = catalog.deep_view();
    let mut artifact_ids = IdSet::new();
    let mut custom_node_ids = IdSet::new();
    let mut unresolved = IdSet::new();
    let mut node_types = IdSet::new();
    let mut i: usize = 0;
    assert(all.take(0) =~= Seq::empty());
    while i < strings.len()
        invariant
            i <= strings@.len(),
            all == strings.deep_view(),
            c == catalog.deep_view(),
            inspected(windows, all.take(i as int), c) == (InspectionView {
                artifact_ids: artifact_ids@,
                custom_node_ids: custom_node_ids@,
                unresolved_model_filenames: unresolved@,
                node_types: node_types@,
            }),
        decreases strings@.len() - i,
    {
        let s = &strings[i];
        proof {
            assert(all.take(i + 1).drop_last() =~= all.take(i as int));
            assert(all.take(i + 1).last() == s@);
        }
        let slashed = replace_chars(s.as_str(), "\\", '/');
        let name = tail_after(slashed.as_str(), '/');
        let meant = match find_artifact_named(windows, &catalog.artifacts, s.as_str()) {
            Some(id) => Some(id),
            None => find_artifact_named(windows, &catalog.artifacts, name.as_str()),
        };
        if let Some(id) = meant {
            artifact_ids.insert(id.clone());
        } else if looks_like_model(s.as_str()) {
            unresolved.insert(s.clone());
        }
        add_nodes_with_type(&catalog.custom_nodes, s.as_str(), &mut custom_node_ids);
        if !contains_char(s.as_str(), '/') && !contains_char(s.as_str(), '\\') && byte_length(
            s.as_str(),
        ) < 100 {
            node_types.insert(s.clone());
        }
        i += 1;
    }
    assert(all.take(all.len() as int) =~= all);
    WorkflowInspection {
        artifact_ids,
        custom_node_ids,
        unresolved_model_filenames: unresolved,
        node_types,
    }
}

/// What the workflow file with the contents `raw` asks for; an error where they are no JSON.
pub fn inspect_workflow(raw: &str, catalog: &Catalog, windows: bool) -> (r: Result<
    WorkflowInspection,
    String,
>)
    ensures
        match json_text_value(raw@) {
            Ok(v) => r matches Ok(i) && i.deep_view() == inspected(
                windows,
                workflow_strings(v),
                catalog.deep_view(),
            ),
            Err(m) => r matches Err(e) && e@ == "parse workflow JSON: "@ + m,
        },
{
    match parse_json(raw) {
        Ok(json) => Ok(inspect_json(&json, catalog, windows)),
        Err(m) => Err(cat2("parse workflow JSON: ", m.as_str())),
    }
}

}
