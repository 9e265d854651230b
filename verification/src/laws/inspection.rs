//! Laws of the inspection of workflows: which texts are looked at, and what each of them stands for.
use crate::catalog::{ArtifactView, CatalogView, NodeView};
use crate::json::{member, member_from, JsonView};
use crate::paths::file_name_of;
use crate::text::{lower_text, Text};
use crate::workflow::{
    artifact_meant, artifact_named, base_name, graph_strings, inspected, member_strings_from,
    model_like, node_strings, nodes_with_type, strings_from, strings_of, type_like,
    workflow_strings,
};
use vstd::prelude::*;
use vstd::string::*;

verus! {

/// `s` ends with `end`.
pub open spec fn ends_in(s: Text, end: Text) -> bool {
    exists|front: Text| s == #[trigger] (front + end)
}

proof fn suffix_is_end(s: Text, end: Text)
    ensures
        crate::text::has_suffix(s, end) <==> ends_in(s, end),
{
    if crate::text::has_suffix(s, end) {
        let front = s.take(s.len() - end.len());
        assert(s =~= front + end);
    }
    if ends_in(s, end) {
        let front = choose|front: Text| s == #[trigger] (front + end);
        assert(s.skip(s.len() - end.len()) =~= end);
    }
}

/// The text is named like a model file: it ends, in whatever case, as those do.
pub open spec fn named_like_a_model(s: Text) -> bool {
    let l = lower_text(s);
    ends_in(l, ".safetensors"@) || ends_in(l, ".ckpt"@) || ends_in(l, ".pth"@) || ends_in(l, ".pt"@)
        || ends_in(l, ".onnx"@)
}

/// Some artifact of the catalog has a file of this name.
pub open spec fn is_file_of(windows: bool, c: CatalogView, name: Text) -> bool {
    exists|k: int|
        0 <= k < c.artifacts.len() && file_name_of(
            windows,
            (#[trigger] c.artifacts[k]).relative_path,
        ) == Some(name)
}

proof fn named_where_there(windows: bool, arts: Seq<ArtifactView>, name: Text, end: int)
    requires
        0 <= end <= arts.len(),
    ensures
        artifact_named(windows, arts, name, end) is Some <==> exists|k: int|
            0 <= k < end && file_name_of(windows, (#[trigger] arts[k]).relative_path) == Some(name),
        artifact_named(windows, arts, name, end) matches Some(id) ==> exists|k: int|
            0 <= k < end && (#[trigger] arts[k]).id == id && file_name_of(
                windows,
                arts[k].relative_path,
            ) == Some(name),
    decreases end,
{
    if end > 0 {
        named_where_there(windows, arts, name, end - 1);
        if file_name_of(windows, arts[end - 1].relative_path) == Some(name) {
            assert(arts[end - 1].id == arts[end - 1].id);
        } else if artifact_named(windows, arts, name, end) is Some {
            let id = artifact_named(windows, arts, name, end)->0;
            let k = choose|k: int|
                0 <= k < end - 1 && (#[trigger] arts[k]).id == id && file_name_of(
                    windows,
                    arts[k].relative_path,
                ) == Some(name);
            assert(arts[k].id == id);
        }
    }
}

/// What follows the last slash, of either sort, of a text.
pub open spec fn last_part(s: Text, part: Text) -> bool {
    &&& ends_in(s, part)
    &&& !part.contains('/') && !part.contains('\\')
    &&& part.len() < s.len() ==> s[s.len() - part.len() - 1] == '/' || s[s.len() - part.len() - 1]
        == '\\'
}

proof fn after_last_facts(t: Text)
    ensures
        ({
            let part = crate::text::after_last(t, '/');
            &&& part.len() <= t.len()
            &&& t.skip(t.len() - part.len()) == part
            &&& !part.contains('/')
            &&& part.len() < t.len() ==> t[t.len() - part.len() - 1] == '/'
        }),
    decreases t.len(),
{
    let part = crate::text::after_last(t, '/');
    if t.len() == 0 || t.last() == '/' {
        assert(t.skip(t.len() as int) =~= part);
    } else {
        let front = t.drop_last();
        after_last_facts(front);
        let before = crate::text::after_last(front, '/');
        assert(part == before.push(t.last()));
        assert(t.skip(t.len() - part.len()) =~= part) by {
            assert(front.skip(front.len() - before.len()) == before);
            assert forall|i: int| 0 <= i < part.len() implies t.skip(t.len() - part.len())[i]
                == part[i] by {
                if i < before.len() {
                    assert(front.skip(front.len() - before.len())[i] == before[i]);
                }
            }
        }
        if part.contains('/') {
            let k = choose|k: int| 0 <= k < part.len() && part[k] == '/';
            if k < before.len() {
                assert(before[k] == '/');
            }
        }
    }
}

proof fn base_is_last_part(s: Text)
    ensures
        last_part(s, base_name(s)),
{
    reveal_strlit("\\");
    let from = "\\"@;
    let t = crate::text::replaced(s, from, '/');
    let part = base_name(s);
    assert(from[0] == '\\');
    after_last_facts(t);
    let n = s.len() - part.len();
    assert forall|i: int| 0 <= i < s.len() implies #[trigger] t[i] == if s[i] == '\\' {
        '/'
    } else {
        s[i]
    } by {
        assert(t[i] == crate::text::swap_char(s[i], from, '/'));
        if from.contains(s[i]) {
            let k = choose|k: int| 0 <= k < from.len() && from[k] == s[i];
            assert(k == 0);
        }
        if s[i] == '\\' {
            assert(from.contains(s[i]));
        }
    }
    assert forall|i: int| 0 <= i < part.len() implies part[i] == s[n + i] by {
        assert(t.skip(n)[i] == t[n + i]);
        if s[n + i] == '\\' {
            assert(part[i] == '/');
            assert(part.contains('/'));
        }
    }
    assert(s =~= s.take(n) + part);
    if part.contains('\\') {
        let k = choose|k: int| 0 <= k < part.len() && part[k] == '\\';
        assert(s[n + k] == '\\');
        assert(t[n + k] == '/');
        assert(t.skip(n)[k] == '/');
    }
}

proof fn inspected_step(windows: bool, strings: Seq<Text>, c: CatalogView, k: int, s: Text)
    requires
        0 <= k < strings.len(),
        strings[k] == s,
    ensures
        ({
            let r = inspected(windows, strings, c);
            &&& artifact_meant(windows, c.artifacts, s) matches Some(id) ==> r.artifact_ids.contains(
                id,
            )
            &&& artifact_meant(windows, c.artifacts, s) is None && model_like(s)
                ==> r.unresolved_model_filenames.contains(s)
            &&& type_like(s) ==> r.node_types.contains(s)
            &&& forall|id: Text| #[trigger]
                nodes_with_type(c.custom_nodes, s, c.custom_nodes.len() as int).contains(id)
                    ==> r.custom_node_ids.contains(id)
        }),
    decreases strings.len(),
{
    let front = strings.drop_last();
    if k < front.len() {
        inspected_step(windows, front, c, k, s);
    }
}

/// An unknown model is reported: a text that is named like a model file, and is no artifact's file
/// name, neither as it stands nor by its last part, is among the unresolved ones.
pub proof fn unknown_model_files_are_reported(
    windows: bool,
    strings: Seq<Text>,
    c: CatalogView,
    k: int,
    part: Text,
)
    requires
        0 <= k < strings.len(),
        named_like_a_model(strings[k]),
        last_part(strings[k], part),
        !is_file_of(windows, c, strings[k]),
        !is_file_of(windows, c, part),
    ensures
        inspected(windows, strings, c).unresolved_model_filenames.contains(strings[k]),
{
    let s = strings[k];
    let l = lower_text(s);
    suffix_is_end(l, ".safetensors"@);
    suffix_is_end(l, ".ckpt"@);
    suffix_is_end(l, ".pth"@);
    suffix_is_end(l, ".pt"@);
    suffix_is_end(l, ".onnx"@);
    base_is_last_part(s);
    last_parts_agree(s, part, base_name(s));
    named_where_there(windows, c.artifacts, s, c.artifacts.len() as int);
    named_where_there(windows, c.artifacts, part, c.artifacts.len() as int);
    inspected_step(windows, strings, c, k, s);
}

proof fn last_parts_agree(s: Text, a: Text, b: Text)
    requires
        last_part(s, a),
        last_part(s, b),
    ensures
        a == b,
{
    let fa = choose|f: Text| s == #[trigger] (f + a);
    let fb = choose|f: Text| s == #[trigger] (f + b);
    if a.len() < b.len() {
        let at = s.len() - a.len() - 1;
        assert(b[at - fb.len()] == s[at]);
        assert(b.contains(s[at]));
    } else if b.len() < a.len() {
        let at = s.len() - b.len() - 1;
        assert(a[at - fa.len()] == s[at]);
        assert(a.contains(s[at]));
    } else {
        assert forall|i: int| 0 <= i < a.len() implies a[i] == b[i] by {
            assert(s[fa.len() + i] == a[i]);
            assert(s[fb.len() + i] == b[i]);
        }
        assert(a =~= b);
    }
}

/// A known model is resolved: a text that is an artifact's file name, as it stands or by its last
/// part, brings an artifact with that file name, and is not among the unresolved ones.
pub proof fn known_model_files_are_resolved(
    windows: bool,
    strings: Seq<Text>,
    c: CatalogView,
    k: int,
    part: Text,
)
    requires
        0 <= k < strings.len(),
        last_part(strings[k], part),
        is_file_of(windows, c, strings[k]) || is_file_of(windows, c, part),
    ensures
        exists|a: int|
            0 <= a < c.artifacts.len() && inspected(windows, strings, c).artifact_ids.contains(
                (#[trigger] c.artifacts[a]).id,
            ) && (file_name_of(windows, c.artifacts[a].relative_path) == Some(strings[k])
                || file_name_of(windows, c.artifacts[a].relative_path) == Some(part)),
        !inspected(windows, strings, c).unresolved_model_filenames.contains(strings[k]),
{
    let s = strings[k];
    base_is_last_part(s);
    last_parts_agree(s, part, base_name(s));
    named_where_there(windows, c.artifacts, s, c.artifacts.len() as int);
    named_where_there(windows, c.artifacts, part, c.artifacts.len() as int);
    inspected_step(windows, strings, c, k, s);
    unresolved_are_unknown(windows, strings, c, s);
}

proof fn unresolved_are_unknown(windows: bool, strings: Seq<Text>, c: CatalogView, s: Text)
    ensures
        inspected(windows, strings, c).unresolved_model_filenames.contains(s) ==> artifact_meant(
            windows,
            c.artifacts,
            s,
        ) is None && model_like(s) && strings.contains(s),
    decreases strings.len(),
{
    if strings.len() > 0 {
        let front = strings.drop_last();
        unresolved_are_unknown(windows, front, c, s);
        if front.contains(s) {
            let k = choose|k: int| 0 <= k < front.len() && front[k] == s;
            assert(strings[k] == s);
        }
        assert(strings[strings.len() - 1] == strings.last());
    }
}

/// Nothing is reported that the workflow does not name: an unresolved file is a text of it, named
/// like a model file.
pub proof fn only_named_files_are_reported(
    windows: bool,
    strings: Seq<Text>,
    c: CatalogView,
    s: Text,
)
    requires
        inspected(windows, strings, c).unresolved_model_filenames.contains(s),
    ensures
        strings.contains(s),
        named_like_a_model(s),
        !is_file_of(windows, c, s),
{
    unresolved_are_unknown(windows, strings, c, s);
    let l = lower_text(s);
    suffix_is_end(l, ".safetensors"@);
    suffix_is_end(l, ".ckpt"@);
    suffix_is_end(l, ".pth"@);
    suffix_is_end(l, ".pt"@);
    suffix_is_end(l, ".onnx"@);
    named_where_there(windows, c.artifacts, s, c.artifacts.len() as int);
}

proof fn typed_nodes(nodes: Seq<NodeView>, s: Text, end: int, id: Text)
    requires
        0 <= end <= nodes.len(),
    ensures
        nodes_with_type(nodes, s, end).contains(id) <==> exists|k: int|
            0 <= k < end && (#[trigger] nodes[k]).id == id && nodes[k].node_types.contains(s),
    decreases end,
{
    if end > 0 {
        typed_nodes(nodes, s, end - 1, id);
        if nodes[end - 1].node_types.contains(s) && nodes[end - 1].id == id {
            assert(nodes[end - 1].id == id);
        }
        if exists|k: int|
            0 <= k < end - 1 && (#[trigger] nodes[k]).id == id && nodes[k].node_types.contains(s) {
            let k = choose|k: int|
                0 <= k < end - 1 && (#[trigger] nodes[k]).id == id && nodes[k].node_types.contains(
                    s,
                );
            assert(nodes[k].id == id);
        }
    }
}

/// A custom node is asked for exactly where one of the texts is one of its types.
pub proof fn custom_nodes_are_found_by_their_types(
    windows: bool,
    strings: Seq<Text>,
    c: CatalogView,
    id: Text,
)
    ensures
        inspected(windows, strings, c).custom_node_ids.contains(id) <==> exists|k: int, n: int|
            0 <= k < strings.len() && 0 <= n < c.custom_nodes.len() && (
            #[trigger] c.custom_nodes[n]).id == id && c.custom_nodes[n].node_types.contains(
                #[trigger] strings[k],
            ),
    decreases strings.len(),
{
    if strings.len() > 0 {
        let front = strings.drop_last();
        let last = strings.last();
        custom_nodes_are_found_by_their_types(windows, front, c, id);
        typed_nodes(c.custom_nodes, last, c.custom_nodes.len() as int, id);
        assert(strings[strings.len() - 1] == last);
        if inspected(windows, front, c).custom_node_ids.contains(id) {
            let (k, n) = choose|k: int, n: int|
                0 <= k < front.len() && 0 <= n < c.custom_nodes.len() && (
                #[trigger] c.custom_nodes[n]).id == id && c.custom_nodes[n].node_types.contains(
                    #[trigger] front[k],
                );
            assert(strings[k] == front[k]);
        }
        if nodes_with_type(c.custom_nodes, last, c.custom_nodes.len() as int).contains(id) {
            let n = choose|n: int|
                0 <= n < c.custom_nodes.len() && (#[trigger] c.custom_nodes[n]).id == id
                    && c.custom_nodes[n].node_types.contains(last);
            assert(c.custom_nodes[n].node_types.contains(strings[strings.len() - 1]));
        }
        if exists|k: int, n: int|
            0 <= k < strings.len() && 0 <= n < c.custom_nodes.len() && (
            #[trigger] c.custom_nodes[n]).id == id && c.custom_nodes[n].node_types.contains(
                #[trigger] strings[k],
            ) {
            let (k, n) = choose|k: int, n: int|
                0 <= k < strings.len() && 0 <= n < c.custom_nodes.len() && (
                #[trigger] c.custom_nodes[n]).id == id && c.custom_nodes[n].node_types.contains(
                    #[trigger] strings[k],
                );
            if k < front.len() {
                assert(front[k] == strings[k]);
            }
        }
    }
}

/// `s` is a text in `v`: itself, or in one of its elements or the values of its members.
pub open spec fn holds_text(v: JsonView, s: Text) -> bool
    decreases v,
{
    match v {
        JsonView::Text(t) => t == s,
        JsonView::Array(xs) => exists|i: int|
            0 <= i < xs.len() && holds_text(#[trigger] xs[i], s),
        JsonView::Object(ms) => exists|i: int|
            0 <= i < ms.len() && holds_text((#[trigger] ms[i]).1, s),
        _ => false,
    }
}

proof fn in_both(a: Seq<Text>, b: Seq<Text>, x: Text)
    ensures
        (a + b).contains(x) <==> a.contains(x) || b.contains(x),
{
    let all = a + b;
    if a.contains(x) {
        let i = choose|i: int| 0 <= i < a.len() && a[i] == x;
        assert(all[i] == x);
    }
    if b.contains(x) {
        let i = choose|i: int| 0 <= i < b.len() && b[i] == x;
        assert(all[a.len() + i] == x);
    }
    if all.contains(x) {
        let i = choose|i: int| 0 <= i < all.len() && all[i] == x;
        if i < a.len() {
            assert(a[i] == x);
        } else {
            assert(b[i - a.len()] == x);
        }
    }
}

proof fn one_text(t: Text, s: Text)
    ensures
        seq![t].contains(s) <==> t == s,
{
    let all = seq![t];
    assert(all[0] == t);
    if all.contains(s) {
        let k = choose|k: int| 0 <= k < all.len() && all[k] == s;
        assert(k == 0);
    }
}

/// Every text in a value is looked at, however deep it lies, and nothing else is.
pub proof fn texts_are_found_at_any_depth(v: JsonView, s: Text)
    ensures
        strings_of(v).contains(s) <==> holds_text(v, s),
    decreases v, 0int,
{
    match v {
        JsonView::Text(t) => {
            one_text(t, s);
        },
        JsonView::Array(xs) => {
            texts_in_elements(xs, 0, s);
        },
        JsonView::Object(ms) => {
            texts_in_members(ms, 0, s);
        },
        _ => {},
    }
}

proof fn texts_in_elements(xs: Seq<JsonView>, at: int, s: Text)
    requires
        0 <= at <= xs.len(),
    ensures
        strings_from(xs, at).contains(s) <==> exists|i: int|
            at <= i < xs.len() && holds_text(#[trigger] xs[i], s),
    decreases xs, xs.len() - at,
{
    if at < xs.len() {
        texts_are_found_at_any_depth(xs[at], s);
        texts_in_elements(xs, at + 1, s);
        in_both(strings_of(xs[at]), strings_from(xs, at + 1), s);
    }
}

proof fn texts_in_members(ms: Seq<(Text, JsonView)>, at: int, s: Text)
    requires
        0 <= at <= ms.len(),
    ensures
        member_strings_from(ms, at).contains(s) <==> exists|i: int|
            at <= i < ms.len() && holds_text((#[trigger] ms[i]).1, s),
    decreases ms, ms.len() - at,
{
    if at < ms.len() {
        texts_are_found_at_any_depth(ms[at].1, s);
        texts_in_members(ms, at + 1, s);
        in_both(strings_of(ms[at].1), member_strings_from(ms, at + 1), s);
    }
}

/// `s` is a text of a node: its type, or in its widgets.
pub open spec fn node_holds(node: JsonView, s: Text) -> bool {
    ||| member(node, "type"@) == Some(JsonView::Text(s))
    ||| member(node, "widgets_values"@) matches Some(w) && holds_text(w, s)
}

proof fn node_texts(node: JsonView, s: Text)
    ensures
        node_strings(node).contains(s) <==> node_holds(node, s),
{
    if let Some(w) = member(node, "widgets_values"@) {
        texts_are_found_at_any_depth(w, s);
    }
    let a = match crate::json::text_in(member(node, "type"@)) {
        Some(t) => seq![t],
        None => Seq::<Text>::empty(),
    };
    let b = match member(node, "widgets_values"@) {
        Some(w) => strings_of(w),
        None => Seq::<Text>::empty(),
    };
    in_both(a, b, s);
    if let Some(t) = crate::json::text_in(member(node, "type"@)) {
        assert(a[0] == t);
    }
}

proof fn graph_texts(nodes: Seq<JsonView>, at: int, s: Text)
    requires
        0 <= at <= nodes.len(),
    ensures
        graph_strings(nodes, at).contains(s) <==> exists|i: int|
            at <= i < nodes.len() && #[trigger] node_holds(nodes[i], s),
    decreases nodes.len() - at,
{
    if at < nodes.len() {
        node_texts(nodes[at], s);
        graph_texts(nodes, at + 1, s);
        in_both(node_strings(nodes[at]), graph_strings(nodes, at + 1), s);
    }
}

/// Of a workflow with a list of nodes the types and widgets of the nodes are looked at; of any other
/// value every text in it.
pub proof fn workflows_are_looked_through(v: JsonView, s: Text)
    ensures
        workflow_strings(v).contains(s) <==> match member(v, "nodes"@) {
            Some(JsonView::Array(nodes)) => exists|i: int|
                0 <= i < nodes.len() && #[trigger] node_holds(nodes[i], s),
            _ => holds_text(v, s),
        },
{
    texts_are_found_at_any_depth(v, s);
    if let Some(JsonView::Array(nodes)) = member(v, "nodes"@) {
        graph_texts(nodes, 0, s);
    }
}

/// A member is looked up by its name: the first of that name.
pub proof fn members_are_found_by_name(ms: Seq<(Text, JsonView)>, i: int)
    requires
        0 <= i < ms.len(),
        forall|k: int| 0 <= k < i ==> (#[trigger] ms[k]).0 != ms[i].0,
    ensures
        member(JsonView::Object(ms), ms[i].0) == Some(ms[i].1),
{
    member_from_first(ms, i, 0);
}

proof fn member_from_first(ms: Seq<(Text, JsonView)>, i: int, at: int)
    requires
        0 <= at <= i < ms.len(),
        forall|k: int| 0 <= k < i ==> (#[trigger] ms[k]).0 != ms[i].0,
    ensures
        member_from(ms, ms[i].0, at) == Some(ms[i].1),
    decreases i - at,
{
    if at < i {
        assert(ms[at].0 != ms[i].0);
        member_from_first(ms, i, at + 1);
    }
}

/// The types that are listed are the texts without slashes of less than a hundred bytes.
pub proof fn types_are_short_texts(windows: bool, strings: Seq<Text>, c: CatalogView, s: Text)
    ensures
        inspected(windows, strings, c).node_types.contains(s) <==> strings.contains(s)
            && !s.contains('/') && !s.contains('\\') && vstd::utf8::encode_utf8(s).len() < 100,
    decreases strings.len(),
{
    if strings.len() > 0 {
        let front = strings.drop_last();
        types_are_short_texts(windows, front, c, s);
        assert(strings[strings.len() - 1] == strings.last());
        if front.contains(s) {
            let k = choose|k: int| 0 <= k < front.len() && front[k] == s;
            assert(strings[k] == s);
        }
        if strings.contains(s) {
            let k = choose|k: int| 0 <= k < strings.len() && strings[k] == s;
            if k < front.len() {
                assert(front[k] == s);
            }
        }
    }
}

/// A text looks like a model file exactly where it ends, in any case, in `.safetensors`, `.ckpt`,
/// `.pth`, `.pt` or `.onnx`; whatever comes before does not matter.
pub proof fn model_files_are_told_by_their_ends(s: Text, front: Text)
    ensures
        model_like(s) <==> named_like_a_model(s),
        model_like(front + ".safetensors"@),
        model_like(front + ".ckpt"@),
        model_like(front + ".pth"@),
        model_like(front + ".pt"@),
        model_like(front + ".onnx"@),
{
    let l = lower_text(s);
    suffix_is_end(l, ".safetensors"@);
    suffix_is_end(l, ".ckpt"@);
    suffix_is_end(l, ".pth"@);
    suffix_is_end(l, ".pt"@);
    suffix_is_end(l, ".onnx"@);
    reveal_strlit(".safetensors");
    reveal_strlit(".ckpt");
    reveal_strlit(".pth");
    reveal_strlit(".pt");
    reveal_strlit(".onnx");
    lower_end(front, ".safetensors"@);
    lower_end(front, ".ckpt"@);
    lower_end(front, ".pth"@);
    lower_end(front, ".pt"@);
    lower_end(front, ".onnx"@);
}

proof fn lower_end(front: Text, end: Text)
    requires
        forall|i: int| 0 <= i < end.len() ==> !('A' <= #[trigger] end[i] <= 'Z'),
    ensures
        crate::text::has_suffix(lower_text(front + end), end),
{
    let l = lower_text(front + end);
    assert(l.skip(l.len() - end.len()) =~= end);
}

}
