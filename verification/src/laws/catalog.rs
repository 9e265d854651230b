//! Laws of the catalog: merging, validation, completion.
use crate::catalog::{
    enriched, enriched_artifacts, enriched_source, found, found_from, ids_of, known_size,
    last_place, merged, merged_one, missing_from, normalized, package_problem, repeat_from,
    repeat_problem, workflow_problem, Artifact, ArtifactView, CatalogView, CustomNode, Entry,
    Identified, Package, PackageView, WorkflowDefinition, WorkflowView,
};
use crate::text::Text;
use vstd::prelude::*;

verus! {

/// No two entries have the same identifier.
pub open spec fn distinct<T: Identified>(s: Seq<T::V>) -> bool {
    forall|i: int, j: int|
        0 <= i < j < s.len() ==> T::id_in(#[trigger] s[i]) != T::id_in(#[trigger] s[j])
}

proof fn last_place_facts<T: Identified>(s: Seq<T::V>, id: Text, end: int)
    requires
        0 <= end <= s.len(),
    ensures
        -1 <= last_place::<T>(s, id, end) < end,
        last_place::<T>(s, id, end) >= 0 ==> T::id_in(s[last_place::<T>(s, id, end)]) == id,
        forall|i: int|
            last_place::<T>(s, id, end) < i < end ==> T::id_in(#[trigger] s[i]) != id,
    decreases end,
{
    if end > 0 && T::id_in(s[end - 1]) != id {
        last_place_facts::<T>(s, id, end - 1);
    }
}

proof fn found_at<T: Identified>(s: Seq<T::V>, id: Text, at: int, k: int)
    requires
        0 <= at <= k < s.len(),
        T::id_in(s[k]) == id,
        forall|i: int| at <= i < k ==> T::id_in(#[trigger] s[i]) != id,
    ensures
        found_from::<T>(s, id, at) == Some(s[k]),
    decreases k - at,
{
    if at < k {
        found_at::<T>(s, id, at + 1, k);
    }
}

proof fn not_found<T: Identified>(s: Seq<T::V>, id: Text, at: int)
    requires
        0 <= at <= s.len(),
        forall|i: int| at <= i < s.len() ==> T::id_in(#[trigger] s[i]) != id,
    ensures
        found_from::<T>(s, id, at) is None,
    decreases s.len() - at,
{
    if at < s.len() {
        not_found::<T>(s, id, at + 1);
    }
}

proof fn merge_one_facts<T: Identified>(base: Seq<T::V>, item: T::V)
    requires
        distinct::<T>(base),
    ensures
        distinct::<T>(merged_one::<T>(base, item)),
        base.len() <= merged_one::<T>(base, item).len() <= base.len() + 1,
        forall|i: int|
            0 <= i < base.len() ==> T::id_in(#[trigger] merged_one::<T>(base, item)[i]) == T::id_in(
                base[i],
            ),
        found::<T>(merged_one::<T>(base, item), T::id_in(item)) == Some(item),
        forall|id: Text|
            id != T::id_in(item) ==> #[trigger] found::<T>(merged_one::<T>(base, item), id)
                == found::<T>(base, id),
{
    let id = T::id_in(item);
    let at = last_place::<T>(base, id, base.len() as int);
    let r = merged_one::<T>(base, item);
    last_place_facts::<T>(base, id, base.len() as int);
    if at >= 0 {
        assert forall|i: int| 0 <= i < at implies T::id_in(#[trigger] r[i]) != id by {
            assert(T::id_in(base[i]) != T::id_in(base[at]));
        }
        found_at::<T>(r, id, 0, at);
        assert forall|i: int, j: int| 0 <= i < j < r.len() implies T::id_in(#[trigger] r[i])
            != T::id_in(#[trigger] r[j]) by {
            assert(T::id_in(base[i]) != T::id_in(base[j]));
        }
    } else {
        found_at::<T>(r, id, 0, base.len() as int);
        assert forall|i: int, j: int| 0 <= i < j < r.len() implies T::id_in(#[trigger] r[i])
            != T::id_in(#[trigger] r[j]) by {
            if j < base.len() {
                assert(T::id_in(base[i]) != T::id_in(base[j]));
            } else {
                assert(T::id_in(base[i]) != id);
            }
        }
    }
    assert forall|other: Text| other != id implies #[trigger] found::<T>(r, other) == found::<T>(
        base,
        other,
    ) by {
        if exists|k: int| 0 <= k < base.len() && T::id_in(#[trigger] base[k]) == other {
            let k = choose|k: int| 0 <= k < base.len() && T::id_in(#[trigger] base[k]) == other;
            assert forall|i: int| 0 <= i < k implies T::id_in(#[trigger] base[i]) != other by {
                assert(T::id_in(base[i]) != T::id_in(base[k]));
            }
            found_at::<T>(base, other, 0, k);
            assert forall|i: int| 0 <= i < k implies T::id_in(#[trigger] r[i]) != other by {
                assert(T::id_in(base[i]) != other);
            }
            found_at::<T>(r, other, 0, k);
        } else {
            not_found::<T>(base, other, 0);
            assert forall|i: int| 0 <= i < r.len() implies T::id_in(#[trigger] r[i]) != other by {
                if i < base.len() {
                    assert(T::id_in(base[i]) != other);
                }
            }
            not_found::<T>(r, other, 0);
        }
    }
}

/// Merging keeps identifiers distinct, and keeps every entry of the base in its place.
pub proof fn merging_keeps_places<T: Identified>(base: Seq<T::V>, incoming: Seq<T::V>)
    requires
        distinct::<T>(base),
    ensures
        distinct::<T>(merged::<T>(base, incoming)),
        merged::<T>(base, incoming).len() >= base.len(),
        forall|i: int|
            0 <= i < base.len() ==> T::id_in(#[trigger] merged::<T>(base, incoming)[i])
                == T::id_in(base[i]),
    decreases incoming.len(),
{
    if incoming.len() > 0 {
        let before = merged::<T>(base, incoming.drop_last());
        merging_keeps_places::<T>(base, incoming.drop_last());
        merge_one_facts::<T>(before, incoming.last());
        let r = merged::<T>(base, incoming);
        assert forall|i: int| 0 <= i < base.len() implies T::id_in(#[trigger] r[i]) == T::id_in(
            base[i],
        ) by {
            assert(T::id_in(merged_one::<T>(before, incoming.last())[i]) == T::id_in(before[i]));
        }
    }
}

/// Later entries override earlier ones with the same identifier, and leave the others as they are.
pub proof fn later_entries_override<T: Identified>(base: Seq<T::V>, incoming: Seq<T::V>, id: Text)
    requires
        distinct::<T>(base),
        distinct::<T>(incoming),
    ensures
        found::<T>(merged::<T>(base, incoming), id) == match found::<T>(incoming, id) {
            Some(x) => Some(x),
            None => found::<T>(base, id),
        },
    decreases incoming.len(),
{
    if incoming.len() == 0 {
    } else {
        let front = incoming.drop_last();
        let last = incoming.last();
        let before = merged::<T>(base, front);
        assert forall|i: int, j: int| 0 <= i < j < front.len() implies T::id_in(
            #[trigger] front[i],
        ) != T::id_in(#[trigger] front[j]) by {
            assert(T::id_in(incoming[i]) != T::id_in(incoming[j]));
        }
        later_entries_override::<T>(base, front, id);
        merging_keeps_places::<T>(base, front);
        merge_one_facts::<T>(before, last);
        let n = incoming.len() - 1;
        if T::id_in(last) == id {
            assert forall|i: int| 0 <= i < n implies T::id_in(#[trigger] incoming[i]) != id by {
                assert(T::id_in(incoming[i]) != T::id_in(incoming[n]));
            }
            found_at::<T>(incoming, id, 0, n);
        } else {
            if exists|k: int| 0 <= k < n && T::id_in(#[trigger] incoming[k]) == id {
                let k = choose|k: int| 0 <= k < n && T::id_in(#[trigger] incoming[k]) == id;
                assert forall|i: int| 0 <= i < k implies T::id_in(#[trigger] incoming[i]) != id by {
                    assert(T::id_in(incoming[i]) != T::id_in(incoming[k]));
                }
                found_at::<T>(incoming, id, 0, k);
                assert(front[k] == incoming[k]);
                assert forall|i: int| 0 <= i < k implies T::id_in(#[trigger] front[i]) != id by {
                    assert(T::id_in(incoming[i]) != id);
                }
                found_at::<T>(front, id, 0, k);
            } else {
                not_found::<T>(incoming, id, 0);
                assert forall|i: int| 0 <= i < front.len() implies T::id_in(#[trigger] front[i])
                    != id by {
                    assert(T::id_in(incoming[i]) != id);
                }
                not_found::<T>(front, id, 0);
            }
        }
    }
}

proof fn no_repeat_from(ids: Seq<Text>, at: int)
    requires
        0 <= at <= ids.len(),
    ensures
        repeat_from(ids, at) is None <==> (forall|j: int|
            at <= j < ids.len() ==> !ids.take(j).contains(#[trigger] ids[j])),
    decreases ids.len() - at,
{
    if at < ids.len() {
        no_repeat_from(ids, at + 1);
    }
}

/// A list of identifiers has no repeat exactly when its entries are distinct.
pub proof fn no_repeat_means_distinct<T: Identified>(s: Seq<T::V>, what: Entry)
    ensures
        repeat_problem(ids_of::<T>(s), what) is None <==> distinct::<T>(s),
{
    let ids = ids_of::<T>(s);
    no_repeat_from(ids, 0);
    if repeat_from(ids, 0) is None {
        assert forall|i: int, j: int| 0 <= i < j < s.len() implies T::id_in(#[trigger] s[i])
            != T::id_in(#[trigger] s[j]) by {
            assert(!ids.take(j).contains(ids[j]));
            assert(ids.take(j)[i] == ids[i]);
        }
    }
    if distinct::<T>(s) {
        assert forall|j: int| 0 <= j < ids.len() implies !ids.take(j).contains(#[trigger] ids[j]) by {
            if ids.take(j).contains(ids[j]) {
                let i = choose|i: int| 0 <= i < j && ids.take(j)[i] == ids[j];
                assert(T::id_in(s[i]) != T::id_in(s[j]));
            }
        }
    }
}

/// Every reference of `refs` is among `known`.
pub open spec fn all_known(refs: Seq<Text>, known: Seq<Text>) -> bool {
    forall|i: int| 0 <= i < refs.len() ==> known.contains(#[trigger] refs[i])
}

proof fn no_missing_from(refs: Seq<Text>, known: Seq<Text>, at: int)
    requires
        0 <= at <= refs.len(),
    ensures
        missing_from(refs, known, at) is None <==> (forall|i: int|
            at <= i < refs.len() ==> known.contains(#[trigger] refs[i])),
    decreases refs.len() - at,
{
    if at < refs.len() {
        no_missing_from(refs, known, at + 1);
    }
}

/// A package refers only to what the catalog has.
pub open spec fn package_closed(c: CatalogView, p: PackageView) -> bool {
    all_known(p.artifact_refs(), c.artifact_ids()) && all_known(p.node_refs(), c.node_ids())
}

/// A workflow refers only to what the catalog has.
pub open spec fn workflow_closed(c: CatalogView, w: WorkflowView) -> bool {
    all_known(w.artifact_ids, c.artifact_ids()) && all_known(w.custom_node_ids, c.node_ids())
}

proof fn packages_closed_from(c: CatalogView, at: int)
    requires
        0 <= at <= c.packages.len(),
    ensures
        package_problem(c.packages, c.artifact_ids(), c.node_ids(), at) is None <==> (forall|i: int|
            at <= i < c.packages.len() ==> package_closed(c, #[trigger] c.packages[i])),
    decreases c.packages.len() - at,
{
    if at < c.packages.len() {
        packages_closed_from(c, at + 1);
        let p = c.packages[at];
        no_missing_from(p.artifact_refs(), c.artifact_ids(), 0);
        no_missing_from(p.node_refs(), c.node_ids(), 0);
        if package_closed(c, p) {
        } else {
            assert(!package_closed(c, c.packages[at]));
        }
    }
}

proof fn workflows_closed_from(c: CatalogView, at: int)
    requires
        0 <= at <= c.workflows.len(),
    ensures
        workflow_problem(c.workflows, c.artifact_ids(), c.node_ids(), at) is None <==> (forall|
            i: int,
        |
            at <= i < c.workflows.len() ==> workflow_closed(c, #[trigger] c.workflows[i])),
    decreases c.workflows.len() - at,
{
    if at < c.workflows.len() {
        workflows_closed_from(c, at + 1);
        let w = c.workflows[at];
        no_missing_from(w.artifact_ids, c.artifact_ids(), 0);
        no_missing_from(w.custom_node_ids, c.node_ids(), 0);
        if workflow_closed(c, w) {
        } else {
            assert(!workflow_closed(c, c.workflows[at]));
        }
    }
}

/// Identifiers are distinct, and every package and workflow refers only to what the catalog has.
pub open spec fn sound(c: CatalogView) -> bool {
    &&& distinct::<Artifact>(c.artifacts)
    &&& distinct::<Package>(c.packages)
    &&& distinct::<WorkflowDefinition>(c.workflows)
    &&& distinct::<CustomNode>(c.custom_nodes)
    &&& forall|i: int| 0 <= i < c.packages.len() ==> package_closed(c, #[trigger] c.packages[i])
    &&& forall|i: int|
        0 <= i < c.workflows.len() ==> workflow_closed(c, #[trigger] c.workflows[i])
}

/// A catalog passes validation exactly when its identifiers are distinct and every reference leads
/// somewhere.
pub proof fn valid_means_sound(c: CatalogView)
    ensures
        c.problem() is None <==> sound(c),
{
    no_repeat_means_distinct::<Artifact>(c.artifacts, Entry::Artifact);
    no_repeat_means_distinct::<Package>(c.packages, Entry::Package);
    no_repeat_means_distinct::<WorkflowDefinition>(c.workflows, Entry::Workflow);
    no_repeat_means_distinct::<CustomNode>(c.custom_nodes, Entry::CustomNode);
    packages_closed_from(c, 0);
    workflows_closed_from(c, 0);
}

proof fn found_facts<T: Identified>(s: Seq<T::V>, id: Text, at: int)
    requires
        0 <= at <= s.len(),
    ensures
        found_from::<T>(s, id, at) is Some <==> (exists|k: int|
            at <= k < s.len() && T::id_in(#[trigger] s[k]) == id),
        found_from::<T>(s, id, at) matches Some(x) ==> T::id_in(x) == id,
    decreases s.len() - at,
{
    if at < s.len() {
        found_facts::<T>(s, id, at + 1);
    }
}

proof fn found_when_contained<T: Identified>(s: Seq<T::V>, id: Text)
    ensures
        found::<T>(s, id) is Some <==> ids_of::<T>(s).contains(id),
        found::<T>(s, id) matches Some(x) ==> T::id_in(x) == id,
{
    let ids = ids_of::<T>(s);
    found_facts::<T>(s, id, 0);
    if ids.contains(id) {
        let k = choose|k: int| 0 <= k < ids.len() && ids[k] == id;
        assert(T::id_in(s[k]) == id);
    }
    if found::<T>(s, id) is Some {
        let k = choose|k: int| 0 <= k < s.len() && T::id_in(#[trigger] s[k]) == id;
        assert(ids[k] == id);
    }
}

/// In a valid catalog every artifact that a package refers to can be looked up, and what is found
/// has that identifier.
pub proof fn references_can_be_looked_up(c: CatalogView, package: int, reference: int)
    requires
        c.problem() is None,
        0 <= package < c.packages.len(),
        0 <= reference < c.packages[package].artifact_refs().len(),
    ensures
        ({
            let id = c.packages[package].artifact_refs()[reference];
            found::<Artifact>(c.artifacts, id) matches Some(a) && a.id == id
        }),
{
    valid_means_sound(c);
    assert(package_closed(c, c.packages[package]));
    let id = c.packages[package].artifact_refs()[reference];
    assert(c.artifact_ids().contains(id));
    found_when_contained::<Artifact>(c.artifacts, id);
}

/// Completing an artifact's sources a second time changes nothing.
pub proof fn normalizing_twice_changes_nothing(a: ArtifactView)
    ensures
        normalized(normalized(a)) == normalized(a),
{
}

proof fn known_size_facts(s: Seq<ArtifactView>, path: Text, end: int)
    requires
        0 <= end <= s.len(),
    ensures
        known_size(s, path, end) is Some <==> (exists|i: int|
            0 <= i < end && (#[trigger] s[i]).relative_path == path && s[i].size_bytes is Some),
    decreases end,
{
    if end > 0 {
        known_size_facts(s, path, end - 1);
        if s[end - 1].relative_path == path && s[end - 1].size_bytes is Some {
            assert(s[end - 1].relative_path == path);
        } else if known_size(s, path, end) is Some {
            let i = choose|i: int|
                0 <= i < end - 1 && (#[trigger] s[i]).relative_path == path
                    && s[i].size_bytes is Some;
            assert(s[i].relative_path == path);
        }
    }
}

/// After a merge, every artifact has a size where any artifact of the same path has one.
pub proof fn sizes_are_shared(s: Seq<ArtifactView>, i: int, j: int)
    requires
        0 <= i < s.len(),
        0 <= j < s.len(),
        s[i].relative_path == s[j].relative_path,
        s[j].size_bytes is Some,
    ensures
        enriched_artifacts(s)[i].size_bytes is Some,
        s[i].size_bytes is Some ==> enriched_artifacts(s)[i].size_bytes == s[i].size_bytes,
{
    known_size_facts(s, s[i].relative_path, s.len() as int);
    assert(s[j].relative_path == s[i].relative_path);
}

proof fn known_size_after(s: Seq<ArtifactView>, path: Text, end: int)
    requires
        0 <= end <= s.len(),
    ensures
        known_size(s, path, end) is Some ==> known_size(enriched_artifacts(s), path, end) is Some,
        known_size(s, path, s.len() as int) is None ==> known_size(
            enriched_artifacts(s),
            path,
            end,
        ) is None,
    decreases end,
{
    let t = enriched_artifacts(s);
    if end > 0 {
        known_size_after(s, path, end - 1);
        if s[end - 1].relative_path == path && known_size(s, path, s.len() as int) is None {
            known_size_facts(s, path, s.len() as int);
            if s[end - 1].size_bytes is Some {
                assert(s[end - 1].relative_path == path);
            }
        }
    }
}

/// Sharing sizes a second time changes nothing.
pub proof fn enriching_twice_changes_nothing(s: Seq<ArtifactView>)
    ensures
        enriched_artifacts(enriched_artifacts(s)) == enriched_artifacts(s),
{
    let t = enriched_artifacts(s);
    let u = enriched_artifacts(t);
    assert forall|i: int| 0 <= i < s.len() implies #[trigger] u[i] == t[i] by {
        let a = s[i];
        let known = known_size(s, a.relative_path, s.len() as int);
        let again = known_size(t, a.relative_path, t.len() as int);
        assert(t[i] == enriched(a, known));
        assert(u[i] == enriched(t[i], again));
        if t[i].size_bytes is None {
            known_size_after(s, a.relative_path, s.len() as int);
            assert(again is None);
        }
        assert(u[i].sources =~= t[i].sources) by {
            assert forall|k: int| 0 <= k < a.sources.len() implies #[trigger] u[i].sources[k]
                == t[i].sources[k] by {
                let single = a.sources.len() == 1;
                let first = enriched_source(a.sources[k], single, t[i].size_bytes);
                assert(t[i].sources[k] == first);
                assert(u[i].sources[k] == enriched_source(first, single, u[i].size_bytes));
            }
        }
    }
    assert(u =~= t);
}

}
