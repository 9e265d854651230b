//! Ordered collections keyed by identifiers: each identifier occurs once, in ascending order.
use crate::text::{
    same_text, text_less, text_lt, text_lt_irreflexive, text_lt_total, text_lt_transitive, Text,
};
use vstd::prelude::*;

verus! {

/// `s` ascends strictly: nothing occurs twice.
pub open spec fn ascends(s: Seq<Text>) -> bool {
    forall|i: int, j: int| 0 <= i < j < s.len() ==> #[trigger] text_lt(s[i], s[j])
}

/// The elements of `ids` in ascending order.
pub open spec fn ascending(ids: Set<Text>) -> Seq<Text> {
    choose|s: Seq<Text>| ascends(s) && s.to_set() == ids
}

/// A strictly ascending list is determined by what it holds.
pub proof fn ascending_is_unique(a: Seq<Text>, b: Seq<Text>)
    requires
        ascends(a),
        ascends(b),
        a.to_set() == b.to_set(),
    ensures
        a == b,
    decreases a.len(),
{
    if a.len() == 0 {
        if b.len() > 0 {
            assert(b.to_set().contains(b[0]));
            assert(a.contains(b[0]));
        }
        assert(a =~= b);
    } else {
        assert(a.to_set().contains(a[0]));
        assert(b.contains(a[0]));
        let x = a.last();
        let y = b.last();
        assert(a.to_set().contains(x));
        assert(b.to_set().contains(y));
        let i = choose|i: int| 0 <= i < b.len() && b[i] == x;
        let j = choose|j: int| 0 <= j < a.len() && a[j] == y;
        assert(x == y) by {
            if x != y {
                assert(text_lt(b[i], b[b.len() - 1]));
                assert(text_lt(a[j], a[a.len() - 1]));
                text_lt_transitive(x, y, x);
                text_lt_irreflexive(x);
            }
        }
        let a1 = a.drop_last();
        let b1 = b.drop_last();
        assert forall|t: Text| a1.to_set().contains(t) implies b1.to_set().contains(t) by {
            drop_last_holds_rest(a, b, t);
        }
        assert forall|t: Text| b1.to_set().contains(t) implies a1.to_set().contains(t) by {
            drop_last_holds_rest(b, a, t);
        }
        assert(a1.to_set() =~= b1.to_set());
        ascending_is_unique(a1, b1);
        assert(a =~= a1.push(x));
        assert(b =~= b1.push(y));
    }
}

proof fn drop_last_holds_rest(a: Seq<Text>, b: Seq<Text>, t: Text)
    requires
        ascends(a),
        a.to_set() == b.to_set(),
        a.len() > 0,
        b.len() > 0,
        a.last() == b.last(),
        a.drop_last().to_set().contains(t),
    ensures
        b.drop_last().to_set().contains(t),
{
    let k = choose|k: int| 0 <= k < a.drop_last().len() && a.drop_last()[k] == t;
    assert(a[k] == t);
    assert(text_lt(a[k], a[a.len() - 1]));
    if t == a.last() {
        text_lt_irreflexive(t);
    }
    assert(a.to_set().contains(t));
    assert(b.contains(t));
    let m = choose|m: int| 0 <= m < b.len() && b[m] == t;
    assert(b.drop_last()[m] == t);
}

/// A strictly ascending list is the ascending order of what it holds.
pub proof fn ascends_is_ascending(s: Seq<Text>)
    requires
        ascends(s),
    ensures
        ascending(s.to_set()) == s,
{
    let t = ascending(s.to_set());
    assert(ascends(s) && s.to_set() == s.to_set());
    ascending_is_unique(t, s);
}

/// How many elements of the ascending `ids` come before `id`.
fn place_of(ids: &Vec<String>, id: &str) -> (r: usize)
    requires
        ascends(ids.deep_view()),
    ensures
        r <= ids@.len(),
        forall|i: int| 0 <= i < r ==> text_lt(#[trigger] ids.deep_view()[i], id@),
        forall|i: int| r <= i < ids@.len() ==> !text_lt(#[trigger] ids.deep_view()[i], id@),
        ids.deep_view().contains(id@) <==> (r < ids@.len() && ids.deep_view()[r as int] == id@),
{
    let ghost s = ids.deep_view();
    let mut at: usize = 0;
    while at < ids.len() && text_less(ids[at].as_str(), id)
        invariant
            at <= ids@.len(),
            s == ids.deep_view(),
            forall|i: int| 0 <= i < at ==> text_lt(#[trigger] s[i], id@),
        decreases ids@.len() - at,
    {
        assert(s[at as int] == ids@[at as int]@);
        at += 1;
    }
    proof {
        assert forall|i: int| at <= i < s.len() implies !text_lt(#[trigger] s[i], id@) by {
            assert(s[at as int] == ids@[at as int]@);
            if text_lt(s[i], id@) && i > at {
                assert(text_lt(s[at as int], s[i]));
                text_lt_transitive(s[at as int], s[i], id@);
            }
        }
        if s.contains(id@) {
            let k = choose|k: int| 0 <= k < s.len() && s[k] == id@;
            text_lt_irreflexive(id@);
            assert(k >= at);
            if k > at {
                assert(text_lt(s[at as int], s[k]));
            }
        }
    }
    at
}

proof fn insert_keeps_order(s: Seq<Text>, at: int, id: Text)
    requires
        ascends(s),
        0 <= at <= s.len(),
        forall|i: int| 0 <= i < at ==> text_lt(#[trigger] s[i], id),
        forall|i: int| at <= i < s.len() ==> !text_lt(#[trigger] s[i], id),
        !s.contains(id),
    ensures
        ascends(s.insert(at, id)),
        s.insert(at, id).to_set() == s.to_set().insert(id),
{
    let t = s.insert(at, id);
    assert forall|i: int, j: int| 0 <= i < j < t.len() implies #[trigger] text_lt(t[i], t[j]) by {
        if i == at {
            assert(t[j] == s[j - 1]);
            text_lt_total(id, s[j - 1]);
        } else if j == at {
            assert(t[i] == s[i]);
        } else {
            let x = if i < at { i } else { i - 1 };
            let y = if j < at { j } else { j - 1 };
            assert(text_lt(s[x], s[y]));
        }
    }
    assert forall|x: Text| t.to_set().contains(x) == s.to_set().insert(id).contains(x) by {
        if t.contains(x) {
            let k = choose|k: int| 0 <= k < t.len() && t[k] == x;
            if k < at {
                assert(s[k] == x);
            } else if k > at {
                assert(s[k - 1] == x);
            }
        }
        if s.contains(x) {
            let k = choose|k: int| 0 <= k < s.len() && s[k] == x;
            if k < at {
                assert(t[k] == x);
            } else {
                assert(t[k + 1] == x);
            }
        }
        assert(t[at] == id);
    }
    assert(t.to_set() =~= s.to_set().insert(id));
}

proof fn remove_keeps_order(s: Seq<Text>, at: int)
    requires
        ascends(s),
        0 <= at < s.len(),
    ensures
        ascends(s.remove(at)),
        s.remove(at).to_set() == s.to_set().remove(s[at]),
{
    let t = s.remove(at);
    let id = s[at];
    assert forall|i: int, j: int| 0 <= i < j < t.len() implies #[trigger] text_lt(t[i], t[j]) by {
        let x = if i < at { i } else { i + 1 };
        let y = if j < at { j } else { j + 1 };
        assert(text_lt(s[x], s[y]));
    }
    assert forall|x: Text| t.to_set().contains(x) == s.to_set().remove(id).contains(x) by {
        if t.contains(x) {
            let k = choose|k: int| 0 <= k < t.len() && t[k] == x;
            let m = if k < at { k } else { k + 1 };
            assert(s[m] == x);
            if x == id {
                if m < at {
                    assert(text_lt(s[m], s[at]));
                } else {
                    assert(text_lt(s[at], s[m]));
                }
                text_lt_irreflexive(id);
            }
        }
        if s.contains(x) && x != id {
            let k = choose|k: int| 0 <= k < s.len() && s[k] == x;
            if k < at {
                assert(t[k] == x);
            } else {
                assert(t[k - 1] == x);
            }
        }
    }
    assert(t.to_set() =~= s.to_set().remove(id));
}

spec fn place_from(s: Seq<Text>, id: Text, at: int) -> int
    decreases s.len() - at,
{
    if at < 0 || at >= s.len() || !text_lt(s[at], id) {
        at
    } else {
        place_from(s, id, at + 1)
    }
}

proof fn place_facts(s: Seq<Text>, id: Text, at: int)
    requires
        ascends(s),
        0 <= at <= s.len(),
        forall|i: int| 0 <= i < at ==> text_lt(#[trigger] s[i], id),
    ensures
        ({
            let p = place_from(s, id, at);
            &&& at <= p <= s.len()
            &&& forall|i: int| 0 <= i < p ==> text_lt(#[trigger] s[i], id)
            &&& forall|i: int| p <= i < s.len() ==> !text_lt(#[trigger] s[i], id)
        }),
    decreases s.len() - at,
{
    if at < s.len() && text_lt(s[at], id) {
        place_facts(s, id, at + 1);
    } else if at < s.len() {
        assert forall|i: int| at <= i < s.len() implies !text_lt(#[trigger] s[i], id) by {
            if i > at && text_lt(s[i], id) {
                assert(text_lt(s[at], s[i]));
                text_lt_transitive(s[at], s[i], id);
            }
        }
    }
}

/// What a list holds can be put in ascending order.
pub proof fn ascending_exists(names: Seq<Text>)
    ensures
        ascends(ascending(names.to_set())),
        ascending(names.to_set()).to_set() == names.to_set(),
    decreases names.len(),
{
    if names.len() == 0 {
        let none = Seq::<Text>::empty();
        assert(none.to_set() =~= names.to_set());
        assert(ascends(none) && none.to_set() == names.to_set());
    } else {
        let front = names.drop_last();
        let id = names.last();
        ascending_exists(front);
        let s = ascending(front.to_set());
        assert(names.take(front.len() as int) =~= front);
        assert(names.take(front.len() as int + 1) =~= names);
        take_one_more(names, front.len() as int);
        if s.contains(id) {
            assert(s.to_set().contains(id));
            assert(names.to_set() =~= front.to_set());
            assert(ascends(s) && s.to_set() == names.to_set());
        } else {
            let p = place_from(s, id, 0);
            place_facts(s, id, 0);
            insert_keeps_order(s, p, id);
            let t = s.insert(p, id);
            assert(ascends(t) && t.to_set() == names.to_set());
        }
    }
}

/// A set of identifiers, held in ascending order.
pub struct IdSet {
    ids: Vec<String>,
}

impl View for IdSet {
    type V = Set<Text>;

    closed spec fn view(&self) -> Set<Text> {
        self.ids.deep_view().to_set()
    }
}

impl DeepView for IdSet {
    type V = Set<Text>;

    open spec fn deep_view(&self) -> Set<Text> {
        self@
    }
}

impl IdSet {
    #[verifier::type_invariant]
    spec fn inv(self) -> bool {
        ascends(self.ids.deep_view())
    }

    /// The set that holds nothing.
    pub fn new() -> (r: IdSet)
        ensures
            r@ == Set::<Text>::empty(),
    {
        let ids: Vec<String> = Vec::new();
        assert(ids.deep_view().to_set() =~= Set::<Text>::empty());
        IdSet { ids }
    }

    /// How many identifiers the set holds.
    pub fn len(&self) -> (r: usize)
        ensures
            r == ascending(self@).len(),
            ascending(self@).to_set() == self@,
            ascends(ascending(self@)),
    {
        proof {
            use_type_invariant(self);
            ascends_is_ascending(self.ids.deep_view());
        }
        self.ids.len()
    }

    /// Whether the set holds nothing.
    pub fn is_empty(&self) -> (r: bool)
        ensures
            r == (self@ == Set::<Text>::empty()),
    {
        proof {
            if self.ids@.len() == 0 {
                assert(self.ids.deep_view().to_set() =~= Set::<Text>::empty());
            } else {
                assert(self.ids.deep_view()[0] == self.ids@[0]@);
                assert(self@.contains(self.ids.deep_view()[0]));
            }
        }
        self.ids.len() == 0
    }

    /// The identifier at `index` in ascending order.
    pub fn get(&self, index: usize) -> (r: Option<&String>)
        ensures
            r is Some <==> index < ascending(self@).len(),
            r matches Some(id) ==> id@ == ascending(self@)[index as int],
    {
        proof {
            use_type_invariant(self);
            ascends_is_ascending(self.ids.deep_view());
        }
        if index < self.ids.len() {
            Some(&self.ids[index])
        } else {
            None
        }
    }

    /// Whether `id` is in the set.
    pub fn contains(&self, id: &str) -> (r: bool)
        ensures
            r == self@.contains(id@),
    {
        proof {
            use_type_invariant(self);
        }
        let at = place_of(&self.ids, id);
        if at < self.ids.len() && same_text(self.ids[at].as_str(), id) {
            assert(self.ids.deep_view()[at as int] == id@);
            true
        } else {
            false
        }
    }

    /// Adds `id`; whether it was not there before.
    pub fn insert(&mut self, id: String) -> (r: bool)
        ensures
            final(self)@ == old(self)@.insert(id@),
            r == !old(self)@.contains(id@),
    {
        proof {
            use_type_invariant(&*self);
        }
        let ghost before = self.ids.deep_view();
        let at = place_of(&self.ids, id.as_str());
        if at < self.ids.len() && same_text(self.ids[at].as_str(), id.as_str()) {
            assert(before[at as int] == id@);
            assert(self@ =~= old(self)@.insert(id@));
            return false;
        }
        assert(at < before.len() ==> before[at as int] == self.ids@[at as int]@);
        let mut ids: Vec<String> = Vec::new();
        core::mem::swap(&mut ids, &mut self.ids);
        let ghost name = id@;
        ids.insert(at, id);
        proof {
            assert(ids.deep_view() =~= before.insert(at as int, name));
            insert_keeps_order(before, at as int, name);
        }
        self.ids = ids;
        true
    }

    /// Takes `id` out; whether it was there.
    pub fn remove(&mut self, id: &str) -> (r: bool)
        ensures
            final(self)@ == old(self)@.remove(id@),
            r == old(self)@.contains(id@),
    {
        proof {
            use_type_invariant(&*self);
        }
        let ghost before = self.ids.deep_view();
        let at = place_of(&self.ids, id);
        if at < self.ids.len() && same_text(self.ids[at].as_str(), id) {
            assert(before[at as int] == id@);
            let mut ids: Vec<String> = Vec::new();
            core::mem::swap(&mut ids, &mut self.ids);
            ids.remove(at);
            proof {
                assert(ids.deep_view() =~= before.remove(at as int));
                remove_keeps_order(before, at as int);
            }
            self.ids = ids;
            true
        } else {
            assert(at < before.len() ==> before[at as int] == self.ids@[at as int]@);
            assert(self@ =~= old(self)@.remove(id@));
            false
        }
    }

    /// Adds every string of `ids`.
    pub fn extend(&mut self, ids: &Vec<String>)
        ensures
            final(self)@ == old(self)@.union(ids.deep_view().to_set()),
    {
        let mut i: usize = 0;
        assert(self@ =~= old(self)@.union(ids.deep_view().take(0).to_set()));
        while i < ids.len()
            invariant
                i <= ids@.len(),
                self@ == old(self)@.union(ids.deep_view().take(i as int).to_set()),
            decreases ids@.len() - i,
        {
            let ghost all = ids.deep_view();
            self.insert(ids[i].clone());
            proof {
                take_one_more(all, i as int);
                assert(self@ =~= old(self)@.union(all.take(i + 1).to_set()));
            }
            i += 1;
        }
        assert(ids.deep_view().take(ids@.len() as int) =~= ids.deep_view());
    }

    /// The set of the strings of `ids`.
    pub fn from_texts(ids: &Vec<String>) -> (r: IdSet)
        ensures
            r@ == ids.deep_view().to_set(),
    {
        let mut r = IdSet::new();
        r.extend(ids);
        assert(r@ =~= ids.deep_view().to_set());
        r
    }

    /// The identifiers in ascending order.
    pub fn to_texts(&self) -> (r: Vec<String>)
        ensures
            r.deep_view() == ascending(self@),
            ascending(self@).to_set() == self@,
            ascends(ascending(self@)),
    {
        proof {
            use_type_invariant(self);
            ascends_is_ascending(self.ids.deep_view());
        }
        crate::text::clone_texts(&self.ids)
    }
}

impl Clone for IdSet {
    fn clone(&self) -> (r: IdSet)
        ensures
            r@ == self@,
    {
        proof {
            use_type_invariant(self);
        }
        IdSet { ids: crate::text::clone_texts(&self.ids) }
    }
}

/// One more element taken adds it to the set.
pub proof fn take_one_more(s: Seq<Text>, i: int)
    requires
        0 <= i < s.len(),
    ensures
        s.take(i + 1).to_set() == s.take(i).to_set().insert(s[i]),
{
    let a = s.take(i + 1);
    let b = s.take(i);
    assert forall|x: Text| a.to_set().contains(x) == b.to_set().insert(s[i]).contains(x) by {
        if a.contains(x) {
            let k = choose|k: int| 0 <= k < a.len() && a[k] == x;
            if k < i {
                assert(b[k] == x);
            }
        }
        if b.contains(x) {
            let k = choose|k: int| 0 <= k < b.len() && b[k] == x;
            assert(a[k] == x);
        }
        assert(a[i] == s[i]);
    }
    assert(a.to_set() =~= b.to_set().insert(s[i]));
}

/// The strings of `ids` in ascending order, each once.
pub fn sorted_unique(ids: &Vec<String>) -> (r: Vec<String>)
    ensures
        r.deep_view() == ascending(ids.deep_view().to_set()),
        r.deep_view().to_set() == ids.deep_view().to_set(),
        ascends(r.deep_view()),
{
    IdSet::from_texts(ids).to_texts()
}

/// A map from identifiers, held in ascending order of the identifiers.
pub struct IdMap<V> {
    keys: Vec<String>,
    values: Vec<V>,
}

/// The map that gives `values[i]` for `keys[i]`.
pub open spec fn zipped<V>(keys: Seq<Text>, values: Seq<V>) -> Map<Text, V> {
    Map::new(|k: Text| keys.contains(k), |k: Text| values[keys.index_of(k)])
}

impl<V> View for IdMap<V> {
    type V = Map<Text, V>;

    closed spec fn view(&self) -> Map<Text, V> {
        zipped(self.keys.deep_view(), self.values@)
    }
}

proof fn index_of_in_order(s: Seq<Text>, at: int)
    requires
        ascends(s),
        0 <= at < s.len(),
    ensures
        s.index_of(s[at]) == at,
        s.contains(s[at]),
{
    let k = s.index_of(s[at]);
    assert(0 <= k < s.len() && s[k] == s[at]);
    if k < at {
        assert(text_lt(s[k], s[at]));
        text_lt_irreflexive(s[at]);
    } else if at < k {
        assert(text_lt(s[at], s[k]));
        text_lt_irreflexive(s[at]);
    }
}

impl<V> IdMap<V> {
    #[verifier::type_invariant]
    spec fn inv(self) -> bool {
        ascends(self.keys.deep_view()) && self.keys@.len() == self.values@.len()
    }

    /// The map that holds nothing.
    pub fn new() -> (r: IdMap<V>)
        ensures
            r@ == Map::<Text, V>::empty(),
    {
        let r = IdMap { keys: Vec::new(), values: Vec::new() };
        assert(r@ =~= Map::<Text, V>::empty());
        r
    }

    /// How many identifiers the map holds.
    pub fn len(&self) -> (r: usize)
        ensures
            r == ascending(self@.dom()).len(),
            ascending(self@.dom()).to_set() == self@.dom(),
    {
        proof {
            use_type_invariant(self);
            ascends_is_ascending(self.keys.deep_view());
            assert(self@.dom() =~= self.keys.deep_view().to_set());
        }
        self.keys.len()
    }

    /// The identifier at `index` in ascending order, with what it maps to.
    pub fn entry(&self, index: usize) -> (r: Option<(&String, &V)>)
        ensures
            r is Some <==> index < ascending(self@.dom()).len(),
            r matches Some(e) ==> e.0@ == ascending(self@.dom())[index as int] && self@.contains_key(
                e.0@,
            ) && *e.1 == self@[e.0@],
    {
        proof {
            use_type_invariant(self);
            ascends_is_ascending(self.keys.deep_view());
            assert(self@.dom() =~= self.keys.deep_view().to_set());
        }
        if index < self.keys.len() {
            proof {
                assert(self.keys.deep_view()[index as int] == self.keys@[index as int]@);
                index_of_in_order(self.keys.deep_view(), index as int);
            }
            Some((&self.keys[index], &self.values[index]))
        } else {
            None
        }
    }

    /// What `id` maps to.
    pub fn get(&self, id: &str) -> (r: Option<&V>)
        ensures
            r is Some <==> self@.contains_key(id@),
            r matches Some(v) ==> *v == self@[id@],
    {
        proof {
            use_type_invariant(self);
        }
        let at = place_of(&self.keys, id);
        if at < self.keys.len() && same_text(self.keys[at].as_str(), id) {
            proof {
                assert(self.keys.deep_view()[at as int] == id@);
                index_of_in_order(self.keys.deep_view(), at as int);
            }
            Some(&self.values[at])
        } else {
            assert(at < self.keys@.len() ==> self.keys.deep_view()[at as int]
                == self.keys@[at as int]@);
            None
        }
    }

    /// Maps `id` to `value`, in place of what it mapped to before.
    pub fn insert(&mut self, id: String, value: V)
        ensures
            final(self)@ == old(self)@.insert(id@, value),
    {
        proof {
            use_type_invariant(&*self);
        }
        let ghost before = self.keys.deep_view();
        let ghost held = self.values@;
        let ghost name = id@;
        let at = place_of(&self.keys, id.as_str());
        let mut fresh: IdMap<V> = IdMap::new();
        core::mem::swap(&mut fresh, self);
        let IdMap { mut keys, mut values } = fresh;
        if at < keys.len() && same_text(keys[at].as_str(), id.as_str()) {
            assert(before[at as int] == id@);
            values.set(at, value);
            *self = IdMap { keys, values };
            proof {
                index_of_in_order(before, at as int);
                assert forall|k: Text| self@.contains_key(k) implies self@[k] == old(self)@.insert(
                    name,
                    value,
                )[k] by {
                    let m = before.index_of(k);
                    assert(0 <= m < before.len() && before[m] == k);
                }
                assert(self@ =~= old(self)@.insert(name, value));
            }
            return ;
        }
        assert(at < before.len() ==> before[at as int] == keys@[at as int]@);
        keys.insert(at, id);
        values.insert(at, value);
        proof {
            assert(keys.deep_view() =~= before.insert(at as int, name));
            insert_keeps_order(before, at as int, name);
        }
        *self = IdMap { keys, values };
        proof {
            let after = before.insert(at as int, name);
            assert(after[at as int] == name);
            assert forall|k: Text| #[trigger] self@.contains_key(k) == old(self)@.insert(
                name,
                value,
            ).contains_key(k) by {
                assert(after.to_set().contains(k) == before.to_set().insert(name).contains(k));
            }
            assert forall|k: Text| self@.contains_key(k) implies self@[k] == old(self)@.insert(
                name,
                value,
            )[k] by {
                let m = after.index_of(k);
                assert(0 <= m < after.len() && after[m] == k);
                if m == at {
                } else {
                    let o = if m < at { m } else { m - 1 };
                    assert(before[o] == k);
                    index_of_in_order(before, o);
                    if k == name {
                        assert(before.contains(name));
                    }
                }
            }
            assert(self@ =~= old(self)@.insert(name, value));
        }
    }

    /// Takes `id` out of the map.
    pub fn remove(&mut self, id: &str)
        ensures
            final(self)@ == old(self)@.remove(id@),
    {
        proof {
            use_type_invariant(&*self);
        }
        let ghost before = self.keys.deep_view();
        let at = place_of(&self.keys, id);
        if at < self.keys.len() && same_text(self.keys[at].as_str(), id) {
            assert(before[at as int] == id@);
            let mut fresh: IdMap<V> = IdMap::new();
            core::mem::swap(&mut fresh, self);
            let IdMap { mut keys, mut values } = fresh;
            keys.remove(at);
            values.remove(at);
            proof {
                assert(keys.deep_view() =~= before.remove(at as int));
                remove_keeps_order(before, at as int);
            }
            *self = IdMap { keys, values };
            proof {
                let after = before.remove(at as int);
                assert forall|k: Text| #[trigger] self@.contains_key(k) == old(self)@.remove(
                    id@,
                ).contains_key(k) by {
                    assert(after.to_set().contains(k) == before.to_set().remove(id@).contains(k));
                }
                assert forall|k: Text| self@.contains_key(k) implies self@[k] == old(self)@.remove(
                    id@,
                )[k] by {
                    let m = after.index_of(k);
                    assert(0 <= m < after.len() && after[m] == k);
                    let o = if m < at { m } else { m + 1 };
                    assert(before[o] == k);
                    index_of_in_order(before, o);
                }
                assert(self@ =~= old(self)@.remove(id@));
            }
        } else {
            assert(at < before.len() ==> before[at as int] == self.keys@[at as int]@);
            assert(self@ =~= old(self)@.remove(id@));
        }
    }
}

}
