//! Laws of paths: where temporary data lies.
use crate::catalog::ArtifactView;
use crate::download::{ranges_of, safe_id, target_dir, target_of, temp_dir_of};
use crate::paths::{
    begins_here, body_start, components_of, counted, counts, head_of, if_there, joined_path,
    lies_under, network_prefix, pieces, prefix_bounds, prefix_lengths, prefix_of, prefix_text,
    resolved, root_text, root_written, segment_end, separators_of, usual_separators, written,
    Prefix, Separators,
};
use crate::text::Text;
use vstd::prelude::*;

verus! {

proof fn counted_concat(s: Separators, a: Seq<Text>, b: Seq<Text>)
    ensures
        counted(s, a + b) == counted(s, a) + counted(s, b),
    decreases b.len(),
{
    if b.len() == 0 {
        assert(a + b =~= a);
        assert(counted(s, a) + counted(s, b) =~= counted(s, a));
    } else {
        counted_concat(s, a, b.drop_last());
        assert((a + b).drop_last() =~= a + b.drop_last());
        assert((a + b).last() == b.last());
        assert(counted(s, a + b) =~= counted(s, a) + counted(s, b));
    }
}

proof fn pieces_not_empty(s: Separators, x: Text)
    ensures
        pieces(s, x).len() >= 1,
    decreases x.len(),
{
    if x.len() > 0 {
        pieces_not_empty(s, x.drop_last());
    }
}

proof fn pieces_concat(s: Separators, x: Text, c: char, y: Text)
    requires
        s.has(c),
    ensures
        pieces(s, x + seq![c] + y) == pieces(s, x) + pieces(s, y),
    decreases y.len(),
{
    pieces_not_empty(s, x);
    pieces_not_empty(s, y);
    let all = x + seq![c] + y;
    if y.len() == 0 {
        assert(all.drop_last() =~= x);
        assert(all.last() == c);
        assert(pieces(s, all) =~= pieces(s, x) + pieces(s, y));
    } else {
        pieces_concat(s, x, c, y.drop_last());
        assert(all.drop_last() =~= x + seq![c] + y.drop_last());
        assert(all.last() == y.last());
        let before = pieces(s, x) + pieces(s, y.drop_last());
        pieces_not_empty(s, y.drop_last());
        assert(before.last() == pieces(s, y.drop_last()).last());
        assert(before.drop_last() =~= pieces(s, x) + pieces(s, y.drop_last()).drop_last());
        assert(pieces(s, all) =~= pieces(s, x) + pieces(s, y));
    }
}

/// `t` has no separator in it.
spec fn whole(s: Separators, t: Text) -> bool {
    forall|i: int| 0 <= i < t.len() ==> !s.has(#[trigger] t[i])
}

proof fn whole_is_one_piece(s: Separators, t: Text)
    requires
        whole(s, t),
    ensures
        pieces(s, t) == seq![t],
    decreases t.len(),
{
    if t.len() > 0 {
        let front = t.drop_last();
        assert(whole(s, front)) by {
            assert forall|i: int| 0 <= i < front.len() implies !s.has(#[trigger] front[i]) by {
                assert(!s.has(t[i]));
            }
        }
        whole_is_one_piece(s, front);
        assert(!s.has(t[t.len() - 1]));
        assert(front.push(t.last()) =~= t);
        assert(pieces(s, t) =~= seq![t]);
    } else {
        assert(t =~= Seq::<char>::empty());
    }
}

proof fn pieces_are_whole(s: Separators, t: Text, i: int)
    requires
        0 <= i < pieces(s, t).len(),
    ensures
        whole(s, pieces(s, t)[i]),
    decreases t.len(),
{
    if t.len() > 0 {
        let before = pieces(s, t.drop_last());
        pieces_not_empty(s, t.drop_last());
        if s.has(t.last()) {
            if i < before.len() {
                pieces_are_whole(s, t.drop_last(), i);
            }
        } else if i < before.len() - 1 {
            pieces_are_whole(s, t.drop_last(), i);
        } else {
            pieces_are_whole(s, t.drop_last(), i);
        }
    }
}

proof fn counted_are_whole(s: Separators, all: Seq<Text>, i: int)
    requires
        forall|k: int| 0 <= k < all.len() ==> whole(s, #[trigger] all[k]),
        0 <= i < counted(s, all).len(),
    ensures
        whole(s, counted(s, all)[i]),
        counts(s, counted(s, all)[i]),
    decreases all.len(),
{
    if all.len() > 0 {
        let front = all.drop_last();
        assert forall|k: int| 0 <= k < front.len() implies whole(s, #[trigger] front[k]) by {
            assert(whole(s, all[k]));
        }
        assert(whole(s, all[all.len() - 1]));
        if i < counted(s, front).len() {
            counted_are_whole(s, front, i);
        }
    }
}

proof fn body_is_whole(s: Separators, t: Text, i: int)
    requires
        0 <= i < counted(s, pieces(s, t)).len(),
    ensures
        whole(s, counted(s, pieces(s, t))[i]),
        counts(s, counted(s, pieces(s, t))[i]),
{
    let all = pieces(s, t);
    assert forall|k: int| 0 <= k < all.len() implies whole(s, #[trigger] all[k]) by {
        pieces_are_whole(s, t, k);
    }
    counted_are_whole(s, all, i);
}

proof fn nothing_counts(s: Separators)
    ensures
        counted(s, pieces(s, Seq::empty())) == Seq::<Text>::empty(),
{
    let one = seq![Seq::<char>::empty()];
    assert(pieces(s, Seq::empty()) =~= one);
    assert(one.drop_last() =~= Seq::<Text>::empty());
    reveal_with_fuel(counted, 2);
}

/// No further segments can change what `p` begins with. A drive never changes; a server without a
/// share becomes the beginning of one.
pub open spec fn settled(windows: bool, p: Text) -> bool {
    let (form, n) = prefix_of(windows, p);
    let server = segment_end(Separators::Both, p, 2);
    match form {
        Prefix::Nothing => !windows || p.len() < 2 || !(Separators::Both.has(p[0])
            && Separators::Both.has(p[1])) || (p.len() > 2 && server == 2) || server + 1 < p.len(),
        Prefix::Disk | Prefix::Share | Prefix::VerbatimDisk => true,
        Prefix::Device => p.len() > 4,
        Prefix::Verbatim => p != "\\\\?\\UNC"@,
        Prefix::VerbatimShare => n > segment_end(Separators::Backslash, p, 8),
    }
}

proof fn segment_end_kept(s: Separators, p: Text, q: Text, from: int, e: int)
    requires
        0 <= from <= e <= p.len(),
        e == segment_end(s, p, from),
        e < q.len(),
        s.has(q[e]),
        forall|i: int| from <= i < e ==> p[i] == #[trigger] q[i],
    ensures
        segment_end(s, q, from) == e,
    decreases e - from,
{
    if from < e {
        assert(p[from] == q[from]);
        segment_end_kept(s, p, q, from + 1, e);
    }
}

proof fn segment_end_facts(s: Separators, p: Text, from: int)
    requires
        0 <= from <= p.len(),
    ensures
        from <= segment_end(s, p, from) <= p.len(),
        segment_end(s, p, from) < p.len() ==> s.has(p[segment_end(s, p, from)]),
    decreases p.len() - from,
{
    if from < p.len() && !s.has(p[from]) {
        segment_end_facts(s, p, from + 1);
    }
}

/// What begins as a settled path does, and goes on with a separator where its prefix ends, has the
/// same prefix.
proof fn network_prefix_kept(p: Text, q: Text)
    requires
        p.len() >= 2,
        Separators::Both.has(p[0]),
        Separators::Both.has(p[1]),
        settled(true, p),
        prefix_of(true, p).0 != Prefix::Nothing,
        q.len() > prefix_of(true, p).1,
        prefix_of(true, p).0.verbatim() ==> q[prefix_of(true, p).1] == '\\',
        Separators::Both.has(q[prefix_of(true, p).1]),
        forall|i: int| 0 <= i < prefix_of(true, p).1 ==> p[i] == #[trigger] q[i],
    ensures
        prefix_of(true, q) == prefix_of(true, p),
{
    let (form, n) = network_prefix(p);
    let back = Separators::Backslash;
    let both = Separators::Both;
    prefix_lengths(p);
    prefix_bounds(true, p);
    assert(p[0] == q[0] && p[1] == q[1]);
    match form {
        Prefix::VerbatimShare => {
            assert(p[2] == q[2] && p[3] == q[3] && p[4] == q[4] && p[5] == q[5] && p[6] == q[6]
                && p[7] == q[7]);
            segment_end_facts(back, p, 8);
            let server = segment_end(back, p, 8);
            segment_end_facts(back, p, server + 1);
            assert(p[server] == q[server]);
            segment_end_kept(back, p, q, 8, server);
            segment_end_kept(back, p, q, server + 1, n);
        },
        Prefix::VerbatimDisk => {
            assert(p[2] == q[2] && p[3] == q[3] && p[4] == q[4] && p[5] == q[5]);
        },
        Prefix::Verbatim => {
            reveal_strlit("\\\\?\\UNC");
            assert(p[2] == q[2] && p[3] == q[3]);
            segment_end_facts(back, p, 4);
            segment_end_kept(back, p, q, 4, n);
            if q.len() >= 8 && q[4] == 'U' && q[5] == 'N' && q[6] == 'C' && both.has(q[7]) {
                if n > 7 {
                    assert(p[4] == q[4] && p[5] == q[5] && p[6] == q[6] && p[7] == q[7]);
                } else if n == 7 {
                    assert(p[4] == q[4] && p[5] == q[5] && p[6] == q[6]);
                    if p.len() > 7 {
                        assert(back.has(p[7]));
                    } else {
                        assert(p =~= "\\\\?\\UNC"@);
                    }
                } else {
                    assert(back.has(q[n]));
                }
            }
            if q.len() >= 6 && q[4] != '\\' && q[5] == ':' {
                if n > 6 {
                    assert(p[4] == q[4] && p[5] == q[5] && p[6] == q[6]);
                } else if n == 6 {
                    assert(p[4] == q[4] && p[5] == q[5]);
                } else {
                    assert(back.has(q[n]));
                }
            }
        },
        Prefix::Device => {
            assert(p[2] == q[2] && p[3] == q[3]);
            segment_end_facts(both, p, 4);
            segment_end_kept(both, p, q, 4, n);
        },
        _ => {
            segment_end_facts(both, p, 2);
            let server = segment_end(both, p, 2);
            segment_end_facts(both, p, server + 1);
            assert(p[server] == q[server]);
            segment_end_kept(both, p, q, 2, server);
            segment_end_kept(both, p, q, server + 1, n);
            assert(p[2] == q[2] && p[3] == q[3]);
        },
    }
}

/// What begins with all of a settled path has the same prefix, where a separator follows it or it
/// ends with one.
proof fn usual_prefix_kept(windows: bool, p: Text, more: Text)
    requires
        settled(windows, p),
        !prefix_of(windows, p).0.verbatim(),
        more.len() > 0 && p.len() > 0 ==> usual_separators(windows).has(p.last())
            || usual_separators(windows).has(more[0]) || (prefix_of(windows, p) == (
        Prefix::Disk,
        p.len() as int,
    )),
        p.len() == 1 && usual_separators(windows).has(p[0]) && more.len() > 0
            ==> !usual_separators(windows).has(more[0]),
        p.len() == 0 ==> prefix_of(windows, more).0 == Prefix::Nothing,
    ensures
        prefix_of(windows, p + more) == prefix_of(windows, p),
{
    let q = p + more;
    if windows && p.len() > 0 && more.len() > 0 {
        prefix_bounds(true, p);
        prefix_lengths(p);
        let (form, n) = prefix_of(true, p);
        let both = Separators::Both;
        if p.len() >= 2 && both.has(p[0]) && both.has(p[1]) {
            if form != Prefix::Nothing {
                if n == p.len() {
                    if form == Prefix::Device {
                        segment_end_facts(both, p, 4);
                        segment_ends_whole(both, p, 4);
                    } else {
                        segment_end_facts(both, p, 2);
                        let server = segment_end(both, p, 2);
                        segment_end_facts(both, p, server + 1);
                        segment_ends_whole(both, p, server + 1);
                    }
                } else if form == Prefix::Device {
                    segment_end_facts(both, p, 4);
                } else {
                    segment_end_facts(both, p, 2);
                    let server = segment_end(both, p, 2);
                    segment_end_facts(both, p, server + 1);
                }
                network_prefix_kept(p, q);
            } else {
                let server = segment_end(both, p, 2);
                segment_end_facts(both, p, 2);
                segment_end_kept(both, p, q, 2, server);
                assert(p.len() >= 4 ==> p[3] == q[3]);
                assert(p[2] == q[2]);
                if server + 1 < p.len() {
                    segment_end_facts(both, p, server + 1);
                    assert(p[server + 1] == q[server + 1]);
                }
                if p.len() == 3 {
                    assert(server == 2);
                }
            }
        }
    } else if more.len() == 0 {
        assert(q =~= p);
    } else if p.len() == 0 {
        assert(q =~= more);
        assert(prefix_of(windows, p) == (Prefix::Nothing, 0int));
        prefix_bounds(windows, more);
    }
}

/// A segment that ends with the text has no separator at its end.
proof fn segment_ends_whole(s: Separators, p: Text, from: int)
    requires
        0 <= from < p.len(),
        segment_end(s, p, from) == p.len(),
    ensures
        !s.has(p.last()),
    decreases p.len() - from,
{
    if from + 1 < p.len() {
        segment_ends_whole(s, p, from + 1);
    }
}

/// What goes on after the prefix of `base` has the same before its body.
proof fn head_kept(windows: bool, base: Text, more: Text)
    requires
        prefix_of(windows, base + more) == prefix_of(windows, base),
        prefix_of(windows, base).1 < base.len(),
        more.len() > 0 ==> usual_separators(windows).has(base.last()) || usual_separators(
            windows,
        ).has(more[0]),
    ensures
        body_start(windows, base + more) == body_start(windows, base),
        separators_of(windows, base + more) == separators_of(windows, base),
        head_of(windows, base + more) == head_of(windows, base),
{
    let all = base + more;
    let (form, n) = prefix_of(windows, base);
    prefix_bounds(windows, base);
    assert(all[n] == base[n]);
    assert(root_written(windows, all) == root_written(windows, base));
    if n + 1 < base.len() {
        assert(all[n + 1] == base[n + 1]);
    }
    assert(begins_here(windows, all) == begins_here(windows, base));
    prefix_text_kept(windows, base, more);
}

proof fn prefix_text_kept(windows: bool, base: Text, more: Text)
    ensures
        ({
            let (form, n) = prefix_of(windows, base);
            prefix_text(form, base + more, n) == prefix_text(form, base, n)
        }),
{
    let (form, n) = prefix_of(windows, base);
    prefix_bounds(windows, base);
    prefix_lengths(base);
    assert((base + more).take(n) =~= base.take(n));
    if form == Prefix::VerbatimDisk {
        assert((base + more)[4] == base[4]);
    }
    if form == Prefix::Disk {
        assert((base + more)[0] == base[0]);
    }
}

proof fn components_extend(windows: bool, base: Text, more: Text)
    requires
        body_start(windows, base + more) == body_start(windows, base),
        0 <= body_start(windows, base) <= base.len(),
        base.len() > 0,
        separators_of(windows, base + more) == separators_of(windows, base),
        head_of(windows, base + more) == head_of(windows, base),
        separators_of(windows, base).has(base.last()) || more.len() > 0 && separators_of(
            windows,
            base,
        ).has(more[0]),
    ensures
        lies_under(windows, base + more, base),
{
    let all = base + more;
    let s = separators_of(windows, base);
    let head = head_of(windows, base);
    let start = body_start(windows, base);
    let body = base.skip(start);
    nothing_counts(s);
    if s.has(base.last()) && body.len() == 0 {
        assert(body =~= Seq::<char>::empty());
        assert(components_of(windows, base) =~= head);
        assert(components_of(windows, all).take(head.len() as int) =~= head);
    } else if s.has(base.last()) {
        let x = body.drop_last();
        let c = body.last();
        assert(c == base.last());
        assert(body =~= x + seq![c] + Seq::<char>::empty());
        assert(all.skip(start) =~= x + seq![c] + more);
        pieces_concat(s, x, c, Seq::empty());
        pieces_concat(s, x, c, more);
        counted_concat(s, pieces(s, x), pieces(s, Seq::empty()));
        counted_concat(s, pieces(s, x), pieces(s, more));
        assert(components_of(windows, base) =~= head + counted(s, pieces(s, x)));
        assert(components_of(windows, all) =~= components_of(windows, base) + counted(
            s,
            pieces(s, more),
        ));
        assert(components_of(windows, all).take(components_of(windows, base).len() as int)
            =~= components_of(windows, base));
    } else {
        let c = more[0];
        let rest = more.skip(1);
        assert(all.skip(start) =~= body + seq![c] + rest);
        pieces_concat(s, body, c, rest);
        counted_concat(s, pieces(s, body), pieces(s, rest));
        assert(components_of(windows, all) =~= components_of(windows, base) + counted(
            s,
            pieces(s, rest),
        ));
        assert(components_of(windows, all).take(components_of(windows, base).len() as int)
            =~= components_of(windows, base));
    }
}

/// What follows a path that is only a prefix lies under it.
proof fn bare_prefix_extends(windows: bool, base: Text, more: Text)
    requires
        prefix_of(windows, base + more) == prefix_of(windows, base),
        prefix_of(windows, base).1 == base.len(),
        !prefix_of(windows, base).0.verbatim(),
    ensures
        lies_under(windows, base + more, base),
{
    let all = base + more;
    let (form, n) = prefix_of(windows, base);
    let s = separators_of(windows, base);
    prefix_bounds(windows, base);
    prefix_bounds(windows, all);
    nothing_counts(s);
    let one = if_there(form != Prefix::Nothing, prefix_text(form, base, n));
    let two = one + if_there(form.rooted(), root_text(windows));
    assert(base.skip(body_start(windows, base)) =~= Seq::<char>::empty());
    assert(components_of(windows, base) =~= two);
    prefix_text_kept(windows, base, more);
    if form.rooted() {
        assert(components_of(windows, all).take(two.len() as int) =~= two);
    } else {
        assert(two =~= one);
        assert(components_of(windows, all).take(one.len() as int) =~= one);
    }
}

/// What is joined to a directory without a verbatim prefix lies under it.
proof fn usual_joins_lie_under(windows: bool, base: Text, rest: Text)
    requires
        settled(windows, base),
        prefix_of(windows, rest).0 == Prefix::Nothing,
        !root_written(windows, rest),
        !prefix_of(windows, base).0.verbatim(),
    ensures
        lies_under(windows, joined_path(windows, base, rest), base),
{
    reveal_strlit("\\");
    reveal_strlit("/");
    let s = separators_of(windows, base);
    let (form, n) = prefix_of(windows, base);
    prefix_bounds(windows, base);
    prefix_bounds(windows, rest);
    let more = if base.len() == 0 || s.has(base.last()) || (form == Prefix::Disk && n
        == base.len()) {
        rest
    } else {
        root_text(windows) + rest
    };
    assert(joined_path(windows, base, rest) =~= base + more);
    usual_prefix_kept(windows, base, more);
    if n == base.len() {
        bare_prefix_extends(windows, base, more);
    } else {
        head_kept(windows, base, more);
        components_extend(windows, base, more);
    }
}

/// The names that `rest` leads to, where it has neither a root nor `..`, come after `tail`.
proof fn resolved_extends(tail: Seq<Text>, rest: Seq<Text>)
    requires
        forall|i: int|
            0 <= i < rest.len() ==> #[trigger] rest[i] != root_text(true) && rest[i] != ".."@,
    ensures
        tail.len() <= resolved(tail, rest).len(),
        resolved(tail, rest).take(tail.len() as int) == tail,
        forall|i: int|
            tail.len() <= i < resolved(tail, rest).len() ==> rest.contains(
                #[trigger] resolved(tail, rest)[i],
            ) && resolved(tail, rest)[i] != "."@,
    decreases rest.len(),
{
    let all = resolved(tail, rest);
    if rest.len() == 0 {
        assert(all.take(tail.len() as int) =~= tail);
    } else {
        let front = rest.drop_last();
        assert forall|i: int| 0 <= i < front.len() implies #[trigger] front[i] != root_text(true)
            && front[i] != ".."@ by {
            assert(front[i] == rest[i]);
        }
        resolved_extends(tail, front);
        let before = resolved(tail, front);
        assert(rest[rest.len() - 1] == rest.last());
        assert(all.take(tail.len() as int) =~= before.take(tail.len() as int));
        assert forall|i: int| tail.len() <= i < all.len() implies rest.contains(
            #[trigger] all[i],
        ) && all[i] != "."@ by {
            if i < before.len() {
                assert(all[i] == before[i]);
                assert(front.contains(before[i]));
                let k = choose|k: int| 0 <= k < front.len() && front[k] == before[i];
                assert(rest[k] == all[i]);
            } else {
                assert(rest[rest.len() - 1] == all[i]);
            }
        }
    }
}

/// A name that can stand after a verbatim prefix.
spec fn verbatim_name(t: Text) -> bool {
    t.len() > 0 && whole(Separators::Backslash, t)
}

proof fn names_are_no_root(t: Text)
    requires
        whole(Separators::Backslash, t),
    ensures
        t != root_text(true),
{
    reveal_strlit("\\");
    if t == root_text(true) {
        assert(Separators::Backslash.has(t[0]));
    }
}

/// Names after a root read as they were written.
proof fn written_reads_back(names: Seq<Text>)
    requires
        forall|i: int| 0 <= i < names.len() ==> verbatim_name(#[trigger] names[i]),
    ensures
        ({
            let w = written(seq![root_text(true)] + names);
            let s = Separators::Backslash;
            w.len() > 0 && w[0] == '\\' && counted(s, pieces(s, w.skip(1))) == names
        }),
    decreases names.len(),
{
    reveal_strlit("\\");
    let s = Separators::Backslash;
    let root = root_text(true);
    let t = seq![root] + names;
    let w = written(t);
    if names.len() == 0 {
        assert(t =~= seq![root]);
        assert(t.drop_last() =~= Seq::<Text>::empty());
        assert(written(t.drop_last()) =~= Seq::<char>::empty());
        assert(w =~= root);
        assert(w.skip(1) =~= Seq::<char>::empty());
        nothing_counts(s);
        assert(names =~= Seq::<Text>::empty());
    } else {
        let front = names.drop_last();
        let x = names.last();
        assert(names[names.len() - 1] == x);
        assert(verbatim_name(x));
        names_are_no_root(x);
        assert forall|i: int| 0 <= i < front.len() implies verbatim_name(#[trigger] front[i]) by {
            assert(front[i] == names[i]);
        }
        written_reads_back(front);
        let before = seq![root] + front;
        assert(t.drop_last() =~= before);
        assert(t.last() == x);
        let v = written(before);
        whole_is_one_piece(s, x);
        assert(seq![x].drop_last() =~= Seq::<Text>::empty());
        assert(counted(s, seq![x]) =~= seq![x]) by {
            reveal_with_fuel(counted, 2);
        }
        assert(front + seq![x] =~= names);
        if front.len() == 0 {
            assert(before =~= seq![root]);
            assert(before.last() == root);
            assert(before.drop_last() =~= Seq::<Text>::empty());
            assert(written(before.drop_last()) =~= Seq::<char>::empty());
            assert(v =~= root);
            assert(w =~= root + x);
            assert(w.skip(1) =~= x);
            assert(names =~= seq![x]);
        } else {
            assert(before.last() == front.last());
            assert(front[front.len() - 1] == front.last());
            assert(verbatim_name(front.last()));
            names_are_no_root(front.last());
            assert(w =~= v + seq!['\\'] + x);
            assert(w.skip(1) =~= v.skip(1) + seq!['\\'] + x);
            pieces_concat(s, v.skip(1), '\\', x);
            counted_concat(s, pieces(s, v.skip(1)), pieces(s, x));
        }
    }
}

proof fn prefix_text_same(form: Prefix, p: Text, q: Text)
    requires
        form.verbatim(),
        prefix_of(true, p).0 == form,
        q.len() >= prefix_of(true, p).1,
        p.take(prefix_of(true, p).1) == q.take(prefix_of(true, p).1),
    ensures
        prefix_text(form, q, prefix_of(true, p).1) == prefix_text(form, p, prefix_of(true, p).1),
{
    let n = prefix_of(true, p).1;
    prefix_bounds(true, p);
    prefix_lengths(p);
    if form == Prefix::VerbatimDisk {
        assert(p.take(n)[4] == p[4]);
        assert(q.take(n)[4] == q[4]);
    }
}

/// A verbatim prefix ends the path, or a separator follows it.
proof fn verbatim_prefix_ends(p: Text)
    requires
        prefix_of(true, p).0.verbatim(),
    ensures
        p.len() >= 2 && Separators::Both.has(p[0]) && Separators::Both.has(p[1]),
        prefix_of(true, p).1 <= p.len(),
        prefix_of(true, p).1 < p.len() ==> p[prefix_of(true, p).1] == '\\',
{
    let back = Separators::Backslash;
    prefix_bounds(true, p);
    if p.len() >= 8 {
        segment_end_facts(back, p, 8);
        let server = segment_end(back, p, 8);
        if server < p.len() {
            segment_end_facts(back, p, server + 1);
        }
    }
    if p.len() >= 4 {
        segment_end_facts(back, p, 4);
    }
}

/// What goes on after a verbatim prefix with a separator has the same before its body.
proof fn verbatim_head(base: Text, w: Text)
    requires
        settled(true, base),
        prefix_of(true, base).0.verbatim(),
        w.len() > 0,
        w[0] == '\\',
    ensures
        ({
            let (form, n) = prefix_of(true, base);
            let q = base.take(n) + w;
            &&& prefix_of(true, q) == prefix_of(true, base)
            &&& separators_of(true, q) == Separators::Backslash
            &&& body_start(true, q) == n + 1
            &&& q.skip(n + 1) == w.skip(1)
            &&& head_of(true, q) == seq![prefix_text(form, base, n), root_text(true)]
        }),
{
    let (form, n) = prefix_of(true, base);
    let q = base.take(n) + w;
    verbatim_prefix_ends(base);
    prefix_bounds(true, base);
    prefix_lengths(base);
    assert(q[n] == w[0]);
    assert forall|i: int| 0 <= i < n implies base[i] == #[trigger] q[i] by {}
    network_prefix_kept(base, q);
    assert(q.take(n) =~= base.take(n));
    prefix_text_same(form, base, q);
    assert(q.skip(n + 1) =~= w.skip(1));
    assert(head_of(true, q) =~= seq![prefix_text(form, base, n), root_text(true)]);
}

/// What a relative path without `..` is made of.
proof fn relative_components(rest: Text)
    requires
        prefix_of(true, rest).0 == Prefix::Nothing,
        !root_written(true, rest),
    ensures
        forall|i: int|
            0 <= i < components_of(true, rest).len() ==> #[trigger] components_of(true, rest)[i]
                == "."@ || verbatim_name(components_of(true, rest)[i]),
{
    let s = Separators::Both;
    let all = components_of(true, rest);
    let body = counted(s, pieces(s, rest.skip(body_start(true, rest))));
    let head = head_of(true, rest);
    prefix_bounds(true, rest);
    assert(head =~= if_there(begins_here(true, rest), "."@));
    assert forall|i: int| 0 <= i < all.len() implies #[trigger] all[i] == "."@ || verbatim_name(
        all[i],
    ) by {
        if i >= head.len() {
            body_is_whole(s, rest.skip(body_start(true, rest)), i - head.len());
            let t = body[i - head.len()];
            assert(all[i] == t);
            assert forall|k: int| 0 <= k < t.len() implies !Separators::Backslash.has(
                #[trigger] t[k],
            ) by {
                assert(!s.has(t[k]));
            }
        }
    }
}

/// The components of a path that is only a verbatim prefix, and of one that goes on.
proof fn verbatim_components(base: Text)
    requires
        prefix_of(true, base).0.verbatim(),
    ensures
        ({
            let (form, n) = prefix_of(true, base);
            let all = components_of(true, base);
            let one = seq![prefix_text(form, base, n)];
            if n == base.len() {
                all == one
            } else {
                &&& all.len() >= 2
                &&& all.take(2) == one + seq![root_text(true)]
                &&& forall|i: int| 2 <= i < all.len() ==> verbatim_name(#[trigger] all[i])
            }
        }),
{
    let (form, n) = prefix_of(true, base);
    let s = Separators::Backslash;
    let all = components_of(true, base);
    let one = seq![prefix_text(form, base, n)];
    verbatim_prefix_ends(base);
    prefix_bounds(true, base);
    nothing_counts(s);
    if n == base.len() {
        assert(base.skip(body_start(true, base)) =~= Seq::<char>::empty());
        assert(all =~= one);
    } else {
        assert(head_of(true, base) =~= one + seq![root_text(true)]);
        assert(all.take(2) =~= one + seq![root_text(true)]);
        assert forall|i: int| 2 <= i < all.len() implies verbatim_name(#[trigger] all[i]) by {
            body_is_whole(s, base.skip(body_start(true, base)), i - 2);
        }
    }
}

/// Where a relative path without `..` leads to from a verbatim directory: names come after what the
/// directory is made of.
proof fn verbatim_join_facts(base: Text, rest: Text)
    requires
        prefix_of(true, rest).0 == Prefix::Nothing,
        !root_written(true, rest),
        prefix_of(true, base).0.verbatim(),
        !components_of(true, rest).contains(".."@),
    ensures
        ({
            let tail = components_of(true, base).skip(1);
            let longer = resolved(tail, components_of(true, rest));
            &&& tail.len() <= longer.len()
            &&& longer.take(tail.len() as int) == tail
            &&& if prefix_of(true, base).1 == base.len() {
                &&& tail.len() == 0
                &&& forall|i: int| 0 <= i < longer.len() ==> verbatim_name(#[trigger] longer[i])
            } else {
                let names = longer.skip(1);
                &&& tail.len() >= 1
                &&& longer == seq![root_text(true)] + names
                &&& forall|i: int| 0 <= i < names.len() ==> verbatim_name(#[trigger] names[i])
            }
        }),
{
    reveal_strlit("\\");
    let n = prefix_of(true, base).1;
    let all = components_of(true, base);
    let tail = all.skip(1);
    let steps = components_of(true, rest);
    let longer = resolved(tail, steps);
    verbatim_components(base);
    relative_components(rest);
    assert forall|i: int| 0 <= i < steps.len() implies #[trigger] steps[i] != root_text(true)
        && steps[i] != ".."@ by {
        if verbatim_name(steps[i]) {
            names_are_no_root(steps[i]);
        } else {
            reveal_strlit(".");
        }
        assert(steps.contains(steps[i]));
    }
    resolved_extends(tail, steps);
    if n == base.len() {
        assert(tail =~= Seq::<Text>::empty());
        assert forall|i: int| 0 <= i < longer.len() implies verbatim_name(#[trigger] longer[i]) by {
            assert(steps.contains(longer[i]));
        }
    } else {
        let names = longer.skip(1);
        assert(tail[0] == all.take(2)[1]);
        assert(longer[0] == longer.take(tail.len() as int)[0]);
        assert(longer =~= seq![root_text(true)] + names);
        assert forall|i: int| 0 <= i < names.len() implies verbatim_name(#[trigger] names[i]) by {
            if i + 1 < tail.len() {
                assert(names[i] == longer.take(tail.len() as int)[i + 1]);
                assert(names[i] == all[i + 2]);
            } else {
                assert(names[i] == longer[i + 1]);
                assert(steps.contains(longer[i + 1]));
            }
        }
    }
}

/// What is joined to a verbatim directory lies under it.
proof fn verbatim_joins_lie_under(base: Text, rest: Text)
    requires
        settled(true, base),
        prefix_of(true, rest).0 == Prefix::Nothing,
        !root_written(true, rest),
        prefix_of(true, base).0.verbatim(),
        !components_of(true, rest).contains(".."@),
        rest.len() > 0,
    ensures
        lies_under(true, joined_path(true, base, rest), base),
{
    let (form, n) = prefix_of(true, base);
    let all = components_of(true, base);
    let tail = all.skip(1);
    let longer = resolved(tail, components_of(true, rest));
    verbatim_join_facts(base, rest);
    verbatim_components(base);
    verbatim_prefix_ends(base);
    if n == base.len() {
        assert(base.take(n) =~= base);
        bare_verbatim_joins(base, longer);
    } else {
        written_reads_back(longer.skip(1));
        let w = written(longer);
        verbatim_head(base, w);
        let q = base.take(n) + w;
        let path = components_of(true, q);
        assert(path =~= seq![prefix_text(form, base, n)] + longer);
        assert(all =~= seq![prefix_text(form, base, n)] + tail) by {
            assert(all[0] == all.take(2)[0]);
        }
        assert forall|i: int| 0 <= i < all.len() implies path.take(all.len() as int)[i]
            == all[i] by {
            if i > 0 {
                assert(path[i] == longer[i - 1]);
                assert(longer.take(tail.len() as int)[i - 1] == tail[i - 1]);
            }
        }
        assert(path.take(all.len() as int) =~= all);
    }
}

proof fn bare_verbatim_joins(base: Text, names: Seq<Text>)
    requires
        settled(true, base),
        prefix_of(true, base).0.verbatim(),
        prefix_of(true, base).1 == base.len(),
        forall|i: int| 0 <= i < names.len() ==> verbatim_name(#[trigger] names[i]),
    ensures
        lies_under(true, base + written(names), base),
{
    reveal_strlit("\\");
    let (form, n) = prefix_of(true, base);
    verbatim_components(base);
    let w = written(names);
    let all = components_of(true, base);
    assert(base.take(n) =~= base);
    if names.len() == 0 {
        assert(base + w =~= base);
        assert(all.take(all.len() as int) =~= all);
    } else {
        written_begins(names);
        verbatim_head(base, w);
        let q = base.take(n) + w;
        assert(components_of(true, q).take(1) =~= all);
    }
}

proof fn written_begins(names: Seq<Text>)
    requires
        names.len() > 0,
        forall|i: int| 0 <= i < names.len() ==> verbatim_name(#[trigger] names[i]),
    ensures
        written(names).len() > 0,
        written(names)[0] == '\\',
    decreases names.len(),
{
    reveal_strlit("\\");
    let front = names.drop_last();
    if front.len() > 0 {
        assert forall|i: int| 0 <= i < front.len() implies verbatim_name(#[trigger] front[i]) by {
            assert(front[i] == names[i]);
        }
        written_begins(front);
    } else {
        assert(verbatim_name(names[names.len() - 1]));
        names_are_no_root(names.last());
        assert(written(front) =~= Seq::<char>::empty());
    }
}

/// A separator after a verbatim directory leaves it where it is.
proof fn verbatim_stays(base: Text)
    requires
        settled(true, base),
        prefix_of(true, base).0.verbatim(),
    ensures
        lies_under(true, joined_path(true, base, Seq::empty()), base),
{
    reveal_strlit("\\");
    let (form, n) = prefix_of(true, base);
    let all = components_of(true, base);
    let q = joined_path(true, base, Seq::empty());
    verbatim_prefix_ends(base);
    prefix_bounds(true, base);
    assert(prefix_of(true, Seq::<char>::empty()) == (Prefix::Nothing, 0int));
    if Separators::Both.has(base.last()) {
        assert(q =~= base);
        assert(all.take(all.len() as int) =~= all);
    } else {
        let more = root_text(true);
        assert(q =~= base + more);
        assert(base + more =~= base.take(n) + (base.skip(n) + more));
        verbatim_head(base, base.skip(n) + more);
        if n == base.len() {
            verbatim_components(base);
            assert(components_of(true, q).take(1) =~= all);
        } else {
            head_kept(true, base, more);
            prefix_bounds(true, base);
            components_extend(true, base, more);
        }
    }
}

/// What is joined to a directory lies under it. Left out are what stands for itself, being absolute
/// or having a prefix or a root; a directory that can still become the beginning of a share; and a
/// `..` that is resolved against a verbatim directory.
pub proof fn joined_paths_lie_under(windows: bool, base: Text, rest: Text)
    requires
        settled(windows, base),
        prefix_of(windows, rest).0 == Prefix::Nothing,
        !root_written(windows, rest),
        prefix_of(windows, base).0.verbatim() ==> !components_of(windows, rest).contains(".."@),
    ensures
        lies_under(windows, joined_path(windows, base, rest), base),
{
    if prefix_of(windows, base).0.verbatim() {
        if rest.len() == 0 {
            assert(rest =~= Seq::<char>::empty());
            verbatim_stays(base);
        } else {
            verbatim_joins_lie_under(base, rest);
        }
    } else {
        usual_joins_lie_under(windows, base, rest);
    }
}

/// What has the prefix of a settled path, and more, is settled.
proof fn verbatim_stays_settled(base: Text, w: Text)
    requires
        settled(true, base),
        prefix_of(true, base).0.verbatim(),
        w.len() > 0,
        w[0] == '\\',
    ensures
        settled(true, base.take(prefix_of(true, base).1) + w),
{
    let (form, n) = prefix_of(true, base);
    let back = Separators::Backslash;
    let q = base.take(n) + w;
    verbatim_head(base, w);
    prefix_bounds(true, base);
    prefix_lengths(base);
    assert(q[n] == '\\');
    if form == Prefix::Verbatim {
        reveal_strlit("\\\\?\\UNC");
        if q == "\\\\?\\UNC"@ {
            assert(q[4] == 'U' && q[5] == 'N' && q[6] == 'C');
        }
    } else if form == Prefix::VerbatimShare {
        segment_end_facts(back, base, 8);
        let server = segment_end(back, base, 8);
        assert(q[server] == base[server]);
        assert forall|i: int| 8 <= i < server implies base[i] == #[trigger] q[i] by {}
        segment_end_kept(back, base, q, 8, server);
    }
}

proof fn usual_stays_settled(windows: bool, base: Text, more: Text)
    requires
        settled(windows, base),
        !prefix_of(windows, base).0.verbatim(),
        prefix_of(windows, base + more) == prefix_of(windows, base),
        base.len() < 2 && more.len() > 0 && windows ==> !(Separators::Both.has((base + more)[0])
            && (base + more).len() >= 2 && Separators::Both.has((base + more)[1])),
    ensures
        settled(windows, base + more),
{
    let q = base + more;
    let both = Separators::Both;
    if windows && prefix_of(windows, base).0 == Prefix::Nothing && base.len() >= 2 {
        assert(q[0] == base[0] && q[1] == base[1]);
        if both.has(base[0]) && both.has(base[1]) {
            let server = segment_end(both, base, 2);
            segment_end_facts(both, base, 2);
            assert(q[server] == base[server]);
            segment_end_kept(both, base, q, 2, server);
        }
    }
    if windows && prefix_of(windows, base).0 == Prefix::Nothing && base.len() < 2 {
        if more.len() == 0 {
            assert(q =~= base);
        }
    }
}

/// What is joined to a settled directory is settled.
proof fn joined_paths_are_settled(windows: bool, base: Text, rest: Text)
    requires
        settled(windows, base),
        prefix_of(windows, rest).0 == Prefix::Nothing,
        !root_written(windows, rest),
        prefix_of(windows, base).0.verbatim() ==> !components_of(windows, rest).contains(".."@),
    ensures
        settled(windows, joined_path(windows, base, rest)),
        prefix_of(windows, joined_path(windows, base, rest)) == prefix_of(windows, base),
{
    reveal_strlit("\\");
    reveal_strlit("/");
    let (form, n) = prefix_of(windows, base);
    let q = joined_path(windows, base, rest);
    prefix_bounds(windows, base);
    prefix_bounds(windows, rest);
    if form.verbatim() {
        verbatim_prefix_ends(base);
        if rest.len() == 0 {
            if Separators::Both.has(base.last()) {
                assert(q =~= base);
            } else {
                let w = base.skip(n) + root_text(true);
                assert(q =~= base.take(n) + w);
                verbatim_head(base, w);
                verbatim_stays_settled(base, w);
            }
        } else {
            verbatim_join_facts(base, rest);
            let longer = resolved(components_of(true, base).skip(1), components_of(true, rest));
            let w = written(longer);
            if n == base.len() && longer.len() == 0 {
                assert(w =~= Seq::<char>::empty());
                assert(q =~= base);
            } else {
                if n == base.len() {
                    written_begins(longer);
                } else {
                    written_reads_back(longer.skip(1));
                }
                verbatim_head(base, w);
                verbatim_stays_settled(base, w);
            }
        }
    } else {
        let s = separators_of(windows, base);
        let more = if base.len() == 0 || s.has(base.last()) || (form == Prefix::Disk && n
            == base.len()) {
            rest
        } else {
            root_text(windows) + rest
        };
        assert(q =~= base + more);
        usual_prefix_kept(windows, base, more);
        usual_stays_settled(windows, base, more);
    }
}

proof fn lies_under_transitive(windows: bool, a: Text, b: Text, c: Text)
    requires
        lies_under(windows, a, b),
        lies_under(windows, b, c),
    ensures
        lies_under(windows, a, c),
{
    let n = components_of(windows, c).len() as int;
    assert(components_of(windows, a).take(n) =~= components_of(windows, a).take(
        components_of(windows, b).len() as int,
    ).take(n));
}

/// A single segment that is not `..` is relative, and leads nowhere else.
proof fn segments_are_relative(windows: bool, t: Text)
    requires
        whole(Separators::Both, t),
        t.len() < 2 || t[1] != ':',
    ensures
        prefix_of(windows, t).0 == Prefix::Nothing,
        !root_written(windows, t),
        windows && t != ".."@ ==> !components_of(windows, t).contains(".."@),
{
    reveal_strlit(".");
    reveal_strlit("..");
    let s = Separators::Both;
    if t.len() > 0 {
        assert(!s.has(t[0]));
    }
    assert(prefix_of(windows, t) == (Prefix::Nothing, 0int));
    if windows && t != ".."@ {
        let all = components_of(windows, t);
        if begins_here(windows, t) {
            if t.len() > 1 {
                assert(!s.has(t[1]));
            }
            assert(t.skip(1) =~= Seq::<char>::empty());
            nothing_counts(s);
            assert(all =~= seq!["."@]);
            assert("."@.len() != ".."@.len());
        } else {
            assert(t.skip(0) =~= t);
            whole_is_one_piece(s, t);
            assert(seq![t].drop_last() =~= Seq::<Text>::empty());
            reveal_with_fuel(counted, 2);
            assert(all =~= if_there(counts(s, t), t));
        }
    }
}

proof fn safe_ids_are_segments(id: Text)
    ensures
        whole(Separators::Both, safe_id(id)),
        safe_id(id).len() < 2 || safe_id(id)[1] != ':',
{
    reveal_strlit("/\\:");
    let unsafe_chars = "/\\:"@;
    assert(unsafe_chars[0] == '/' && unsafe_chars[1] == '\\' && unsafe_chars[2] == ':');
    let t = safe_id(id);
    assert forall|i: int| 0 <= i < t.len() implies !Separators::Both.has(#[trigger] t[i])
        && t[i] != ':' by {
        assert(t[i] == crate::text::swap_char(id[i], unsafe_chars, '_'));
    }
}

proof fn temporary_names_are_segments()
    ensures
        whole(Separators::Both, ".comfybox-tmp"@),
        ".comfybox-tmp"@[1] != ':',
        ".comfybox-tmp"@ != ".."@,
        whole(Separators::Both, "ranges.json"@),
        "ranges.json"@[1] != ':',
        "ranges.json"@ != ".."@,
{
    reveal_strlit(".comfybox-tmp");
    reveal_strlit("ranges.json");
    reveal_strlit("..");
    let a = ".comfybox-tmp"@;
    assert(a =~= seq!['.', 'c', 'o', 'm', 'f', 'y', 'b', 'o', 'x', '-', 't', 'm', 'p']);
    let b = "ranges.json"@;
    assert(b =~= seq!['r', 'a', 'n', 'g', 'e', 's', '.', 'j', 's', 'o', 'n']);
}

/// An artifact's temporary data lies in the directory of its final file, so that the final rename
/// stays on one file system. Left out are a directory that can still become the beginning of a
/// share, and the identifier `..` below a verbatim directory.
pub proof fn temporary_data_lies_beside_the_target(windows: bool, root: Text, a: ArtifactView)
    requires
        settled(windows, target_dir(windows, root, a)),
        prefix_of(windows, target_dir(windows, root, a)).0.verbatim() ==> safe_id(a.id) != ".."@,
    ensures
        lies_under(windows, temp_dir_of(windows, root, a), target_dir(windows, root, a)),
        lies_under(windows, ranges_of(windows, root, a), temp_dir_of(windows, root, a)),
{
    let dir = target_dir(windows, root, a);
    let tmp = joined_path(windows, dir, ".comfybox-tmp"@);
    temporary_names_are_segments();
    safe_ids_are_segments(a.id);
    segments_are_relative(windows, ".comfybox-tmp"@);
    segments_are_relative(windows, safe_id(a.id));
    segments_are_relative(windows, "ranges.json"@);
    if !windows {
        assert(!prefix_of(windows, dir).0.verbatim());
    }
    joined_paths_lie_under(windows, dir, ".comfybox-tmp"@);
    joined_paths_are_settled(windows, dir, ".comfybox-tmp"@);
    joined_paths_lie_under(windows, tmp, safe_id(a.id));
    joined_paths_are_settled(windows, tmp, safe_id(a.id));
    lies_under_transitive(windows, temp_dir_of(windows, root, a), tmp, dir);
    joined_paths_lie_under(windows, temp_dir_of(windows, root, a), "ranges.json"@);
}

/// Catalog paths are resolved below the ComfyUI root: one that is relative stays under it, as far as
/// its `..` components are not followed. Below a verbatim root they are, so that one without any
/// stays under it.
pub proof fn targets_lie_under_the_root(windows: bool, root: Text, a: ArtifactView)
    requires
        settled(windows, root),
        prefix_of(windows, a.relative_path).0 == Prefix::Nothing,
        !root_written(windows, a.relative_path),
        prefix_of(windows, root).0.verbatim() ==> !components_of(
            windows,
            a.relative_path,
        ).contains(".."@),
    ensures
        lies_under(windows, target_of(windows, root, a), root),
{
    joined_paths_lie_under(windows, root, a.relative_path);
}

}
