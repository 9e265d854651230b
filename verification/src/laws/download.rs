//! Laws of the download engine: ranges, resumption, addresses, and the steps of an installation.
use crate::catalog::ArtifactView;
use crate::download::{
    by_start, capped, covered, ends_host, hf_official, kept_ranges, missing_of, on_hf, placed,
    range_end, recorded, rewritten, split_ranges, status_error, unauthorized, CompletedRange,
    RangeState,
};
use crate::install::{
    other_endpoint, pause_after, FetchActionView, FetchEventView, FetchView, InstallActionView,
    InstallEventView, InstallPhase, OutcomeView, RunView, ATTEMPTS,
};
use crate::inventory::{status_of, ArtifactFiles, ArtifactStatus};
use crate::text::{without_trailing, Text};
use vstd::prelude::*;

verus! {

/// `r` cuts the bytes from `start` to `expected` into pieces that follow each other: the first
/// begins at `start`, each begins where the one before ended, the last ends with the file, and
/// none is empty or longer than `chunk`.
pub open spec fn cuts(r: Seq<(int, int)>, start: int, chunk: int, expected: int) -> bool {
    &&& start >= expected ==> r.len() == 0
    &&& start < expected ==> r.len() > 0 && r[0].0 == start && r.last().1 == expected - 1
    &&& forall|i: int| 0 <= i < r.len() - 1 ==> (#[trigger] r[i]).1 + 1 == r[i + 1].0
    &&& forall|i: int|
        0 <= i < r.len() ==> (#[trigger] r[i]).0 <= r[i].1 && r[i].1 - r[i].0 < chunk
}

/// A file is split into ranges that cover it without gaps and without overlaps.
pub proof fn ranges_cover_the_file(start: int, chunk: int, expected: int)
    requires
        0 <= start,
        chunk > 0,
    ensures
        cuts(split_ranges(start, chunk, expected), start, chunk, expected),
    decreases expected - start,
{
    if start < expected {
        let end = range_end(start, chunk, expected);
        ranges_cover_the_file(end + 1, chunk, expected);
        let rest = split_ranges(end + 1, chunk, expected);
        let r = split_ranges(start, chunk, expected);
        assert(r =~= seq![(start, end)] + rest);
        assert forall|i: int| 0 <= i < r.len() - 1 implies (#[trigger] r[i]).1 + 1 == r[i + 1].0 by {
            if i > 0 {
                assert(r[i] == rest[i - 1]);
                assert(r[i + 1] == rest[i]);
            } else {
                assert(r[1] == rest[0]);
            }
        }
        assert forall|i: int| 0 <= i < r.len() implies (#[trigger] r[i]).0 <= r[i].1 && r[i].1
            - r[i].0 < chunk by {
            if i > 0 {
                assert(r[i] == rest[i - 1]);
            }
        }
        if rest.len() > 0 {
            assert(r.last() == rest.last());
        }
    }
}

/// Every byte of the file lies in exactly one of its ranges.
pub proof fn every_byte_is_in_one_range(chunk: int, expected: int, byte: int)
    requires
        chunk > 0,
        0 <= byte < expected,
    ensures
        exists|i: int|
            0 <= i < split_ranges(0, chunk, expected).len() && (#[trigger] split_ranges(
                0,
                chunk,
                expected,
            )[i]).0 <= byte <= split_ranges(0, chunk, expected)[i].1,
        forall|i: int, j: int|
            0 <= i < j < split_ranges(0, chunk, expected).len() ==> (#[trigger] split_ranges(
                0,
                chunk,
                expected,
            )[i]).1 < (#[trigger] split_ranges(0, chunk, expected)[j]).0,
{
    ranges_cover_the_file(0, chunk, expected);
    let r = split_ranges(0, chunk, expected);
    holding_range(r, chunk, expected, byte, 0);
    assert forall|i: int, j: int| 0 <= i < j < r.len() implies (#[trigger] r[i]).1 < (
    #[trigger] r[j]).0 by {
        ranges_ascend(r, chunk, expected, i, j);
    }
}

proof fn ranges_ascend(r: Seq<(int, int)>, chunk: int, expected: int, i: int, j: int)
    requires
        cuts(r, 0, chunk, expected),
        0 <= i < j < r.len(),
    ensures
        r[i].1 < r[j].0,
    decreases j - i,
{
    assert(r[i].1 + 1 == r[i + 1].0);
    if i + 1 < j {
        assert(r[i + 1].0 <= r[i + 1].1);
        ranges_ascend(r, chunk, expected, i + 1, j);
    }
}

proof fn holding_range(r: Seq<(int, int)>, chunk: int, expected: int, byte: int, at: int)
    requires
        cuts(r, 0, chunk, expected),
        0 <= at < r.len(),
        r[at].0 <= byte < expected,
    ensures
        exists|i: int| 0 <= i < r.len() && (#[trigger] r[i]).0 <= byte <= r[i].1,
    decreases r.len() - at,
{
    if byte > r[at].1 {
        if at + 1 < r.len() {
            assert(r[at].1 + 1 == r[at + 1].0);
            holding_range(r, chunk, expected, byte, at + 1);
        } else {
            assert(r[at] == r.last());
        }
    }
}

proof fn missing_of_facts(ranges: Seq<(int, int)>, completed: Seq<CompletedRange>, x: (int, int))
    ensures
        missing_of(ranges, completed).contains(x) <==> ranges.contains(x) && !recorded(completed, x),
    decreases ranges.len(),
{
    let m = missing_of(ranges, completed);
    if ranges.len() > 0 {
        let rest = ranges.skip(1);
        missing_of_facts(rest, completed, x);
        let tail = missing_of(rest, completed);
        if ranges.contains(x) {
            let k = choose|k: int| 0 <= k < ranges.len() && ranges[k] == x;
            if k > 0 {
                assert(rest[k - 1] == x);
            }
        }
        if rest.contains(x) {
            let k = choose|k: int| 0 <= k < rest.len() && rest[k] == x;
            assert(ranges[k + 1] == x);
        }
        assert(ranges[0] == ranges[0]);
        if !recorded(completed, ranges[0]) {
            assert(m =~= seq![ranges[0]] + tail);
            if m.contains(x) {
                let k = choose|k: int| 0 <= k < m.len() && m[k] == x;
                if k > 0 {
                    assert(tail[k - 1] == x);
                }
            }
            if tail.contains(x) {
                let k = choose|k: int| 0 <= k < tail.len() && tail[k] == x;
                assert(m[k + 1] == x);
            }
            assert(m[0] == ranges[0]);
        }
    }
}

/// A resumed download asks for exactly the ranges that are not recorded: none of those that are,
/// and all of the others.
pub proof fn only_missing_ranges_are_fetched(
    chunk: int,
    expected: int,
    completed: Seq<CompletedRange>,
    range: (int, int),
)
    ensures
        missing_of(split_ranges(0, chunk, expected), completed).contains(range) <==> split_ranges(
            0,
            chunk,
            expected,
        ).contains(range) && !recorded(completed, range),
{
    missing_of_facts(split_ranges(0, chunk, expected), completed, range);
}

proof fn placed_holds(s: Seq<CompletedRange>, x: CompletedRange, y: CompletedRange)
    ensures
        placed(s, x).contains(y) <==> s.contains(y) || x == y,
        placed(s, x).len() == s.len() + 1,
        covered(placed(s, x)) == covered(s) + x.span(),
    decreases s.len(),
{
    let p = placed(s, x);
    if s.len() == 0 || s.last().start <= x.start {
        assert(p.drop_last() =~= s);
        assert(p[s.len() as int] == x);
        if s.contains(y) {
            let k = choose|k: int| 0 <= k < s.len() && s[k] == y;
            assert(p[k] == y);
        }
        if p.contains(y) && x != y {
            let k = choose|k: int| 0 <= k < p.len() && p[k] == y;
            assert(s[k] == y);
        }
    } else {
        let q = placed(s.drop_last(), x);
        placed_holds(s.drop_last(), x, y);
        assert(p.drop_last() =~= q);
        assert(p[q.len() as int] == s.last());
        if p.contains(y) {
            let k = choose|k: int| 0 <= k < p.len() && p[k] == y;
            if k < q.len() {
                assert(q[k] == y);
                if s.drop_last().contains(y) {
                    let m = choose|m: int| 0 <= m < s.drop_last().len() && s.drop_last()[m] == y;
                    assert(s[m] == y);
                }
            } else {
                assert(s[s.len() - 1] == y);
            }
        }
        if s.contains(y) {
            let k = choose|k: int| 0 <= k < s.len() && s[k] == y;
            if k < s.len() - 1 {
                assert(s.drop_last()[k] == y);
            }
        }
        if q.contains(y) {
            let k = choose|k: int| 0 <= k < q.len() && q[k] == y;
            assert(p[k] == y);
        }
    }
}

proof fn by_start_holds(s: Seq<CompletedRange>, y: CompletedRange)
    ensures
        by_start(s).contains(y) <==> s.contains(y),
        by_start(s).len() == s.len(),
        covered(by_start(s)) == covered(s),
    decreases s.len(),
{
    if s.len() > 0 {
        let front = s.drop_last();
        by_start_holds(front, y);
        placed_holds(by_start(front), s.last(), y);
        assert(s[s.len() - 1] == s.last());
        if s.contains(y) {
            let k = choose|k: int| 0 <= k < s.len() && s[k] == y;
            if k < s.len() - 1 {
                assert(front[k] == y);
            }
        }
        if front.contains(y) {
            let k = choose|k: int| 0 <= k < front.len() && front[k] == y;
            assert(s[k] == y);
        }
    }
}

/// Recording a range keeps every range that was recorded, adds this one, and adds its bytes.
pub proof fn recording_loses_nothing(s: Seq<CompletedRange>, range: CompletedRange, y: CompletedRange)
    ensures
        by_start(s.push(range)).contains(y) <==> s.contains(y) || y == range,
        covered(by_start(s.push(range))) == covered(s) + range.span(),
{
    by_start_holds(s.push(range), y);
    let p = s.push(range);
    assert(p.drop_last() =~= s);
    assert(p[s.len() as int] == range);
    if s.contains(y) {
        let k = choose|k: int| 0 <= k < s.len() && s[k] == y;
        assert(p[k] == y);
    }
    if p.contains(y) && y != range {
        let k = choose|k: int| 0 <= k < p.len() && p[k] == y;
        assert(s[k] == y);
    }
}

/// The record of the ranges is in the order of their starts.
pub proof fn records_ascend(s: Seq<CompletedRange>)
    ensures
        forall|i: int, j: int|
            0 <= i < j < by_start(s).len() ==> (#[trigger] by_start(s)[i]).start <= (
            #[trigger] by_start(s)[j]).start,
    decreases s.len(),
{
    if s.len() > 0 {
        records_ascend(s.drop_last());
        placed_ascends(by_start(s.drop_last()), s.last());
    }
}

proof fn placed_ascends(s: Seq<CompletedRange>, x: CompletedRange)
    requires
        forall|i: int, j: int|
            0 <= i < j < s.len() ==> (#[trigger] s[i]).start <= (#[trigger] s[j]).start,
    ensures
        forall|i: int, j: int|
            0 <= i < j < placed(s, x).len() ==> (#[trigger] placed(s, x)[i]).start <= (
            #[trigger] placed(s, x)[j]).start,
        forall|i: int|
            0 <= i < placed(s, x).len() ==> (#[trigger] placed(s, x)[i]).start <= x.start || (
            s.len() > 0 && placed(s, x)[i].start <= s.last().start),
    decreases s.len(),
{
    let p = placed(s, x);
    if s.len() == 0 || s.last().start <= x.start {
        assert forall|i: int| 0 <= i < s.len() implies (#[trigger] s[i]).start <= x.start by {
            if i < s.len() - 1 {
                assert(s[i].start <= s[s.len() - 1].start);
            }
        }
        assert forall|i: int, j: int| 0 <= i < j < p.len() implies (#[trigger] p[i]).start <= (
        #[trigger] p[j]).start by {
            if j < s.len() {
                assert(s[i].start <= s[j].start);
            } else {
                assert(s[i].start <= x.start);
            }
        }
    } else {
        let front = s.drop_last();
        assert forall|i: int, j: int| 0 <= i < j < front.len() implies (#[trigger] front[i]).start
            <= (#[trigger] front[j]).start by {
            assert(s[i].start <= s[j].start);
        }
        placed_ascends(front, x);
        let q = placed(front, x);
        assert forall|i: int| 0 <= i < q.len() implies (#[trigger] q[i]).start <= s.last().start by {
            if front.len() > 0 {
                assert(s[front.len() - 1].start <= s[s.len() - 1].start);
            }
        }
        assert forall|i: int, j: int| 0 <= i < j < p.len() implies (#[trigger] p[i]).start <= (
        #[trigger] p[j]).start by {
            assert(p[i] == q[i]);
            if j < q.len() {
                assert(p[j] == q[j]);
                assert(q[i].start <= q[j].start);
            }
        }
    }
}

/// A range that was recorded is not fetched again when the download is resumed.
pub proof fn recorded_ranges_are_kept(
    state: RangeState,
    expected: u64,
    chunk: int,
    start: u64,
    end: u64,
)
    requires
        state.expected_size == expected,
    ensures
        ({
            let range = CompletedRange { start, end };
            let later = by_start(state.completed@.push(range));
            !missing_of(split_ranges(0, chunk, expected as int), later).contains(
                (start as int, end as int),
            ) && kept_ranges(Some(state), expected) == state.completed@
        }),
{
    let range = CompletedRange { start, end };
    let later = by_start(state.completed@.push(range));
    recording_loses_nothing(state.completed@, range, range);
    let k = choose|k: int| 0 <= k < later.len() && later[k] == range;
    assert(later[k].start == start as int && later[k].end == end as int);
    assert(recorded(later, (start as int, end as int)));
    missing_of_facts(
        split_ranges(0, chunk, expected as int),
        later,
        (start as int, end as int),
    );
}

/// A record of a file of another size is of no use: nothing of it is kept.
pub proof fn records_of_other_sizes_are_dropped(state: RangeState, expected: u64)
    requires
        state.expected_size != 0,
        state.expected_size != expected,
    ensures
        kept_ranges(Some(state), expected) == Seq::<CompletedRange>::empty(),
{
}

/// Only a Hugging Face address is rewritten: one whose host merely begins like that of Hugging Face
/// stays as it is.
pub proof fn other_addresses_are_unchanged(url: Text, endpoint: Option<Text>)
    requires
        !on_hf(url),
    ensures
        rewritten(url, endpoint) == url,
{
}

/// At the official endpoint an address stays as it is.
pub proof fn official_endpoint_changes_nothing(url: Text)
    ensures
        rewritten(url, Some(hf_official())) == url,
        rewritten(url, Some(hf_official() + "/"@)) == url,
{
    reveal_strlit("https://huggingface.co");
    reveal_strlit("/");
    let o = hf_official();
    let slashed = o + "/"@;
    assert(o.last() == 'o');
    assert(without_trailing(o, '/') == o);
    assert(slashed.last() == '/');
    assert(slashed.drop_last() =~= o);
    assert(without_trailing(slashed, '/') == o) by {
        reveal_with_fuel(without_trailing, 2);
    }
    if on_hf(url) {
        assert(o + url.skip(o.len() as int) =~= url);
    }
}

/// Whatever the endpoint, what follows the official address in a Hugging Face address is kept.
pub proof fn rewriting_keeps_the_path(path: Text, endpoint: Text)
    requires
        ends_host(path),
    ensures
        rewritten(hf_official() + path, Some(endpoint)) == without_trailing(endpoint, '/') + path,
{
    let url = hf_official() + path;
    assert(url.take(hf_official().len() as int) =~= hf_official());
    assert(url.skip(hf_official().len() as int) =~= path);
}

/// A file is put in its final place only after its length was found right and, where a hash is
/// known, its hash.
pub proof fn only_verified_files_are_published(run: RunView, event: InstallEventView)
    requires
        run.after(event).1 is Publish,
    ensures
        run.phase == InstallPhase::MeasurePart && event == (InstallEventView::Part {
            length: run.expected,
        }) && run.artifact.sha256 is None || run.phase == InstallPhase::HashPart && event == (
        InstallEventView::Hashed { matches: true }),
{
}

/// The hash of a `.part` file is looked at only after its length was found right.
pub proof fn hashes_are_checked_after_lengths(run: RunView, event: InstallEventView)
    requires
        run.phase != InstallPhase::HashPart,
        run.after(event).0.phase == InstallPhase::HashPart,
    ensures
        run.phase == InstallPhase::MeasurePart,
        event == (InstallEventView::Part { length: run.expected }),
        run.artifact.sha256 is Some,
{
}

/// Temporary data is removed only after the file is in its final place: a failure keeps it.
pub proof fn failures_keep_temporary_data(run: RunView, event: InstallEventView)
    requires
        run.after(event).1 is RemoveTemp,
    ensures
        run.phase == InstallPhase::Publish,
        event is Done,
{
}

/// An existing file that does not match the catalog is refused unless replacing it was asked for,
/// and one that matches is not downloaded again.
pub proof fn mismatched_targets_are_refused(run: RunView, length: u64)
    requires
        run.phase == InstallPhase::InspectTarget,
        !run.force,
    ensures
        ({
            let action = run.after(InstallEventView::Target { length: Some(length) }).1;
            if run.artifact.size_bytes is Some && run.artifact.size_bytes != Some(length) {
                action is Fail
            } else if run.artifact.sha256 is None {
                action == InstallActionView::Finish(OutcomeView::AlreadyInstalled)
            } else {
                action is HashFile
            }
        }),
{
}

/// An installation that is over stays over.
pub proof fn finished_installations_stay_finished(run: RunView, event: InstallEventView)
    requires
        run.phase == InstallPhase::Over,
    ensures
        run.after(event) == (run, InstallActionView::Ignore),
{
}

/// An installation ends exactly when it says so.
pub proof fn an_end_is_announced(run: RunView, event: InstallEventView)
    requires
        run.phase != InstallPhase::Over,
    ensures
        run.after(event).0.phase == InstallPhase::Over <==> (run.after(event).1 is Finish
            || run.after(event).1 is Fail),
{
}

/// The endpoint is switched at most once, only for Hugging Face addresses, and only where the
/// server could not be reached.
pub proof fn endpoints_are_switched_once(run: RunView, event: InstallEventView)
    ensures
        run.switched ==> run.after(event).0.switched,
        run.after(event).1 is SwitchEndpoint ==> !run.switched && run.after(event).0.switched
            && on_hf(run.artifact.url) && (event matches InstallEventView::Failed {
            unreachable,
            ..
        } && unreachable),
        run.after(event).0.switched && !run.switched ==> run.after(event).1 is SwitchEndpoint,
{
}

/// A reply that is not authorized is reported at once, whatever is left to be tried.
pub proof fn authentication_failures_are_immediate(
    run: RunView,
    fetch: FetchView,
    status: u16,
    content_length: Option<Text>,
    accept_ranges: Option<Text>,
)
    requires
        unauthorized(status),
        run.phase == InstallPhase::Head,
    ensures
        run.after(InstallEventView::Head { status, content_length, accept_ranges }).1 == (
        InstallActionView::Fail {
            message: status_error(
                "remote metadata request"@,
                run.artifact.name,
                status,
                run.token_present,
            ),
        }),
        fetch.after(FetchEventView::Replied { status }) == (
            fetch,
            FetchActionView::Fail {
                message: status_error(
                    "range download"@,
                    fetch.url,
                    status,
                    fetch.token_present,
                ),
                unreachable: false,
            },
        ),
{
}

/// Where no endpoint is chosen, the mirror is tried after the official one, and the official one
/// after the mirror.
pub proof fn endpoints_fail_over_to_each_other()
    ensures
        other_endpoint(None) == crate::install::hf_mirror(),
        other_endpoint(Some(crate::install::hf_mirror())) == hf_official(),
        other_endpoint(Some(hf_official())) == crate::install::hf_mirror(),
{
    reveal_strlit("https://hf-mirror.com");
    reveal_strlit("https://huggingface.co");
    assert(hf_official().last() == 'o');
    assert(crate::install::hf_mirror().last() == 'm');
}

/// The events of a range that brings nothing `n` times.
pub open spec fn after_failures(fetch: FetchView, messages: Seq<Text>) -> FetchView
    decreases messages.len(),
{
    if messages.len() == 0 {
        fetch
    } else {
        after_failures(fetch, messages.drop_last()).after(
            FetchEventView::Failed { message: messages.last() },
        ).0
    }
}

/// A range is given up after the last of its attempts, with the last error, and not before.
pub proof fn ranges_are_tried_so_often(fetch: FetchView, messages: Seq<Text>)
    requires
        fetch.attempt == 0,
        0 < messages.len() <= ATTEMPTS,
    ensures
        ({
            let f = after_failures(fetch, messages);
            f.attempt == messages.len() && f.last_error == Some(messages.last()) && f.after(
                FetchEventView::Waited,
            ).1 == if messages.len() < ATTEMPTS {
                FetchActionView::Request
            } else {
                FetchActionView::Fail { message: messages.last(), unreachable: true }
            }
        }),
    decreases messages.len(),
{
    let front = messages.drop_last();
    if front.len() > 0 {
        ranges_are_tried_so_often(fetch, front);
    } else {
        assert(after_failures(fetch, front) == fetch);
    }
}

/// The installation after its request was lost so often, with a pause after each loss.
pub open spec fn after_losses(run: RunView, messages: Seq<Text>) -> RunView
    decreases messages.len(),
{
    if messages.len() == 0 {
        run
    } else {
        after_losses(run, messages.drop_last()).after(
            InstallEventView::Failed { message: messages.last(), unreachable: true },
        ).0
    }
}

/// A metadata request, and a download without ranges, that cannot reach the endpoint is made again
/// after a pause until its attempts are used up. Only then is the other endpoint asked, or the
/// installation given up where there is none.
pub proof fn unreachable_endpoints_are_retried(run: RunView, messages: Seq<Text>, last: Text)
    requires
        run.phase == InstallPhase::Head || run.phase == InstallPhase::Transfer && !run.ranged,
        run.attempt == 0,
        messages.len() < ATTEMPTS,
    ensures
        ({
            let now = after_losses(run, messages);
            let (next, action) = now.after(
                InstallEventView::Failed { message: last, unreachable: true },
            );
            &&& now == (RunView { attempt: messages.len() as u32, ..run })
            &&& now.after(InstallEventView::Waited) == (
                now,
                if run.phase == InstallPhase::Head {
                    InstallActionView::RequestHead { url: run.url() }
                } else {
                    run.transfer()
                },
            )
            &&& if messages.len() + 1 < ATTEMPTS {
                action == (InstallActionView::Wait { seconds: pause_after(now.attempt) })
            } else if run.can_switch() {
                action is SwitchEndpoint
            } else {
                action is Fail
            }
        }),
    decreases messages.len(),
{
    if messages.len() > 0 {
        unreachable_endpoints_are_retried(run, messages.drop_last(), messages.last());
    }
}

/// Progress is what the record of ranges says: a `.part` file alone counts for nothing.
pub proof fn progress_comes_from_the_record(a: ArtifactView, files: ArtifactFiles)
    requires
        files.target_length is None,
        files.part_exists,
    ensures
        status_of(a, files) == (ArtifactStatus::Partial {
            downloaded_bytes: match files.saved {
                Some(s) => capped(covered(s.completed@)),
                None => 0,
            },
            expected_bytes: a.size_bytes,
        }),
{
}

/// An artifact counts as installed only by its own file, with the length that is known of it:
/// interrupted data never does.
pub proof fn interrupted_data_is_not_installed(a: ArtifactView, files: ArtifactFiles)
    ensures
        status_of(a, files) is Installed <==> (files.target_length matches Some(n) && (a.size_bytes
            matches Some(expected) ==> n == expected)),
{
}

proof fn recorded_stays(s: Seq<CompletedRange>, more: Seq<CompletedRange>, x: (int, int))
    ensures
        recorded(s, x) || recorded(more, x) <==> recorded(s + more, x),
{
    let all = s + more;
    if recorded(s, x) {
        let i = choose|i: int|
            0 <= i < s.len() && (#[trigger] s[i]).start == x.0 && s[i].end == x.1;
        assert(all[i] == s[i]);
    }
    if recorded(more, x) {
        let i = choose|i: int|
            0 <= i < more.len() && (#[trigger] more[i]).start == x.0 && more[i].end == x.1;
        assert(all[s.len() + i] == more[i]);
    }
    if recorded(all, x) {
        let i = choose|i: int|
            0 <= i < all.len() && (#[trigger] all[i]).start == x.0 && all[i].end == x.1;
        if i < s.len() {
            assert(s[i] == all[i]);
        } else {
            assert(more[i - s.len()] == all[i]);
        }
    }
}

/// Once every missing range has been recorded, nothing is missing.
pub proof fn a_download_is_complete_when_every_missing_range_came(
    chunk: int,
    expected: int,
    completed: Seq<CompletedRange>,
    came: Seq<CompletedRange>,
)
    requires
        forall|x: (int, int)| #[trigger]
            missing_of(split_ranges(0, chunk, expected), completed).contains(x) ==> recorded(
                came,
                x,
            ),
    ensures
        missing_of(split_ranges(0, chunk, expected), completed + came).len() == 0,
{
    let all = split_ranges(0, chunk, expected);
    let left = missing_of(all, completed + came);
    if left.len() > 0 {
        let x = left[0];
        assert(left.contains(x));
        missing_of_facts(all, completed + came, x);
        missing_of_facts(all, completed, x);
        recorded_stays(completed, came, x);
    }
}

}
