//! Laws of the requests that an installation makes: where they go, what their replies have to be,
//! how often they are made, and what is done with the file that came.
use crate::download::{
    hash_matches, kept_ranges, publication, ranged_plan, ranges_supported, received, rewritten,
    space_problem, status_error, MountView, OptionsView, RangeState,
};
use crate::install::{
    space_needed, stage_words, FetchActionView, FetchEventView, FetchView, InstallActionView,
    InstallEventView, InstallPhase, OutcomeView, RunView,
};
use crate::jobs::JobStatus;
use crate::laws::download::{
    cuts, every_byte_is_in_one_range, only_missing_ranges_are_fetched, ranges_cover_the_file,
};
use crate::outside::{hex_digit, hex_text, sha256_digest, status_reason};
use crate::queue::stage_in;
use crate::text::{decimal, lower_text, trimmed, Text};
use vstd::prelude::*;
use vstd::string::*;

verus! {

/// So many slashes.
pub open spec fn slash_run(n: nat) -> Text {
    Seq::new(n, |i: int| '/')
}

/// The address that an action asks.
pub open spec fn address_in(action: InstallActionView) -> Option<Text> {
    match action {
        InstallActionView::RequestHead { url } => Some(url),
        InstallActionView::SwitchEndpoint { url, .. } => Some(url),
        InstallActionView::DownloadRanged { url, .. } => Some(url),
        InstallActionView::DownloadSequential { url, .. } => Some(url),
        _ => None,
    }
}

/// `endpoint` is Hugging Face's own, written with or without slashes at its end.
pub open spec fn official(endpoint: Text) -> bool {
    exists|n: nat|
        endpoint == "https://huggingface.co"@ + #[trigger] slash_run(n)
}

/// The endpoint that a run uses: the chosen one, and once it was switched, the other one of Hugging
/// Face's own and the mirror.
pub open spec fn endpoint_in_use(run: RunView) -> Option<Text> {
    if !run.switched {
        run.endpoint
    } else {
        match run.endpoint {
            None => Some("https://hf-mirror.com"@),
            Some(e) => if official(e) {
                Some("https://hf-mirror.com"@)
            } else {
                Some("https://huggingface.co"@)
            },
        }
    }
}

proof fn slashes_go(s: Text, n: nat)
    requires
        s.len() > 0,
        s.last() != '/',
    ensures
        crate::text::without_trailing(s + slash_run(n), '/') == s,
    decreases n,
{
    let all = s + slash_run(n);
    if n > 0 {
        assert(all.drop_last() =~= s + slash_run((n - 1) as nat));
        slashes_go(s, (n - 1) as nat);
    } else {
        assert(all =~= s);
    }
}

proof fn slashes_come(s: Text) -> (n: nat)
    ensures
        s == crate::text::without_trailing(s, '/') + slash_run(n),
    decreases s.len(),
{
    let t = crate::text::without_trailing(s, '/');
    if s.len() > 0 && s.last() == '/' {
        let n = slashes_come(s.drop_last());
        assert(s =~= s.drop_last().push('/'));
        assert(slash_run(n + 1) =~= slash_run(n).push('/'));
        assert(s =~= t + slash_run(n + 1));
        n + 1
    } else {
        assert(s =~= t + slash_run(0nat));
        0nat
    }
}

proof fn in_use_is_now(run: RunView)
    ensures
        endpoint_in_use(run) == run.endpoint_now(),
{
    reveal_strlit("https://huggingface.co");
    let o = "https://huggingface.co"@;
    assert(o.last() == 'o');
    match run.endpoint {
        None => {},
        Some(e) => {
            if official(e) {
                let n = choose|n: nat| e == o + #[trigger] slash_run(n);
                slashes_go(o, n);
            } else if crate::text::without_trailing(e, '/') == o {
                let n = slashes_come(e);
                assert(e == o + slash_run(n));
            }
        },
    }
}

/// An address at Hugging Face is asked at the endpoint, whatever slashes that ends with; the rest of
/// the address stays. Without an endpoint, and on another host, nothing changes.
pub proof fn addresses_are_asked_at_the_endpoint(endpoint: Text, slashes: nat, rest: Text, url: Text)
    requires
        endpoint.len() > 0,
        endpoint.last() != '/',
        rest.len() == 0 || rest[0] == '/' || rest[0] == '?' || rest[0] == '#',
    ensures
        rewritten(
            "https://huggingface.co"@ + rest,
            Some(endpoint + slash_run(slashes)),
        ) == endpoint + rest,
        rewritten(url, None) == url,
        !(url.len() >= 22 && url.take(22) == "https://huggingface.co"@) ==> rewritten(
            url,
            Some(endpoint),
        ) == url,
{
    reveal_strlit("https://huggingface.co");
    let o = "https://huggingface.co"@;
    let all = o + rest;
    slashes_go(endpoint, slashes);
    assert(all.take(o.len() as int) =~= o);
    assert(all.skip(o.len() as int) =~= rest);
}

/// A host that only begins like that of Hugging Face is another host.
pub proof fn longer_hosts_are_other_hosts(rest: Text, endpoint: Option<Text>)
    requires
        rest.len() > 0,
        rest[0] != '/' && rest[0] != '?' && rest[0] != '#' && rest[0] != ':',
    ensures
        rewritten("https://huggingface.co"@ + rest, endpoint) == "https://huggingface.co"@ + rest,
{
    reveal_strlit("https://huggingface.co");
    let o = "https://huggingface.co"@;
    assert((o + rest).skip(o.len() as int) =~= rest);
}

/// Every request of an installation, for metadata, for ranges or for the whole file, again or after
/// a switch, goes to the endpoint in use.
pub proof fn requests_go_to_the_endpoint_in_use(
    run: RunView,
    event: InstallEventView,
    endpoint: Text,
    slashes: nat,
    rest: Text,
)
    requires
        address_in(run.after(event).1) is Some,
        endpoint.len() > 0,
        endpoint.last() != '/',
        rest.len() == 0 || rest[0] == '/' || rest[0] == '?' || rest[0] == '#',
    ensures
        ({
            let url = address_in(run.after(event).1)->0;
            let used = endpoint_in_use(run.after(event).0);
            &&& used is None ==> url == run.artifact.url
            &&& !(run.artifact.url.len() >= 22 && run.artifact.url.take(22)
                == "https://huggingface.co"@) ==> url == run.artifact.url
            &&& run.artifact.url == "https://huggingface.co"@ + rest && used == Some(
                endpoint + slash_run(slashes),
            ) ==> url == endpoint + rest
        }),
{
    let (next, action) = run.after(event);
    in_use_is_now(next);
    let url = address_in(action)->0;
    assert(url == rewritten(run.artifact.url, next.endpoint_now()));
    addresses_are_asked_at_the_endpoint(endpoint, slashes, rest, run.artifact.url);
    match next.endpoint_now() {
        None => {},
        Some(e) => {
            reveal_strlit("https://huggingface.co");
            if !(run.artifact.url.len() >= 22 && run.artifact.url.take(22)
                == "https://huggingface.co"@) {
                assert(url == run.artifact.url);
            }
        },
    }
}

/// A run keeps what it installs, where it installs it, what was asked of it and which endpoint was
/// chosen.
#[verifier::rlimit(60)]
#[verifier::spinoff_prover]
pub proof fn installations_keep_their_purpose(run: RunView, event: InstallEventView)
    ensures
        ({
            let next = run.after(event).0;
            &&& next.artifact == run.artifact
            &&& next.root == run.root
            &&& next.force == run.force
            &&& next.endpoint == run.endpoint
            &&& next.token_present == run.token_present
            &&& next.windows == run.windows
        }),
{
}

/// A file is downloaded for an artifact only where the final one is not there, or where it does not
/// match and replacing it was asked for.
pub proof fn downloads_are_needed(run: RunView, event: InstallEventView)
    requires
        run.phase == InstallPhase::InspectTarget || run.phase == InstallPhase::HashTarget,
        run.after(event).1 is RequestHead,
    ensures
        event == (InstallEventView::Target { length: None }) || run.force && (event
            == InstallEventView::Hashed { matches: false } || (event matches InstallEventView::Target {
            length,
        } && length is Some && run.artifact.size_bytes is Some && length
            != run.artifact.size_bytes)),
{
}

/// A file that is there and matches is not touched: nothing is downloaded in its place.
pub proof fn matching_files_are_kept(run: RunView, length: u64)
    requires
        run.artifact.size_bytes is None || run.artifact.size_bytes == Some(length),
    ensures
        run.phase == InstallPhase::InspectTarget && run.artifact.sha256 is None ==> run.after(
            InstallEventView::Target { length: Some(length) },
        ).1 == InstallActionView::Finish(OutcomeView::AlreadyInstalled),
        run.phase == InstallPhase::InspectTarget ==> (run.artifact.sha256 matches Some(h)
            ==> run.after(InstallEventView::Target { length: Some(length) }).1 == (
        InstallActionView::HashFile { path: run.target(), expected: h })),
        run.phase == InstallPhase::HashTarget ==> run.after(
            InstallEventView::Hashed { matches: true },
        ).1 == InstallActionView::Finish(OutcomeView::AlreadyInstalled),
        run.phase == InstallPhase::HashTarget && !run.force ==> run.after(
            InstallEventView::Hashed { matches: false },
        ).1 is Fail,
{
}

/// What a metadata reply settles: only a success does, and only where a size is known and the two
/// known sizes agree. The file is then downloaded in ranges exactly where the server takes them.
pub proof fn metadata_settles_the_download(
    run: RunView,
    status: u16,
    content_length: Option<Text>,
    accept_ranges: Option<Text>,
)
    requires
        run.phase == InstallPhase::Head,
    ensures
        ({
            let remote = match content_length {
                Some(t) => crate::text::parsed_u64(t),
                None => None,
            };
            let (next, action) = run.after(
                InstallEventView::Head { status, content_length, accept_ranges },
            );
            &&& action is ReadProgress || action is Fail
            &&& action is ReadProgress <==> 200 <= status <= 299 && (run.artifact.size_bytes is Some
                || remote is Some) && (run.artifact.size_bytes is Some && remote is Some
                ==> run.artifact.size_bytes == remote)
            &&& action is ReadProgress && run.artifact.size_bytes is Some ==> run.artifact.size_bytes
                == Some(next.expected)
            &&& action is ReadProgress && remote is Some ==> remote == Some(next.expected)
            &&& action is ReadProgress ==> (next.ranged <==> (accept_ranges matches Some(h)
                && exists|at: int|
                0 <= at <= h.len() - 5 && #[trigger] lower_text(h).subrange(at, at + 5)
                    == "bytes"@))
        }),
{
    reveal_strlit("bytes");
    if let Some(h) = accept_ranges {
        let l = lower_text(h);
        assert(l.len() == h.len());
        if ranges_supported(accept_ranges) {
            let at = choose|at: int| crate::text::stands_at(l, "bytes"@, at);
            assert(l.subrange(at, at + 5) == "bytes"@);
        } else {
            assert forall|at: int| 0 <= at <= h.len() - 5 implies #[trigger] l.subrange(at, at + 5)
                != "bytes"@ by {
                assert(!crate::text::stands_at(l, "bytes"@, at));
            }
        }
    }
}

/// The size that was settled stays until the end, and the same file is asked for, measured, hashed
/// and published.
pub proof fn one_file_is_downloaded_measured_hashed_and_published(
    run: RunView,
    event: InstallEventView,
)
    ensures
        ({
            let (next, action) = run.after(event);
            let part = crate::download::part_of(run.windows, run.root, run.artifact);
            &&& action matches InstallActionView::DownloadRanged { part: p, expected, .. } ==> p
                == part && expected == next.expected && next.ranged
            &&& action matches InstallActionView::DownloadSequential { part: p, expected, .. } ==> p
                == part && expected == next.expected && !next.ranged
            &&& action matches InstallActionView::MeasurePart { path } ==> path == part && run.phase
                == InstallPhase::Transfer && event is Done
            &&& action matches InstallActionView::HashFile { path, expected } ==> run.artifact.sha256
                == Some(expected) && (if run.phase == InstallPhase::InspectTarget {
                path == crate::paths::joined_path(
                    run.windows,
                    run.root,
                    run.artifact.relative_path,
                )
            } else {
                path == part && run.phase == InstallPhase::MeasurePart && event
                    == InstallEventView::Part { length: run.expected }
            })
            &&& action matches InstallActionView::Publish { part: p, target, force, .. } ==> p == part
                && target == crate::paths::joined_path(
                run.windows,
                run.root,
                run.artifact.relative_path,
            ) && force == run.force
            &&& run.phase != InstallPhase::Head ==> next.expected == run.expected && next.ranged
                == run.ranged
        }),
{
}

/// A transfer begins only where the free space was found large enough.
pub proof fn transfers_fit(run: RunView, mounts: Seq<MountView>)
    requires
        run.phase == InstallPhase::MeasureSpace,
    ensures
        run.after(InstallEventView::Space { mounts }).1 is CreateDir <==> space_problem(
            run.windows,
            mounts,
            crate::download::target_dir(run.windows, run.root, run.artifact),
            run.required,
        ) is None,
        run.after(InstallEventView::Space { mounts }).1 is CreateDir || run.after(
            InstallEventView::Space { mounts },
        ).1 is Fail,
{
}

/// The space asked for is what is missing and a reserve of a fiftieth of the file, never less than
/// a GiB.
pub proof fn a_reserve_is_left(expected: u64, done: u64)
    requires
        done <= expected,
        expected <= 0x0fff_ffff_ffff_ffff,
    ensures
        space_needed(expected, done) >= expected - done + 1024 * 1024 * 1024,
        50 * (space_needed(expected, done) - (expected - done)) + 49 >= expected,
        space_needed(expected, done) == expected - done + 1024 * 1024 * 1024 || 50 * (space_needed(
            expected,
            done,
        ) - (expected - done)) <= expected,
{
}

/// A failure to reach the server is followed by a pause, eight attempts in all: one second longer
/// each time, five seconds at most. A failure of another sort ends the installation.
pub proof fn lost_requests_are_made_again(run: RunView, message: Text)
    requires
        run.phase == InstallPhase::Head || run.phase == InstallPhase::Transfer && !run.ranged,
    ensures
        ({
            let (next, action) = run.after(
                InstallEventView::Failed { message, unreachable: true },
            );
            &&& run.attempt < 7 ==> next.attempt == run.attempt + 1 && next.phase == run.phase
                && action == (InstallActionView::Wait {
                seconds: if run.attempt < 5 {
                    (run.attempt + 1) as u64
                } else {
                    5
                },
            })
            &&& run.attempt >= 7 ==> action is SwitchEndpoint || action is Fail
            &&& run.attempt >= 7 && run.switched ==> action is Fail
        }),
        run.after(InstallEventView::Failed { message, unreachable: false }).1 is Fail,
        run.after(InstallEventView::Waited).0 == run,
        run.phase == InstallPhase::Head ==> run.after(InstallEventView::Waited).1 is RequestHead,
        run.phase == InstallPhase::Transfer ==> run.after(
            InstallEventView::Waited,
        ).1 is DownloadSequential,
{
}

/// When the attempts at a Hugging Face address are used up, the other endpoint is asked from the
/// beginning; a ranged download, whose ranges have been tried so often already, goes there at once.
pub proof fn the_other_endpoint_is_asked_next(run: RunView, message: Text, rest: Text)
    requires
        run.artifact.url == "https://huggingface.co"@ + rest,
        rest.len() > 0 && rest[0] == '/',
        !run.switched,
        run.attempt >= 7 && (run.phase == InstallPhase::Head || run.phase
            == InstallPhase::Transfer) || run.phase == InstallPhase::Transfer && run.ranged,
    ensures
        ({
            let (next, action) = run.after(
                InstallEventView::Failed { message, unreachable: true },
            );
            &&& action is SwitchEndpoint
            &&& next.switched
            &&& next.phase == InstallPhase::Head
            &&& next.attempt == 0
        }),
{
    reveal_strlit("https://huggingface.co");
    let o = "https://huggingface.co"@;
    assert((o + rest).take(o.len() as int) =~= o);
    assert((o + rest).skip(o.len() as int) =~= rest);
}

/// A range is accepted only as what it is: a reply of partial content, then exactly its bytes.
pub proof fn ranges_are_accepted_whole(fetch: FetchView, event: FetchEventView)
    ensures
        fetch.after(event).1 is ReadBody <==> event == (FetchEventView::Replied { status: 206 }),
        fetch.after(event).1 is Accept <==> (event matches FetchEventView::Body { bytes }
            && fetch.start + bytes == fetch.end + 1),
        fetch.after(event).0.start == fetch.start,
        fetch.after(event).0.end == fetch.end,
        fetch.after(event).0.url == fetch.url,
{
}

/// A range that did not come is asked for again after a pause, eight times in all, and given up
/// with its last error.
pub proof fn lost_ranges_are_asked_for_again(fetch: FetchView, event: FetchEventView)
    requires
        fetch.attempt < 8,
        !(event is Waited),
        !(fetch.after(event).1 is ReadBody),
        !(fetch.after(event).1 is Accept),
    ensures
        event == (FetchEventView::Replied { status: 401 }) || event == (FetchEventView::Replied {
            status: 403,
        }) ==> fetch.after(event).1 is Fail,
        event != (FetchEventView::Replied { status: 401 }) && event != (FetchEventView::Replied {
            status: 403,
        }) ==> ({
            let (next, action) = fetch.after(event);
            &&& action == (FetchActionView::Wait {
                seconds: if fetch.attempt < 5 {
                    (fetch.attempt + 1) as u64
                } else {
                    5
                },
            })
            &&& next.attempt == fetch.attempt + 1
            &&& next.last_error is Some
            &&& next.unreachable == (event is Failed)
            &&& event matches FetchEventView::Failed { message } ==> next.last_error == Some(message)
            &&& next.after(FetchEventView::Waited).1 == if next.attempt < 8 {
                FetchActionView::Request
            } else {
                FetchActionView::Fail {
                    message: next.last_error->0,
                    unreachable: event is Failed,
                }
            }
        }),
{
}

/// What is reported of a reply: a request without a token is told from one whose token was refused,
/// and both from every other failure.
pub proof fn replies_are_reported(operation: Text, target: Text, status: u16)
    ensures
        status == 401 || status == 403 ==> status_error(operation, target, status, false)
            == operation + " requires authentication for "@ + target + ": "@ + (decimal(
            status as nat,
        ) + " "@ + status_reason(status))
            + "; set HF_TOKEN and accept any repository terms before retrying"@,
        status == 401 || status == 403 ==> status_error(operation, target, status, true)
            == operation + " was rejected for "@ + target + ": "@ + (decimal(status as nat) + " "@
            + status_reason(status))
            + "; HF_TOKEN may be invalid or may not have accepted the repository terms"@,
        status != 401 && status != 403 ==> forall|token: bool| #[trigger]
            status_error(operation, target, status, token) == operation + " failed for "@ + target
                + ": "@ + (decimal(status as nat) + " "@ + status_reason(status)),
{
}

proof fn hex_is_lower(bytes: Seq<u8>)
    ensures
        lower_text(hex_text(bytes)) == hex_text(bytes),
{
    let h = hex_text(bytes);
    assert forall|i: int| 0 <= i < h.len() implies lower_text(h)[i] == h[i] by {
        let d: nat = if i % 2 == 0 {
            bytes[i / 2] as nat / 16
        } else {
            bytes[i / 2] as nat % 16
        };
        assert(d < 16);
        assert(h[i] == hex_digit(d));
        assert(!('A' <= hex_digit(d) <= 'Z'));
    }
    assert(lower_text(h) =~= h);
}

/// A file has the expected hash exactly where that is, but for its case and the blanks around it,
/// the file's digest in hexadecimal.
pub proof fn hashes_are_those_of_the_file(bytes: Seq<u8>, expected: Text)
    ensures
        hash_matches(bytes, expected) <==> lower_text(trimmed(expected)) == hex_text(
            sha256_digest(bytes),
        ),
{
    hex_is_lower(sha256_digest(bytes));
}

/// A record is gone on from only where it is of a file of the same size, or of none yet.
pub proof fn records_are_of_the_same_file(state: RangeState, expected: u64)
    ensures
        kept_ranges(None, expected).len() == 0,
        state.expected_size == expected || state.expected_size == 0 ==> kept_ranges(
            Some(state),
            expected,
        ) == state.completed@,
        state.expected_size != expected && state.expected_size != 0 ==> kept_ranges(
            Some(state),
            expected,
        ).len() == 0,
{
}

/// The stages that an installation announces are those that the download manager shows.
pub proof fn stages_are_shown()
    ensures
        stage_words(InstallPhase::Head) matches Some(m) && stage_in(m) == Some(
            JobStatus::Resolving,
        ),
        stage_words(InstallPhase::Transfer) matches Some(m) && stage_in(m) == Some(
            JobStatus::Downloading,
        ),
        stage_words(InstallPhase::MeasurePart) matches Some(m) && stage_in(m) == Some(
            JobStatus::Processing,
        ),
        stage_words(InstallPhase::Publish) matches Some(m) && stage_in(m) == Some(
            JobStatus::Installing,
        ),
{
    reveal_strlit("phase:resolving");
    reveal_strlit("phase:downloading");
    reveal_strlit("phase:processing");
    reveal_strlit("phase:installing");
    assert("phase:resolving"@[6] == 'r');
    assert("phase:downloading"@[6] == 'd');
    assert("phase:processing"@[6] == 'p');
    assert("phase:installing"@[6] == 'i');
}

/// A ranged download asks for what is not there yet: every byte of the file is in a range that is
/// asked for or in one that is recorded; no recorded range is asked for again; each is of the file
/// and no longer than the chunk size, which is a MiB at least. At least one is asked for at a time.
pub proof fn ranged_plans_ask_for_the_rest(
    saved: Option<RangeState>,
    expected: u64,
    options: OptionsView,
    byte: int,
    k: int,
)
    requires
        0 <= byte < expected,
    ensures
        ({
            let (kept, missing, workers) = ranged_plan(saved, expected, options);
            &&& (exists|i: int|
                0 <= i < missing.len() && (#[trigger] missing[i]).0 <= byte <= missing[i].1) || (
            exists|i: int| 0 <= i < kept.len() && (#[trigger] kept[i]).start <= byte <= kept[i].end)
            &&& 0 <= k < missing.len() ==> 0 <= missing[k].0 <= missing[k].1 < expected && missing[k].1
                - missing[k].0 < (if options.chunk_size_bytes > 1048576 {
                options.chunk_size_bytes as int
            } else {
                1048576
            }) && forall|i: int|
                0 <= i < kept.len() ==> !((#[trigger] kept[i]).start == missing[k].0 && kept[i].end
                    == missing[k].1)
            &&& workers >= 1 && (options.parallelism >= 1 ==> workers == options.parallelism)
            &&& saved is None ==> kept.len() == 0
            &&& saved matches Some(s) ==> s.expected_size == expected ==> kept == s.completed@
            &&& saved matches Some(s) ==> s.expected_size != 0 && s.expected_size != expected
                ==> kept.len() == 0
        }),
{
    let (kept, missing, workers) = ranged_plan(saved, expected, options);
    let chunk = crate::download::chunk_of(options.chunk_size_bytes) as int;
    let e = expected as int;
    let all = crate::download::split_ranges(0, chunk, e);
    every_byte_is_in_one_range(chunk, e, byte);
    ranges_cover_the_file(0, chunk, e);
    let i = choose|i: int| 0 <= i < all.len() && (#[trigger] all[i]).0 <= byte <= all[i].1;
    only_missing_ranges_are_fetched(chunk, e, kept, all[i]);
    assert(all.contains(all[i]));
    if crate::download::recorded(kept, all[i]) {
        let m = choose|m: int|
            0 <= m < kept.len() && (#[trigger] kept[m]).start == all[i].0 && kept[m].end == all[i].1;
        assert(kept[m].start <= byte <= kept[m].end);
    } else {
        let m = choose|m: int| 0 <= m < missing.len() && missing[m] == all[i];
        assert(missing[m].0 <= byte <= missing[m].1);
    }
    if 0 <= k < missing.len() {
        only_missing_ranges_are_fetched(chunk, e, kept, missing[k]);
        assert(missing.contains(missing[k]));
        let m = choose|m: int| 0 <= m < all.len() && all[m] == missing[k];
        assert(all[m].0 <= all[m].1);
        ends_in_file(all, chunk, e, m);
    }
}

proof fn ends_in_file(r: Seq<(int, int)>, chunk: int, expected: int, m: int)
    requires
        cuts(r, 0, chunk, expected),
        0 <= m < r.len(),
    ensures
        0 <= r[m].0,
        r[m].1 < expected,
    decreases r.len() - m,
{
    if m + 1 < r.len() {
        ends_in_file(r, chunk, expected, m + 1);
        assert(r[m].1 + 1 == r[m + 1].0);
        assert(r[m + 1].0 <= r[m + 1].1);
    }
    begins_in_file(r, chunk, expected, m);
}

proof fn begins_in_file(r: Seq<(int, int)>, chunk: int, expected: int, m: int)
    requires
        cuts(r, 0, chunk, expected),
        0 <= m < r.len(),
    ensures
        0 <= r[m].0,
    decreases m,
{
    if m > 0 {
        begins_in_file(r, chunk, expected, m - 1);
        assert(r[m - 1].1 + 1 == r[m].0);
        assert(r[m - 1].0 <= r[m - 1].1);
    }
}

/// A finished file takes an empty place, replaces what is there only where that was asked for, and
/// is refused else. A download without ranges may bring no more than was expected.
pub proof fn nothing_is_replaced_unasked(written: u64, piece: u64, expected: u64)
    ensures
        publication(false, true) is Rename,
        publication(false, false) is Rename,
        publication(true, true) is Replace,
        publication(true, false) is Refuse,
        received(written, piece, expected) is Some <==> written + piece <= expected,
        received(written, piece, expected) matches Some(n) ==> n == written + piece,
{
}

/// How an artifact that is not there comes to its place: the server is asked about it, what an
/// earlier download left is looked at, the space for the rest is measured where it goes, the
/// temporary directory is created, the file is transferred and measured, its hash is checked where
/// one is known, and it is published; then the temporary directory is removed. It counts as resumed
/// where something was there to go on from.
pub proof fn artifacts_come_to_their_place(
    run: RunView,
    status: u16,
    content_length: Option<Text>,
    accept_ranges: Option<Text>,
    saved: Option<RangeState>,
    part_exists: bool,
    mounts: Seq<MountView>,
)
    requires
        run.phase == InstallPhase::InspectTarget,
        run.after(InstallEventView::Target { length: None }).0.after(
            InstallEventView::Head { status, content_length, accept_ranges },
        ).1 is ReadProgress,
    ensures
        ({
            let part = crate::download::part_of(run.windows, run.root, run.artifact);
            let ranges = crate::download::ranges_of(run.windows, run.root, run.artifact);
            let temporary = crate::download::temp_dir_of(run.windows, run.root, run.artifact);
            let target = crate::download::target_of(run.windows, run.root, run.artifact);
            let dir = crate::download::target_dir(run.windows, run.root, run.artifact);
            let (r0, a0) = run.after(InstallEventView::Target { length: None });
            let (r1, a1) = r0.after(
                InstallEventView::Head { status, content_length, accept_ranges },
            );
            let (r2, a2) = r1.after(InstallEventView::Progress { saved, part_exists });
            let (r3, a3) = r2.after(InstallEventView::Space { mounts });
            let (r4, a4) = r3.after(InstallEventView::Done);
            let (r5, a5) = r4.after(InstallEventView::Done);
            let (r6, a6) = r5.after(InstallEventView::Part { length: r1.expected });
            let (r7, a7) = if run.artifact.sha256 is Some {
                r6.after(InstallEventView::Hashed { matches: true })
            } else {
                (r6, a6)
            };
            let (r8, a8) = r7.after(InstallEventView::Done);
            let (_, a9) = r8.after(InstallEventView::Done);
            let left = crate::download::resumed_bytes(saved, r1.expected);
            &&& a0 is RequestHead
            &&& a1 == InstallActionView::ReadProgress { part, ranges }
            &&& a2 == InstallActionView::MeasureSpace { path: dir }
            &&& r2.required == space_needed(r1.expected, left)
            &&& a3 is CreateDir ==> {
                &&& a3 == InstallActionView::CreateDir { path: temporary }
                &&& r1.ranged ==> a4 is DownloadRanged
                &&& !r1.ranged ==> a4 is DownloadSequential
                &&& a5 == InstallActionView::MeasurePart { path: part }
                &&& run.artifact.sha256 matches Some(h) ==> a6 == (InstallActionView::HashFile {
                    path: part,
                    expected: h,
                })
                &&& a7 matches InstallActionView::Publish { part: p, target: t, .. } && p == part
                    && t == target
                &&& a8 == InstallActionView::RemoveTemp { path: temporary }
                &&& part_exists && left > 0 ==> a9 == InstallActionView::Finish(
                    OutcomeView::Resumed(target),
                )
                &&& !(part_exists && left > 0) ==> a9 == InstallActionView::Finish(
                    OutcomeView::Installed(target),
                )
                &&& run.artifact.sha256 is Some ==> r6.after(
                    InstallEventView::Hashed { matches: false },
                ).1 is Fail
                &&& forall|n: u64|
                    n != r1.expected ==> (#[trigger] r5.after(
                        InstallEventView::Part { length: n },
                    )).1 is Fail
            }
        }),
{
}

/// A transfer, in ranges or as a whole, asks for the artifact at the endpoint in use.
pub proof fn transfers_ask_the_endpoint_in_use(
    run: RunView,
    endpoint: Text,
    slashes: nat,
    rest: Text,
)
    requires
        endpoint.len() > 0,
        endpoint.last() != '/',
        rest.len() == 0 || rest[0] == '/' || rest[0] == '?' || rest[0] == '#',
        run.artifact.url == "https://huggingface.co"@ + rest,
    ensures
        endpoint_in_use(run) == Some(endpoint + slash_run(slashes)) ==> address_in(run.transfer())
            == Some(endpoint + rest),
        endpoint_in_use(run) is None ==> address_in(run.transfer()) == Some(run.artifact.url),
        run.ranged ==> run.transfer() is DownloadRanged,
        !run.ranged ==> run.transfer() is DownloadSequential,
{
    in_use_is_now(run);
    addresses_are_asked_at_the_endpoint(endpoint, slashes, rest, run.artifact.url);
}

}
