//! The download engine's rules: where temporary data lives, how a file is split into ranges, what
//! has been downloaded already, which address is asked, and how replies are judged.
use crate::catalog::{Artifact, ArtifactView};
use crate::outside::{
    hex_encode, hex_text, new_uuid, sha256_digest, sha256_finalize, sha256_input, sha256_new,
    sha256_update, status_line, status_text, uuid_shaped, valid_status,
};
use crate::paths::{
    file_name, file_name_of, join_path, joined_path, lies_under, parent, parent_of,
    path_starts_with, with_extension, with_extension_of,
};
use crate::size::{as_double, nearest_double, one_decimal, one_decimal_text, GIB};
use crate::text::{
    byte_len, byte_length, cat2, cat4, cat5, cat6, chars_of, clone_opt, contains, contains_text,
    decimal, decimal_text, has_prefix, lower_text, replace_chars, replaced, same_ignoring_case,
    strip_prefix, to_lower, trim, trim_end_char, trimmed, without_trailing, Text,
};
use vstd::prelude::*;
use vstd::string::*;

verus! {

/// How a download is carried out.
pub struct DownloadOptions {
    pub parallelism: usize,
    pub chunk_size_bytes: u64,
    pub force: bool,
    pub hf_endpoint: Option<String>,
    pub hf_token: Option<String>,
}

/// What [`DownloadOptions`] hold.
pub struct OptionsView {
    pub parallelism: usize,
    pub chunk_size_bytes: u64,
    pub force: bool,
    pub hf_endpoint: Option<Text>,
    pub hf_token: Option<Text>,
}

impl DeepView for DownloadOptions {
    type V = OptionsView;

    open spec fn deep_view(&self) -> OptionsView {
        OptionsView {
            parallelism: self.parallelism,
            chunk_size_bytes: self.chunk_size_bytes,
            force: self.force,
            hf_endpoint: self.hf_endpoint.deep_view(),
            hf_token: self.hf_token.deep_view(),
        }
    }
}

impl DownloadOptions {
    /// Options that hold the same.
    pub fn copy(&self) -> (r: DownloadOptions)
        ensures
            r.deep_view() == self.deep_view(),
    {
        DownloadOptions {
            parallelism: self.parallelism,
            chunk_size_bytes: self.chunk_size_bytes,
            force: self.force,
            hf_endpoint: clone_opt(&self.hf_endpoint),
            hf_token: clone_opt(&self.hf_token),
        }
    }
}

impl Default for DownloadOptions {
    fn default() -> (r: DownloadOptions)
        ensures
            r.parallelism == 4,
            r.chunk_size_bytes == 16 * 1024 * 1024,
            !r.force,
            r.hf_endpoint is None,
            r.hf_token is None,
    {
        DownloadOptions {
            parallelism: 4,
            chunk_size_bytes: 16 * 1024 * 1024,
            force: false,
            hf_endpoint: None,
            hf_token: None,
        }
    }
}

/// The bytes from `start` to `end`, both included.
#[derive(Clone, Copy, Debug, PartialEq, Eq, Structural)]
pub struct CompletedRange {
    pub start: u64,
    pub end: u64,
}

impl CompletedRange {
    /// How many bytes the range has; one that ends before it starts counts as one byte.
    pub open spec fn span(self) -> nat {
        if self.end >= self.start {
            (self.end - self.start + 1) as nat
        } else {
            1
        }
    }
}

/// What `ranges.json` records: the ranges that have been written to the `.part` file.
#[derive(Debug)]
pub struct RangeState {
    pub expected_size: u64,
    pub completed: Vec<CompletedRange>,
}

impl Default for RangeState {
    fn default() -> (r: RangeState)
        ensures
            r.expected_size == 0,
            r.completed@ == Seq::<CompletedRange>::empty(),
    {
        RangeState { expected_size: 0, completed: Vec::new() }
    }
}

/// How many bytes the ranges have together.
pub open spec fn covered(s: Seq<CompletedRange>) -> nat
    decreases s.len(),
{
    if s.len() == 0 {
        0
    } else {
        covered(s.drop_last()) + s.last().span()
    }
}

/// `n`, or the largest count where it does not fit.
pub open spec fn capped(n: nat) -> u64 {
    if n <= u64::MAX {
        n as u64
    } else {
        u64::MAX
    }
}

/// `s` with `x` after every range that does not start behind it.
pub open spec fn placed(s: Seq<CompletedRange>, x: CompletedRange) -> Seq<CompletedRange>
    decreases s.len(),
{
    if s.len() == 0 || s.last().start <= x.start {
        s.push(x)
    } else {
        placed(s.drop_last(), x).push(s.last())
    }
}

/// `s` in the order of the starts; ranges with the same start keep their order.
pub open spec fn by_start(s: Seq<CompletedRange>) -> Seq<CompletedRange>
    decreases s.len(),
{
    if s.len() == 0 {
        Seq::empty()
    } else {
        placed(by_start(s.drop_last()), s.last())
    }
}

proof fn placed_is_insert(s: Seq<CompletedRange>, x: CompletedRange, at: int)
    requires
        0 <= at <= s.len(),
        at == 0 || s[at - 1].start <= x.start,
        forall|k: int| at <= k < s.len() ==> (#[trigger] s[k]).start > x.start,
    ensures
        placed(s, x) == s.insert(at, x),
    decreases s.len(),
{
    if s.len() == 0 || s.last().start <= x.start {
        if s.len() > 0 && at < s.len() {
            assert(s[s.len() - 1].start > x.start);
        }
        assert(s.insert(at, x) =~= s.push(x));
    } else {
        placed_is_insert(s.drop_last(), x, at);
        assert(s.insert(at, x) =~= s.drop_last().insert(at, x).push(s.last()));
    }
}

fn sort_by_start(v: &Vec<CompletedRange>) -> (r: Vec<CompletedRange>)
    ensures
        r@ == by_start(v@),
{
    let mut out: Vec<CompletedRange> = Vec::new();
    let mut i: usize = 0;
    assert(v@.take(0) =~= Seq::empty());
    while i < v.len()
        invariant
            i <= v@.len(),
            out@ == by_start(v@.take(i as int)),
        decreases v@.len() - i,
    {
        let x = v[i];
        let mut at: usize = out.len();
        while at > 0 && out[at - 1].start > x.start
            invariant
                at <= out@.len(),
                forall|k: int| at <= k < out@.len() ==> (#[trigger] out@[k]).start > x.start,
            decreases at,
        {
            at -= 1;
        }
        proof {
            placed_is_insert(out@, x, at as int);
            assert(v@.take(i + 1).drop_last() =~= v@.take(i as int));
        }
        out.insert(at, x);
        i += 1;
    }
    assert(v@.take(v@.len() as int) =~= v@);
    out
}

proof fn covered_grows(s: Seq<CompletedRange>, k: int)
    requires
        0 <= k <= s.len(),
    ensures
        covered(s.take(k)) <= covered(s),
    decreases s.len(),
{
    if k == s.len() {
        assert(s.take(k) =~= s);
    } else {
        covered_grows(s.drop_last(), k);
        assert(s.drop_last().take(k) =~= s.take(k));
    }
}

impl RangeState {
    /// How many bytes the recorded ranges have together.
    pub fn completed_bytes(&self) -> (r: u64)
        ensures
            r == capped(covered(self.completed@)),
    {
        let ghost s = self.completed@;
        let mut total: u64 = 0;
        let mut i: usize = 0;
        assert(s.take(0) =~= Seq::empty());
        while i < self.completed.len()
            invariant
                i <= self.completed@.len(),
                s == self.completed@,
                total == covered(s.take(i as int)),
            decreases self.completed@.len() - i,
        {
            let range = self.completed[i];
            let past: u64 = if range.end >= range.start {
                range.end - range.start
            } else {
                0
            };
            proof {
                assert(s.take(i + 1).drop_last() =~= s.take(i as int));
                covered_grows(s, i + 1);
            }
            if past == u64::MAX || total > u64::MAX - (past + 1) {
                return u64::MAX;
            }
            total = total + (past + 1);
            i += 1;
        }
        assert(s.take(s.len() as int) =~= s);
        total
    }

    /// Records that a range has been written.
    pub fn record(&mut self, start: u64, end: u64)
        ensures
            final(self).expected_size == old(self).expected_size,
            final(self).completed@ == by_start(
                old(self).completed@.push(CompletedRange { start, end }),
            ),
    {
        self.completed.push(CompletedRange { start, end });
        self.completed = sort_by_start(&self.completed);
    }

    /// A state that holds the same.
    pub fn copy(&self) -> (r: RangeState)
        ensures
            r.expected_size == self.expected_size,
            r.completed@ == self.completed@,
    {
        let mut completed: Vec<CompletedRange> = Vec::new();
        let mut i: usize = 0;
        while i < self.completed.len()
            invariant
                i <= self.completed@.len(),
                completed@ == self.completed@.take(i as int),
            decreases self.completed@.len() - i,
        {
            completed.push(self.completed[i]);
            assert(completed@ =~= self.completed@.take(i + 1));
            i += 1;
        }
        assert(self.completed@.take(self.completed@.len() as int) =~= self.completed@);
        RangeState { expected_size: self.expected_size, completed }
    }
}

/// The ranges that a saved state lets a download of `expected` bytes keep.
pub open spec fn kept_ranges(saved: Option<RangeState>, expected: u64) -> Seq<CompletedRange> {
    match saved {
        Some(s) => if s.expected_size != 0 && s.expected_size != expected {
            Seq::empty()
        } else {
            s.completed@
        },
        None => Seq::empty(),
    }
}

/// The state that a ranged download of `expected` bytes goes on from.
pub fn resume_state(saved: Option<RangeState>, expected: u64) -> (r: RangeState)
    ensures
        r.expected_size == expected,
        r.completed@ == kept_ranges(saved, expected),
{
    match saved {
        Some(s) => {
            if s.expected_size != 0 && s.expected_size != expected {
                RangeState { expected_size: expected, completed: Vec::new() }
            } else {
                RangeState { expected_size: expected, completed: s.completed }
            }
        },
        None => RangeState { expected_size: expected, completed: Vec::new() },
    }
}

/// How many bytes a saved state of the same file size says are there.
pub open spec fn resumed_bytes(saved: Option<RangeState>, expected: u64) -> u64 {
    match saved {
        Some(s) => if s.expected_size == expected {
            capped(covered(s.completed@))
        } else {
            0
        },
        None => 0,
    }
}

/// How many bytes a saved state of the same file size says are there.
pub fn already_downloaded(saved: &Option<RangeState>, expected: u64) -> (r: u64)
    ensures
        r == resumed_bytes(*saved, expected),
{
    match saved {
        Some(s) => {
            if s.expected_size == expected {
                s.completed_bytes()
            } else {
                0
            }
        },
        None => 0,
    }
}

/// The least size of a range.
pub const MIN_CHUNK: u64 = 1048576;

/// The size of the ranges that a file is split into.
pub open spec fn chunk_of(chunk_size_bytes: u64) -> u64 {
    if chunk_size_bytes >= MIN_CHUNK {
        chunk_size_bytes
    } else {
        MIN_CHUNK
    }
}

/// The last byte of the range that begins at `start`.
pub open spec fn range_end(start: int, chunk: int, expected: int) -> int {
    if start + chunk <= expected {
        start + chunk - 1
    } else {
        expected - 1
    }
}

/// The ranges of `chunk` bytes, the last one shorter, that make up the bytes from `start` to
/// `expected`.
pub open spec fn split_ranges(start: int, chunk: int, expected: int) -> Seq<(int, int)>
    decreases expected - start,
{
    if start >= expected || chunk <= 0 {
        Seq::empty()
    } else {
        seq![(start, range_end(start, chunk, expected))] + split_ranges(
            range_end(start, chunk, expected) + 1,
            chunk,
            expected,
        )
    }
}

/// Whether the range is recorded, with exactly these ends.
pub open spec fn recorded(s: Seq<CompletedRange>, range: (int, int)) -> bool {
    exists|i: int|
        0 <= i < s.len() && (#[trigger] s[i]).start == range.0 && s[i].end == range.1
}

/// Those of `ranges` that are not recorded, in order.
pub open spec fn missing_of(
    ranges: Seq<(int, int)>,
    completed: Seq<CompletedRange>,
) -> Seq<(int, int)>
    decreases ranges.len(),
{
    if ranges.len() == 0 {
        Seq::empty()
    } else {
        let rest = missing_of(ranges.skip(1), completed);
        if recorded(completed, ranges[0]) {
            rest
        } else {
            seq![ranges[0]] + rest
        }
    }
}

/// `v` in mathematical integers.
pub open spec fn int_ranges(v: Seq<(u64, u64)>) -> Seq<(int, int)> {
    v.map_values(|r: (u64, u64)| (r.0 as int, r.1 as int))
}

fn is_recorded(v: &Vec<CompletedRange>, start: u64, end: u64) -> (r: bool)
    ensures
        r == recorded(v@, (start as int, end as int)),
{
    let mut i: usize = 0;
    while i < v.len()
        invariant
            i <= v@.len(),
            forall|k: int| 0 <= k < i ==> !((#[trigger] v@[k]).start == start && v@[k].end == end),
        decreases v@.len() - i,
    {
        if v[i].start == start && v[i].end == end {
            return true;
        }
        i += 1;
    }
    false
}

/// The ranges of a file of `expected` bytes that are still to be downloaded, in order.
pub fn missing_ranges(completed: &Vec<CompletedRange>, expected: u64, chunk_size_bytes: u64) -> (r:
    Vec<(u64, u64)>)
    ensures
        int_ranges(r@) == missing_of(
            split_ranges(0, chunk_of(chunk_size_bytes) as int, expected as int),
            completed@,
        ),
{
    let chunk: u64 = if chunk_size_bytes >= MIN_CHUNK {
        chunk_size_bytes
    } else {
        MIN_CHUNK
    };
    let mut out: Vec<(u64, u64)> = Vec::new();
    let mut start: u64 = 0;
    let ghost want = missing_of(split_ranges(0, chunk as int, expected as int), completed@);
    assert(int_ranges(out@) + want =~= want);
    while start < expected
        invariant
            chunk >= 1,
            start <= expected,
            want == int_ranges(out@) + missing_of(
                split_ranges(start as int, chunk as int, expected as int),
                completed@,
            ),
        decreases expected - start,
    {
        let end: u64 = if chunk <= expected - start {
            start + (chunk - 1)
        } else {
            expected - 1
        };
        let ghost before = int_ranges(out@);
        let ghost here = (start as int, end as int);
        let ghost rest = split_ranges(end + 1, chunk as int, expected as int);
        proof {
            let all = split_ranges(start as int, chunk as int, expected as int);
            assert(all =~= seq![here] + rest);
            assert(all.skip(1) =~= rest);
        }
        if !is_recorded(completed, start, end) {
            out.push((start, end));
            assert(int_ranges(out@) =~= before.push(here));
            assert(want =~= int_ranges(out@) + missing_of(rest, completed@));
        }
        start = end + 1;
    }
    assert(want =~= int_ranges(out@));
    out
}

/// How many ranges are downloaded at a time.
pub fn worker_count(parallelism: usize) -> (r: usize)
    ensures
        r == if parallelism >= 1 {
            parallelism
        } else {
            1
        },
{
    if parallelism >= 1 {
        parallelism
    } else {
        1
    }
}

/// The value of the `Range` header for the bytes from `start` to `end`.
pub open spec fn range_request(start: u64, end: u64) -> Text {
    "bytes="@ + decimal(start as nat) + "-"@ + decimal(end as nat)
}

/// The value of the `Range` header for the bytes from `start` to `end`.
pub fn range_header(start: u64, end: u64) -> (r: String)
    ensures
        r@ == range_request(start, end),
{
    let a = decimal_text(start);
    let b = decimal_text(end);
    cat4("bytes=", a.as_str(), "-", b.as_str())
}

/// The final path of an artifact.
pub open spec fn target_of(windows: bool, root: Text, a: ArtifactView) -> Text {
    joined_path(windows, root, a.relative_path)
}

/// The directory that an artifact's file goes to.
pub open spec fn target_dir(windows: bool, root: Text, a: ArtifactView) -> Text {
    match parent_of(windows, target_of(windows, root, a)) {
        Some(p) => p,
        None => root,
    }
}

/// `id` as the name of a directory.
pub open spec fn safe_id(id: Text) -> Text {
    replaced(id, "/\\:"@, '_')
}

/// The temporary directory of an artifact: beside its final file.
pub open spec fn temp_dir_of(windows: bool, root: Text, a: ArtifactView) -> Text {
    let tmp = joined_path(windows, target_dir(windows, root, a), ".comfybox-tmp"@);
    joined_path(windows, tmp, safe_id(a.id))
}

/// The `.part` file of an artifact.
pub open spec fn part_of(windows: bool, root: Text, a: ArtifactView) -> Text {
    joined_path(
        windows,
        temp_dir_of(windows, root, a),
        match file_name_of(windows, target_of(windows, root, a)) {
            Some(n) => n + ".part"@,
            None => ".part"@,
        },
    )
}

/// The record of an artifact's completed ranges.
pub open spec fn ranges_of(windows: bool, root: Text, a: ArtifactView) -> Text {
    joined_path(windows, temp_dir_of(windows, root, a), "ranges.json"@)
}

/// Where an artifact's file goes.
pub fn artifact_target(windows: bool, comfy_root: &str, artifact: &Artifact) -> (r: String)
    ensures
        r@ == target_of(windows, comfy_root@, artifact.deep_view()),
{
    join_path(windows, comfy_root, artifact.relative_path.as_str())
}

/// The directory that an artifact's file goes to.
pub fn artifact_dir(windows: bool, comfy_root: &str, artifact: &Artifact) -> (r: String)
    ensures
        r@ == target_dir(windows, comfy_root@, artifact.deep_view()),
{
    match parent(windows, artifact_target(windows, comfy_root, artifact).as_str()) {
        Some(p) => p,
        None => comfy_root.to_owned(),
    }
}

/// The temporary directory of an artifact, its `.part` file and its record of ranges.
pub fn temp_paths(comfy_root: &str, artifact: &Artifact, windows: bool) -> (r: (
    String,
    String,
    Option<String>,
))
    ensures
        r.0@ == temp_dir_of(windows, comfy_root@, artifact.deep_view()),
        r.1@ == part_of(windows, comfy_root@, artifact.deep_view()),
        r.2.deep_view() == Some(ranges_of(windows, comfy_root@, artifact.deep_view())),
{
    let parent_dir = artifact_dir(windows, comfy_root, artifact);
    let safe = replace_chars(artifact.id.as_str(), "/\\:", '_');
    let tmp = join_path(windows, parent_dir.as_str(), ".comfybox-tmp");
    let dir = join_path(windows, tmp.as_str(), safe.as_str());
    let target = artifact_target(windows, comfy_root, artifact);
    let name = match file_name(windows, target.as_str()) {
        Some(n) => cat2(n.as_str(), ".part"),
        None => ".part".to_owned(),
    };
    let part = join_path(windows, dir.as_str(), name.as_str());
    let ranges = Some(join_path(windows, dir.as_str(), "ranges.json"));
    (dir, part, ranges)
}

/// The name that a file is written under before it takes the place of `path`.
pub open spec fn temporary_name(windows: bool, path: Text, id: Text) -> Text {
    with_extension_of(windows, path, "tmp."@ + id)
}

/// The name that a file is written under before it takes the place of `path`.
pub fn temporary_path(path: &str, id: &str, windows: bool) -> (r: String)
    ensures
        r@ == temporary_name(windows, path@, id@),
{
    let ext = cat2("tmp.", id);
    proof {
        reveal_strlit("tmp.");
    }
    with_extension(windows, path, ext.as_str())
}

/// A fresh name that a file is written under before it takes the place of `path`.
pub fn fresh_temporary_path(path: &str, windows: bool) -> (r: String)
    ensures
        exists|id: Text| uuid_shaped(id) && r@ == #[trigger] temporary_name(windows, path@, id),
{
    let id = new_uuid();
    temporary_path(path, id.as_str(), windows)
}

/// The name that a replaced file is kept under until its successor is in place.
pub open spec fn backup_name(windows: bool, path: Text, id: Text) -> Text {
    with_extension_of(windows, path, "comfybox-backup-"@ + id)
}

/// The name that a replaced file is kept under until its successor is in place.
pub fn backup_path(path: &str, id: &str, windows: bool) -> (r: String)
    ensures
        r@ == backup_name(windows, path@, id@),
{
    let ext = cat2("comfybox-backup-", id);
    proof {
        reveal_strlit("comfybox-backup-");
    }
    with_extension(windows, path, ext.as_str())
}

/// How a finished `.part` file takes its final place.
pub enum PublishPlan {
    /// Nothing is there: rename it.
    Rename,
    /// Something is there: keep it under the backup name until the rename succeeded.
    Replace { backup: String },
}

/// What becomes of a finished `.part` file.
pub enum Publication {
    Rename,
    Replace,
    Refuse,
}

/// What becomes of a finished `.part` file: nothing that is there is replaced unasked.
pub open spec fn publication(target_exists: bool, force: bool) -> Publication {
    if !target_exists {
        Publication::Rename
    } else if force {
        Publication::Replace
    } else {
        Publication::Refuse
    }
}

/// How a finished `.part` file takes the place `target`; refused where something is there and
/// replacing it was not asked for.
pub fn publish_plan(target: &str, target_exists: bool, force: bool, windows: bool) -> (r: Result<
    PublishPlan,
    String,
>)
    ensures
        match publication(target_exists, force) {
            Publication::Rename => r == Ok::<PublishPlan, String>(PublishPlan::Rename),
            Publication::Replace => r matches Ok(PublishPlan::Replace { backup }) && exists|id: Text|
                uuid_shaped(id) && backup@ == #[trigger] backup_name(windows, target@, id),
            Publication::Refuse => r matches Err(m) && m@ == "target already exists: "@ + target@,
        },
{
    if !target_exists {
        return Ok(PublishPlan::Rename);
    }
    if !force {
        return Err(cat2("target already exists: ", target));
    }
    let id = new_uuid();
    Ok(PublishPlan::Replace { backup: backup_path(target, id.as_str(), windows) })
}

/// What is done with the backup after the rename of the new file.
#[derive(Clone, Copy, Debug, PartialEq, Eq, Structural)]
pub enum BackupAction {
    /// The new file is in place.
    Remove,
    /// It is not: the old one goes back.
    Restore,
}

/// What is done with the backup after the rename of the new file.
pub fn backup_action(renamed: bool) -> (r: BackupAction)
    ensures
        r == if renamed {
            BackupAction::Remove
        } else {
            BackupAction::Restore
        },
{
    if renamed {
        BackupAction::Remove
    } else {
        BackupAction::Restore
    }
}

/// A running check of a file against its expected SHA-256 hash.
pub struct FileHasher {
    state: sha2::Sha256,
}

/// Whether `expected`, but for its case and the blanks around it, is the hash of `bytes`.
pub open spec fn hash_matches(bytes: Seq<u8>, expected: Text) -> bool {
    lower_text(hex_text(sha256_digest(bytes))) == lower_text(trimmed(expected))
}

impl View for FileHasher {
    type V = Seq<u8>;

    closed spec fn view(&self) -> Seq<u8> {
        sha256_input(self.state)
    }
}

impl FileHasher {
    /// A check of which nothing has been read.
    pub fn new() -> (r: FileHasher)
        ensures
            r@ == Seq::<u8>::empty(),
    {
        FileHasher { state: sha256_new() }
    }

    /// Takes in the next bytes of the file.
    pub fn update(&mut self, data: &[u8])
        ensures
            final(self)@ == old(self)@ + data@,
    {
        sha256_update(&mut self.state, data);
    }

    /// The hash of what was read, in hexadecimal.
    pub fn hex_digest(self) -> (r: String)
        ensures
            r@ == hex_text(sha256_digest(self@)),
    {
        let digest = sha256_finalize(self.state);
        hex_encode(&digest)
    }

    /// Whether what was read has the expected hash.
    pub fn matches(self, expected: &str) -> (r: bool)
        ensures
            r == hash_matches(self@, expected@),
    {
        let hash = self.hex_digest();
        let want = trim(expected);
        same_ignoring_case(hash.as_str(), want.as_str())
    }
}

/// Whether `bytes` have the expected SHA-256 hash.
pub fn verify_sha256(bytes: &[u8], expected: &str) -> (r: bool)
    ensures
        r == hash_matches(bytes@, expected@),
{
    let mut h = FileHasher::new();
    h.update(bytes);
    assert(h@ =~= bytes@);
    h.matches(expected)
}

/// A mounted volume.
pub struct Mount {
    pub mount_point: String,
    pub available: u64,
}

/// What a [`Mount`] holds.
pub struct MountView {
    pub mount_point: Text,
    pub available: u64,
}

impl DeepView for Mount {
    type V = MountView;

    open spec fn deep_view(&self) -> MountView {
        MountView { mount_point: self.mount_point@, available: self.available }
    }
}

/// The index, among the first `end` mounts, of the one that holds `path`: that with the longest
/// mount point, the last of several; -1 where none does.
pub open spec fn mount_of(windows: bool, ms: Seq<MountView>, path: Text, end: int) -> int
    decreases end,
{
    if end <= 0 {
        -1
    } else {
        let best = mount_of(windows, ms, path, end - 1);
        let m = ms[end - 1];
        if lies_under(windows, path, m.mount_point) && (best < 0 || byte_len(m.mount_point)
            >= byte_len(ms[best].mount_point)) {
            end - 1
        } else {
            best
        }
    }
}

/// The mount that holds `path`, where it is known.
pub(crate) fn holding_mount(windows: bool, mounts: &Vec<Mount>, path: &str) -> (r: Option<usize>)
    ensures
        match r {
            Some(b) => b < mounts@.len() && mount_of(
                windows,
                mounts.deep_view(),
                path@,
                mounts@.len() as int,
            ) == b,
            None => mount_of(windows, mounts.deep_view(), path@, mounts@.len() as int) == -1,
        },
{
    let ghost ms = mounts.deep_view();
    let mut best: Option<usize> = None;
    let mut i: usize = 0;
    while i < mounts.len()
        invariant
            i <= mounts@.len(),
            ms == mounts.deep_view(),
            match best {
                Some(b) => b < i && mount_of(windows, ms, path@, i as int) == b,
                None => mount_of(windows, ms, path@, i as int) == -1,
            },
        decreases mounts@.len() - i,
    {
        let m = &mounts[i];
        assert(ms[i as int] == m.deep_view());
        if path_starts_with(windows, path, m.mount_point.as_str()) {
            match best {
                Some(b) => {
                    assert(ms[b as int] == mounts@[b as int].deep_view());
                    if byte_length(m.mount_point.as_str()) >= byte_length(
                        mounts[b].mount_point.as_str(),
                    ) {
                        best = Some(i);
                    }
                },
                None => {
                    best = Some(i);
                },
            }
        }
        i += 1;
    }
    best
}

/// The refusal of a download that does not fit.
pub open spec fn space_problem(
    windows: bool,
    ms: Seq<MountView>,
    path: Text,
    required: u64,
) -> Option<Text> {
    let at = mount_of(windows, ms, path, ms.len() as int);
    if at >= 0 && ms[at].available < required {
        Some(
            "insufficient disk space on "@ + ms[at].mount_point + ": need about "@ + gib(required)
                + " GiB, have "@ + gib(ms[at].available) + " GiB free"@,
        )
    } else {
        None
    }
}

/// `bytes` in GiB, with one decimal place.
pub open spec fn gib(bytes: u64) -> Text {
    one_decimal(as_double(bytes as nat), GIB as nat)
}

/// `bytes` in GiB, with one decimal place.
pub fn gib_text(bytes: u64) -> (r: String)
    ensures
        r@ == gib(bytes),
{
    one_decimal_text(nearest_double(bytes), GIB as u128)
}

/// Refuses a download of which `required` bytes do not fit on the volume that holds `path`.
pub fn ensure_free_space(mounts: &Vec<Mount>, path: &str, required: u64, windows: bool) -> (r:
    Result<(), String>)
    ensures
        match r {
            Ok(_) => space_problem(windows, mounts.deep_view(), path@, required) is None,
            Err(m) => space_problem(windows, mounts.deep_view(), path@, required) == Some(m@),
        },
{
    let ghost ms = mounts.deep_view();
    if let Some(b) = holding_mount(windows, mounts, path) {
        assert(ms[b as int] == mounts@[b as int].deep_view());
        let disk = &mounts[b];
        if disk.available < required {
            let need = gib_text(required);
            let have = gib_text(disk.available);
            let head = cat4(
                "insufficient disk space on ",
                disk.mount_point.as_str(),
                ": need about ",
                need.as_str(),
            );
            return Err(cat4(head.as_str(), " GiB, have ", have.as_str(), " GiB free"));
        }
    }
    Ok(())
}

/// The address that Hugging Face URLs begin with.
pub open spec fn hf_official() -> Text {
    "https://huggingface.co"@
}

/// `rest` begins with what can follow a host and its port: a path, a query, a fragment or nothing.
pub open spec fn ends_authority(rest: Text) -> bool {
    rest.len() == 0 || rest[0] == '/' || rest[0] == '?' || rest[0] == '#'
}

/// `rest` is digits, and then what can follow a host and its port.
pub open spec fn ends_port(rest: Text) -> bool
    decreases rest.len(),
{
    ends_authority(rest) || ('0' <= rest[0] <= '9' && ends_port(rest.skip(1)))
}

/// `rest` begins with what can follow a host: a port, a path, a query, a fragment or nothing.
pub open spec fn ends_host(rest: Text) -> bool {
    ends_authority(rest) || (rest[0] == ':' && ends_port(rest.skip(1)))
}

/// `url` is an address at Hugging Face: its host is that one, and not one that only begins so.
pub open spec fn on_hf(url: Text) -> bool {
    has_prefix(url, hf_official()) && ends_host(url.skip(hf_official().len() as int))
}

fn host_ends(rest: &str) -> (r: bool)
    ensures
        r == ends_host(rest@),
{
    let v = chars_of(rest);
    if v.len() == 0 || v[0] == '/' || v[0] == '?' || v[0] == '#' {
        return true;
    }
    if v[0] != ':' {
        return false;
    }
    let mut i: usize = 1;
    while i < v.len() && '0' <= v[i] && v[i] <= '9'
        invariant
            1 <= i <= v@.len(),
            ends_port(v@.skip(1)) == ends_port(v@.skip(i as int)),
        decreases v@.len() - i,
    {
        assert(v@.skip(i as int).skip(1) =~= v@.skip(i + 1));
        i += 1;
    }
    i == v.len() || v[i] == '/' || v[i] == '?' || v[i] == '#'
}

/// What follows the host in `url`, where that is an address at Hugging Face.
fn after_hf_host(url: &str) -> (r: Option<String>)
    ensures
        r is Some <==> on_hf(url@),
        r matches Some(rest) ==> rest@ == url@.skip(hf_official().len() as int),
{
    match strip_prefix(url, "https://huggingface.co") {
        Some(rest) => if host_ends(rest.as_str()) {
            Some(rest)
        } else {
            None
        },
        None => None,
    }
}

/// Whether `url` is an address at Hugging Face.
pub fn is_hf_url(url: &str) -> (r: bool)
    ensures
        r == on_hf(url@),
{
    after_hf_host(url).is_some()
}

/// The address that `url` is asked at: a Hugging Face one at `endpoint`, where one is chosen.
pub open spec fn rewritten(url: Text, endpoint: Option<Text>) -> Text {
    match endpoint {
        None => url,
        Some(e) => if on_hf(url) {
            without_trailing(e, '/') + url.skip(hf_official().len() as int)
        } else {
            url
        },
    }
}

/// The address that `url` is asked at: a Hugging Face one at `endpoint`, where one is chosen.
pub fn rewrite_hf_url(url: &str, endpoint: Option<&str>) -> (r: String)
    ensures
        r@ == rewritten(
            url@,
            match endpoint {
                Some(e) => Some(e@),
                None => None,
            },
        ),
{
    match endpoint {
        None => url.to_owned(),
        Some(e) => match after_hf_host(url) {
            Some(rest) => {
                let base = trim_end_char(e, '/');
                cat2(base.as_str(), rest.as_str())
            },
            None => url.to_owned(),
        },
    }
}

/// A reply that says that the request was not authorized.
pub open spec fn unauthorized(status: u16) -> bool {
    status == 401 || status == 403
}

/// What is reported of a reply that is no success.
pub open spec fn status_error(
    operation: Text,
    target: Text,
    status: u16,
    token_present: bool,
) -> Text {
    if unauthorized(status) {
        if token_present {
            operation + " was rejected for "@ + target + ": "@ + status_line(status)
                + "; HF_TOKEN may be invalid or may not have accepted the repository terms"@
        } else {
            operation + " requires authentication for "@ + target + ": "@ + status_line(status)
                + "; set HF_TOKEN and accept any repository terms before retrying"@
        }
    } else {
        operation + " failed for "@ + target + ": "@ + status_line(status)
    }
}

/// What is reported of a reply that is no success: a missing token and one that was refused are
/// told apart.
pub fn http_status_error(operation: &str, target: &str, status: u16, token_present: bool) -> (r:
    String)
    requires
        valid_status(status),
    ensures
        r@ == status_error(operation@, target@, status, token_present),
{
    let line = status_text(status);
    if status == 401 || status == 403 {
        if token_present {
            cat6(
                operation,
                " was rejected for ",
                target,
                ": ",
                line.as_str(),
                "; HF_TOKEN may be invalid or may not have accepted the repository terms",
            )
        } else {
            cat6(
                operation,
                " requires authentication for ",
                target,
                ": ",
                line.as_str(),
                "; set HF_TOKEN and accept any repository terms before retrying",
            )
        }
    } else {
        cat5(operation, " failed for ", target, ": ", line.as_str())
    }
}

/// Whether the server takes requests for byte ranges, by its `Accept-Ranges` header.
pub open spec fn ranges_supported(header: Option<Text>) -> bool {
    match header {
        Some(h) => contains_text(lower_text(h), "bytes"@),
        None => false,
    }
}

/// Whether the server takes requests for byte ranges, by its `Accept-Ranges` header.
pub fn supports_ranges(header: &Option<String>) -> (r: bool)
    ensures
        r == ranges_supported(header.deep_view()),
{
    match header {
        Some(h) => {
            let l = to_lower(h.as_str());
            contains(l.as_str(), "bytes")
        },
        None => false,
    }
}

/// How many bytes there are with one more piece, where they are not too many.
pub open spec fn received(written: u64, piece: u64, expected: u64) -> Option<u64> {
    if written + piece <= expected {
        Some((written + piece) as u64)
    } else {
        None
    }
}

/// Takes in one more piece of a download without ranges: how many bytes there are now, or a
/// refusal of more than was expected.
pub fn receive_piece(written: u64, piece: u64, expected: u64) -> (r: Result<u64, String>)
    requires
        written <= expected,
    ensures
        match received(written, piece, expected) {
            Some(n) => r == Ok::<u64, String>(n),
            None => r matches Err(m) && m@ == "remote sent more data than expected"@,
        },
{
    if piece > expected - written {
        Err("remote sent more data than expected".to_owned())
    } else {
        Ok(written + piece)
    }
}

/// A ranged download before its first request: what is recorded, what is missing, and how many
/// ranges are asked for at a time.
pub struct RangedPlan {
    pub state: RangeState,
    pub missing: Vec<(u64, u64)>,
    pub workers: usize,
}

/// What is recorded of a file of `expected` bytes, what is missing, and how many ranges are asked
/// for at a time.
pub open spec fn ranged_plan(saved: Option<RangeState>, expected: u64, options: OptionsView) -> (
    Seq<CompletedRange>,
    Seq<(int, int)>,
    usize,
) {
    (
        kept_ranges(saved, expected),
        missing_of(
            split_ranges(0, chunk_of(options.chunk_size_bytes) as int, expected as int),
            kept_ranges(saved, expected),
        ),
        if options.parallelism >= 1 {
            options.parallelism
        } else {
            1
        },
    )
}

/// How a file of `expected` bytes is downloaded in ranges, given what an earlier download left.
pub fn plan_ranges(saved: Option<RangeState>, expected: u64, options: &DownloadOptions) -> (r:
    RangedPlan)
    ensures
        r.state.expected_size == expected,
        (r.state.completed@, int_ranges(r.missing@), r.workers) == ranged_plan(
            saved,
            expected,
            options.deep_view(),
        ),
{
    let state = resume_state(saved, expected);
    let missing = missing_ranges(&state.completed, expected, options.chunk_size_bytes);
    RangedPlan { state, missing, workers: worker_count(options.parallelism) }
}

}
