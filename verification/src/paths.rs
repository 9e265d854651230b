//! File paths as text, on Windows and elsewhere: segments parted by separators, where empty segments
//! and `.` stand for nothing. On Windows a path may begin with a drive, a share or a device, and
//! what is verbatim there is parted by `\` alone.
use crate::text::{ascii_lower, chars_of, lower_char, same_text, text_between, Text};
use vstd::prelude::*;
use vstd::string::*;

verus! {

/// What parts the segments of a path.
#[derive(Clone, Copy, Debug, PartialEq, Eq, Structural)]
pub enum Separators {
    /// `/`.
    Slash,
    /// `/` and `\`.
    Both,
    /// `\`.
    Backslash,
}

impl Separators {
    pub open spec fn has(self, c: char) -> bool {
        match self {
            Separators::Slash => c == '/',
            Separators::Both => c == '/' || c == '\\',
            Separators::Backslash => c == '\\',
        }
    }

    fn part(self, c: char) -> (r: bool)
        ensures
            r == self.has(c),
    {
        match self {
            Separators::Slash => c == '/',
            Separators::Both => c == '/' || c == '\\',
            Separators::Backslash => c == '\\',
        }
    }
}

/// What a path begins with on Windows.
#[derive(Clone, Copy, Debug, PartialEq, Eq, Structural)]
pub enum Prefix {
    Nothing,
    /// `C:`.
    Disk,
    /// `\\server\share`.
    Share,
    /// `\\.\COM1`.
    Device,
    /// `\\?\name`.
    Verbatim,
    /// `\\?\C:`.
    VerbatimDisk,
    /// `\\?\UNC\server\share`.
    VerbatimShare,
}

impl Prefix {
    /// What follows is taken as it stands.
    pub open spec fn verbatim(self) -> bool {
        self == Prefix::Verbatim || self == Prefix::VerbatimDisk || self == Prefix::VerbatimShare
    }

    fn is_verbatim(self) -> (r: bool)
        ensures
            r == self.verbatim(),
    {
        matches!(self, Prefix::Verbatim | Prefix::VerbatimDisk | Prefix::VerbatimShare)
    }

    /// What follows begins at a root, even where no separator is written.
    pub open spec fn rooted(self) -> bool {
        self != Prefix::Nothing && self != Prefix::Disk
    }

    fn is_rooted(self) -> (r: bool)
        ensures
            r == self.rooted(),
    {
        !matches!(self, Prefix::Nothing | Prefix::Disk)
    }
}

/// Where the segment that begins at `from` ends.
pub open spec fn segment_end(s: Separators, p: Text, from: int) -> int
    decreases p.len() - from,
{
    if from < 0 || from >= p.len() || s.has(p[from]) {
        from
    } else {
        segment_end(s, p, from + 1)
    }
}

/// An ASCII letter.
pub open spec fn is_letter(c: char) -> bool {
    'a' <= c <= 'z' || 'A' <= c <= 'Z'
}

/// A prefix that ends with a server, which ends at `server`, and a share, where one follows.
pub open spec fn share_end(s: Separators, p: Text, server: int) -> int {
    if server < p.len() && segment_end(s, p, server + 1) > server + 1 {
        segment_end(s, p, server + 1)
    } else {
        server
    }
}

/// The prefix that follows two separators, and where it ends.
pub open spec fn network_prefix(p: Text) -> (Prefix, int) {
    let both = Separators::Both;
    let back = Separators::Backslash;
    if p.len() >= 4 && p[0] == '\\' && p[1] == '\\' && p[2] == '?' && p[3] == '\\' {
        if p.len() >= 8 && p[4] == 'U' && p[5] == 'N' && p[6] == 'C' && both.has(p[7]) {
            (Prefix::VerbatimShare, share_end(back, p, segment_end(back, p, 8)))
        } else if p.len() >= 6 && is_letter(p[4]) && p[5] == ':' && (p.len() == 6 || p[6] == '\\') {
            (Prefix::VerbatimDisk, 6)
        } else {
            (Prefix::Verbatim, segment_end(back, p, 4))
        }
    } else if p.len() >= 4 && p[2] == '.' && both.has(p[3]) {
        (Prefix::Device, segment_end(both, p, 4))
    } else {
        let server = segment_end(both, p, 2);
        if server > 2 && share_end(both, p, server) > server {
            (Prefix::Share, share_end(both, p, server))
        } else {
            (Prefix::Nothing, 0)
        }
    }
}

/// The prefix of `p`, and where it ends. There is none but on Windows.
pub open spec fn prefix_of(windows: bool, p: Text) -> (Prefix, int) {
    if windows && p.len() >= 2 {
        if Separators::Both.has(p[0]) && Separators::Both.has(p[1]) {
            network_prefix(p)
        } else if is_letter(p[0]) && p[1] == ':' {
            (Prefix::Disk, 2)
        } else {
            (Prefix::Nothing, 0)
        }
    } else {
        (Prefix::Nothing, 0)
    }
}

/// What parts the segments of `p`.
pub open spec fn separators_of(windows: bool, p: Text) -> Separators {
    if !windows {
        Separators::Slash
    } else if prefix_of(windows, p).0.verbatim() {
        Separators::Backslash
    } else {
        Separators::Both
    }
}

/// What parts the segments of paths that have no verbatim prefix.
pub open spec fn usual_separators(windows: bool) -> Separators {
    if windows {
        Separators::Both
    } else {
        Separators::Slash
    }
}

/// A separator follows the prefix of `p`.
pub open spec fn root_written(windows: bool, p: Text) -> bool {
    let n = prefix_of(windows, p).1;
    n < p.len() && usual_separators(windows).has(p[n])
}

/// `p` has no root, and a segment `.` follows its prefix.
pub open spec fn begins_here(windows: bool, p: Text) -> bool {
    let (form, n) = prefix_of(windows, p);
    !form.rooted() && n < p.len() && p[n] == '.' && (n + 1 == p.len() || usual_separators(
        windows,
    ).has(p[n + 1]))
}

/// How many characters of `p` make its prefix and its root or its leading `.`.
pub open spec fn body_start(windows: bool, p: Text) -> int {
    prefix_of(windows, p).1 + if root_written(windows, p) || begins_here(windows, p) {
        1int
    } else {
        0int
    }
}

proof fn segment_end_bounds(s: Separators, p: Text, from: int)
    requires
        0 <= from <= p.len(),
    ensures
        from <= segment_end(s, p, from) <= p.len(),
    decreases p.len() - from,
{
    if from < p.len() && !s.has(p[from]) {
        segment_end_bounds(s, p, from + 1);
    }
}

pub(crate) proof fn prefix_bounds(windows: bool, p: Text)
    ensures
        0 <= prefix_of(windows, p).1 <= p.len(),
        prefix_of(windows, p).0 == Prefix::Nothing ==> prefix_of(windows, p).1 == 0,
        0 <= body_start(windows, p) <= p.len(),
{
    let back = Separators::Backslash;
    let both = Separators::Both;
    if p.len() >= 8 {
        segment_end_bounds(back, p, 8);
        let server = segment_end(back, p, 8);
        if server < p.len() {
            segment_end_bounds(back, p, server + 1);
        }
    }
    if p.len() >= 4 {
        segment_end_bounds(back, p, 4);
        segment_end_bounds(both, p, 4);
    }
    if p.len() >= 2 {
        segment_end_bounds(both, p, 2);
        let server = segment_end(both, p, 2);
        if server < p.len() {
            segment_end_bounds(both, p, server + 1);
        }
    }
}

fn find_segment_end(s: Separators, v: &Vec<char>, from: usize) -> (r: usize)
    requires
        from <= v@.len(),
    ensures
        r == segment_end(s, v@, from as int),
        from <= r <= v@.len(),
{
    let mut at = from;
    while at < v.len() && !s.part(v[at])
        invariant
            from <= at <= v@.len(),
            segment_end(s, v@, at as int) == segment_end(s, v@, from as int),
        decreases v@.len() - at,
    {
        at += 1;
    }
    at
}

fn find_share_end(s: Separators, v: &Vec<char>, server: usize) -> (r: usize)
    requires
        server <= v@.len(),
    ensures
        r == share_end(s, v@, server as int),
        server <= r <= v@.len(),
{
    if server < v.len() {
        let end = find_segment_end(s, v, server + 1);
        if end > server + 1 {
            return end;
        }
    }
    server
}

fn letter(c: char) -> (r: bool)
    ensures
        r == is_letter(c),
{
    ('a' <= c && c <= 'z') || ('A' <= c && c <= 'Z')
}

fn find_network_prefix(v: &Vec<char>) -> (r: (Prefix, usize))
    requires
        v@.len() >= 2,
    ensures
        (r.0, r.1 as int) == network_prefix(v@),
{
    let n = v.len();
    let both = Separators::Both;
    let back = Separators::Backslash;
    if n >= 4 && v[0] == '\\' && v[1] == '\\' && v[2] == '?' && v[3] == '\\' {
        if n >= 8 && v[4] == 'U' && v[5] == 'N' && v[6] == 'C' && both.part(v[7]) {
            let server = find_segment_end(back, v, 8);
            (Prefix::VerbatimShare, find_share_end(back, v, server))
        } else if n >= 6 && letter(v[4]) && v[5] == ':' && (n == 6 || v[6] == '\\') {
            (Prefix::VerbatimDisk, 6)
        } else {
            (Prefix::Verbatim, find_segment_end(back, v, 4))
        }
    } else if n >= 4 && v[2] == '.' && both.part(v[3]) {
        (Prefix::Device, find_segment_end(both, v, 4))
    } else {
        let server = find_segment_end(both, v, 2);
        let end = find_share_end(both, v, server);
        if server > 2 && end > server {
            (Prefix::Share, end)
        } else {
            (Prefix::Nothing, 0)
        }
    }
}

fn find_prefix(windows: bool, v: &Vec<char>) -> (r: (Prefix, usize))
    ensures
        (r.0, r.1 as int) == prefix_of(windows, v@),
        r.1 <= v@.len(),
{
    proof {
        prefix_bounds(windows, v@);
    }
    if windows && v.len() >= 2 {
        if Separators::Both.part(v[0]) && Separators::Both.part(v[1]) {
            find_network_prefix(v)
        } else if letter(v[0]) && v[1] == ':' {
            (Prefix::Disk, 2)
        } else {
            (Prefix::Nothing, 0)
        }
    } else {
        (Prefix::Nothing, 0)
    }
}

fn usual(windows: bool) -> (r: Separators)
    ensures
        r == usual_separators(windows),
{
    if windows {
        Separators::Both
    } else {
        Separators::Slash
    }
}

/// Where the body of a path begins, and what is before it.
struct Head {
    form: Prefix,
    prefix_end: usize,
    separators: Separators,
    root_written: bool,
    begins_here: bool,
    start: usize,
}

fn find_head(windows: bool, v: &Vec<char>) -> (r: Head)
    ensures
        (r.form, r.prefix_end as int) == prefix_of(windows, v@),
        r.separators == separators_of(windows, v@),
        r.root_written == root_written(windows, v@),
        r.begins_here == begins_here(windows, v@),
        r.start == body_start(windows, v@),
        r.prefix_end <= r.start <= v@.len(),
{
    let (form, n) = find_prefix(windows, v);
    let s = usual(windows);
    let root_written = n < v.len() && s.part(v[n]);
    let begins_here = !form.is_rooted() && n < v.len() && v[n] == '.' && (v.len() - n == 1
        || s.part(v[n + 1]));
    let separators = if form.is_verbatim() {
        Separators::Backslash
    } else {
        s
    };
    let start = if root_written || begins_here {
        n + 1
    } else {
        n
    };
    Head { form, prefix_end: n, separators, root_written, begins_here, start }
}

/// Where the last segment of `p[start..end]` begins.
pub open spec fn segment_start(s: Separators, p: Text, start: int, end: int) -> int
    decreases end,
{
    if end <= start || end <= 0 || s.has(p[end - 1]) {
        end
    } else {
        segment_start(s, p, start, end - 1)
    }
}

/// `p[from..to]` is empty, or `.` where that counts for nothing.
pub open spec fn stands_for_nothing(s: Separators, p: Text, from: int, to: int) -> bool {
    from >= to || (s != Separators::Backslash && to == from + 1 && p[from] == '.')
}

/// Where `p` ends once the segment that begins at `from` and its separator are taken away.
pub open spec fn before_segment(start: int, from: int) -> int {
    if from > start {
        from - 1
    } else {
        start
    }
}

/// Where `p[start..end]` ends without the segments at its end that stand for nothing.
pub open spec fn body_end(s: Separators, p: Text, start: int, end: int) -> int
    decreases end,
{
    let from = segment_start(s, p, start, end);
    if start < end && stands_for_nothing(s, p, from, end) && 0 <= before_segment(start, from)
        < end {
        body_end(s, p, start, before_segment(start, from))
    } else {
        end
    }
}

/// Where the last segment of `p` begins and ends.
pub open spec fn last_segment(windows: bool, p: Text) -> (int, int) {
    let s = separators_of(windows, p);
    let start = body_start(windows, p);
    let end = body_end(s, p, start, p.len() as int);
    (segment_start(s, p, start, end), end)
}

/// The last segment of `p`; none where `p` has none, or where that is `.` or `..`.
pub open spec fn file_name_of(windows: bool, p: Text) -> Option<Text> {
    let (from, end) = last_segment(windows, p);
    let name = p.subrange(from, end);
    if end <= body_start(windows, p) || name == ".."@ || name == "."@ {
        None
    } else {
        Some(name)
    }
}

/// `p` without its last segment; none where `p` is empty or has only a prefix and a root.
pub open spec fn parent_of(windows: bool, p: Text) -> Option<Text> {
    let s = separators_of(windows, p);
    let start = body_start(windows, p);
    let (from, end) = last_segment(windows, p);
    if start < end {
        Some(p.take(body_end(s, p, start, before_segment(start, from))))
    } else if begins_here(windows, p) {
        Some(p.take(start - 1))
    } else {
        None
    }
}

proof fn segment_start_bounds(s: Separators, p: Text, start: int, end: int)
    requires
        0 <= start <= end <= p.len(),
    ensures
        start <= segment_start(s, p, start, end) <= end,
        segment_start(s, p, start, end) == end ==> end == start || s.has(p[end - 1]),
    decreases end,
{
    if end > start && !s.has(p[end - 1]) {
        segment_start_bounds(s, p, start, end - 1);
    }
}

fn find_segment_start(s: Separators, v: &Vec<char>, start: usize, end: usize) -> (r: usize)
    requires
        start <= end <= v@.len(),
    ensures
        r == segment_start(s, v@, start as int, end as int),
        start <= r <= end,
{
    let mut at = end;
    while at > start && !s.part(v[at - 1])
        invariant
            start <= at <= end <= v@.len(),
            segment_start(s, v@, start as int, at as int) == segment_start(
                s,
                v@,
                start as int,
                end as int,
            ),
        decreases at,
    {
        at -= 1;
    }
    at
}

fn find_body_end(s: Separators, v: &Vec<char>, start: usize, end: usize) -> (r: usize)
    requires
        start <= end <= v@.len(),
    ensures
        r == body_end(s, v@, start as int, end as int),
        start <= r <= end,
    decreases end,
{
    let from = find_segment_start(s, v, start, end);
    let cut = if from > start {
        from - 1
    } else {
        start
    };
    let dots = !matches!(s, Separators::Backslash);
    if start < end && (from >= end || (dots && end == from + 1 && v[from] == '.')) {
        proof {
            segment_start_bounds(s, v@, start as int, end as int);
        }
        find_body_end(s, v, start, cut)
    } else {
        end
    }
}

fn find_last_segment(windows: bool, v: &Vec<char>) -> (r: (Head, usize, usize))
    ensures
        (r.1 as int, r.2 as int) == last_segment(windows, v@),
        (r.0.form, r.0.prefix_end as int) == prefix_of(windows, v@),
        r.0.separators == separators_of(windows, v@),
        r.0.begins_here == begins_here(windows, v@),
        r.0.start == body_start(windows, v@),
        r.0.start <= r.1 <= r.2 <= v@.len(),
{
    let head = find_head(windows, v);
    let end = find_body_end(head.separators, v, head.start, v.len());
    let from = find_segment_start(head.separators, v, head.start, end);
    (head, from, end)
}

/// The last segment of `p`, where it names a file or a directory.
pub fn file_name(windows: bool, p: &str) -> (r: Option<String>)
    ensures
        r.deep_view() == file_name_of(windows, p@),
{
    let v = chars_of(p);
    let (head, from, end) = find_last_segment(windows, &v);
    let name = text_between(&v, from, end);
    if end <= head.start || same_text(name.as_str(), "..") || same_text(name.as_str(), ".") {
        None
    } else {
        Some(name)
    }
}

/// The directory that holds what `p` names.
pub fn parent(windows: bool, p: &str) -> (r: Option<String>)
    ensures
        r.deep_view() == parent_of(windows, p@),
{
    let v = chars_of(p);
    let (head, from, end) = find_last_segment(windows, &v);
    if head.start < end {
        let cut = if from > head.start {
            from - 1
        } else {
            head.start
        };
        let to = find_body_end(head.separators, &v, head.start, cut);
        let r = text_between(&v, 0, to);
        assert(p@.take(to as int) =~= p@.subrange(0, to as int));
        Some(r)
    } else if head.begins_here {
        let r = text_between(&v, 0, head.start - 1);
        assert(p@.take(head.start - 1) =~= p@.subrange(0, head.start - 1));
        Some(r)
    } else {
        None
    }
}

/// The index of the last `.` of `name`, or -1.
pub open spec fn last_dot(name: Text) -> int
    decreases name.len(),
{
    if name.len() == 0 {
        -1
    } else if name.last() == '.' {
        name.len() - 1
    } else {
        last_dot(name.drop_last())
    }
}

/// What follows the last `.` of a file's name, unless the name begins with that `.`.
pub open spec fn extension_of(windows: bool, p: Text) -> Option<Text> {
    match file_name_of(windows, p) {
        None => None,
        Some(name) => if last_dot(name) >= 1 {
            Some(name.skip(last_dot(name) + 1))
        } else {
            None
        },
    }
}

fn find_after_last_dot(v: &Vec<char>, from: usize, end: usize) -> (r: usize)
    requires
        from <= end <= v@.len(),
    ensures
        from <= r <= end,
        last_dot(v@.subrange(from as int, end as int)) == r - from - 1,
{
    let ghost name = v@.subrange(from as int, end as int);
    let mut at: usize = end;
    assert(name.take(end - from) =~= name);
    while at > from && v[at - 1] != '.'
        invariant
            from <= at <= end <= v@.len(),
            name == v@.subrange(from as int, end as int),
            last_dot(name.take(at - from)) == last_dot(name),
        decreases at,
    {
        assert(name.take(at - from).drop_last() =~= name.take(at - from - 1));
        at -= 1;
    }
    at
}

/// What follows the last `.` of a file's name, unless the name begins with that `.`.
pub fn extension(windows: bool, p: &str) -> (r: Option<String>)
    ensures
        r.deep_view() == extension_of(windows, p@),
{
    match file_name(windows, p) {
        None => None,
        Some(name) => {
            let v = chars_of(name.as_str());
            let n = v.len();
            assert(v@.subrange(0, n as int) =~= v@);
            let at = find_after_last_dot(&v, 0, n);
            if at >= 2 {
                assert(v@.subrange(at as int, n as int) =~= v@.skip(at as int));
                Some(text_between(&v, at, n))
            } else {
                None
            }
        },
    }
}

/// `p` with `.` and `ext` in place of the extension of its file name, or after the name where it
/// has none; `p` itself where it names no file. `ext` is not empty.
pub open spec fn with_extension_of(windows: bool, p: Text, ext: Text) -> Text {
    let (from, end) = last_segment(windows, p);
    match file_name_of(windows, p) {
        None => p,
        Some(name) => {
            let stem = if last_dot(name) >= 1 {
                from + last_dot(name)
            } else {
                end
            };
            p.take(stem) + "."@ + ext
        },
    }
}

/// `p` with another extension.
pub fn with_extension(windows: bool, p: &str, ext: &str) -> (r: String)
    requires
        ext@.len() > 0,
    ensures
        r@ == with_extension_of(windows, p@, ext@),
{
    let v = chars_of(p);
    let (head, from, end) = find_last_segment(windows, &v);
    let name = text_between(&v, from, end);
    if end <= head.start || same_text(name.as_str(), "..") || same_text(name.as_str(), ".") {
        return p.to_owned();
    }
    let dot = find_after_last_dot(&v, from, end);
    let stem = if dot - from >= 2 {
        dot - 1
    } else {
        end
    };
    let kept = text_between(&v, 0, stem);
    assert(p@.take(stem as int) =~= p@.subrange(0, stem as int));
    crate::text::cat3(kept.as_str(), ".", ext)
}

/// The pieces of `t` between its separators: one more piece than there are separators.
pub open spec fn pieces(s: Separators, t: Text) -> Seq<Text>
    decreases t.len(),
{
    if t.len() == 0 {
        seq![Seq::empty()]
    } else {
        let before = pieces(s, t.drop_last());
        if s.has(t.last()) {
            before.push(Seq::empty())
        } else {
            before.drop_last().push(before.last().push(t.last()))
        }
    }
}

/// A segment that counts.
pub open spec fn counts(s: Separators, segment: Text) -> bool {
    segment.len() > 0 && (s == Separators::Backslash || segment != "."@)
}

/// The segments that count, in order.
pub open spec fn counted(s: Separators, segments: Seq<Text>) -> Seq<Text>
    decreases segments.len(),
{
    if segments.len() == 0 {
        Seq::empty()
    } else {
        let before = counted(s, segments.drop_last());
        if counts(s, segments.last()) {
            before.push(segments.last())
        } else {
            before
        }
    }
}

/// The root as a component.
pub open spec fn root_text(windows: bool) -> Text {
    if windows {
        "\\"@
    } else {
        "/"@
    }
}

/// The prefix that ends at `n` as a component. The case of a drive does not count, nor which
/// separators are written.
pub open spec fn prefix_text(form: Prefix, p: Text, n: int) -> Text {
    match form {
        Prefix::Nothing => Seq::empty(),
        Prefix::Disk => p.take(n).update(0, ascii_lower(p[0])),
        Prefix::Share | Prefix::Device => p.take(n).map_values(
            |c: char|
                if c == '\\' {
                    '/'
                } else {
                    c
                },
        ),
        Prefix::Verbatim => p.take(n),
        Prefix::VerbatimDisk => p.take(n).update(4, ascii_lower(p[4])),
        Prefix::VerbatimShare => p.take(n).update(7, '\\'),
    }
}

/// `t`, where it is there.
pub open spec fn if_there(there: bool, t: Text) -> Seq<Text> {
    if there {
        seq![t]
    } else {
        Seq::empty()
    }
}

/// What `p` is made of before its body: its prefix, and its root or its leading `.`.
pub open spec fn head_of(windows: bool, p: Text) -> Seq<Text> {
    let (form, n) = prefix_of(windows, p);
    if_there(form != Prefix::Nothing, prefix_text(form, p, n)) + if_there(
        root_written(windows, p) || (form.rooted() && !form.verbatim()),
        root_text(windows),
    ) + if_there(begins_here(windows, p), "."@)
}

/// What `p` is made of: its prefix, its root or leading `.`, then the segments that count.
pub open spec fn components_of(windows: bool, p: Text) -> Seq<Text> {
    let s = separators_of(windows, p);
    head_of(windows, p) + counted(s, pieces(s, p.skip(body_start(windows, p))))
}

fn write_prefix(form: Prefix, v: &Vec<char>, n: usize) -> (r: String)
    requires
        (form, n as int) == prefix_of(true, v@),
        n <= v@.len(),
        form != Prefix::Nothing,
    ensures
        r@ == prefix_text(form, v@, n as int),
{
    let ghost want = prefix_text(form, v@, n as int);
    proof {
        prefix_bounds(true, v@);
        prefix_lengths(v@);
    }
    let mut out = String::new();
    let mut i: usize = 0;
    while i < n
        invariant
            i <= n <= v@.len(),
            (form, n as int) == prefix_of(true, v@),
            form != Prefix::Nothing,
            want == prefix_text(form, v@, n as int),
            want.len() == n,
            out@ == want.take(i as int),
        decreases n - i,
    {
        proof {
            prefix_lengths(v@);
        }
        let c = v[i];
        let d = match form {
            Prefix::Disk => if i == 0 {
                lower_char(c)
            } else {
                c
            },
            Prefix::VerbatimDisk => if i == 4 {
                lower_char(c)
            } else {
                c
            },
            Prefix::VerbatimShare => if i == 7 {
                '\\'
            } else {
                c
            },
            Prefix::Share | Prefix::Device => if c == '\\' {
                '/'
            } else {
                c
            },
            _ => c,
        };
        assert(d == want[i as int]);
        out.push(d);
        assert(out@ =~= want.take(i + 1));
        i += 1;
    }
    assert(want.take(n as int) =~= want);
    out
}

/// A prefix is long enough for what it begins with.
pub(crate) proof fn prefix_lengths(p: Text)
    ensures
        ({
            let (form, n) = prefix_of(true, p);
            &&& form == Prefix::Disk ==> n == 2
            &&& form == Prefix::VerbatimDisk ==> n == 6
            &&& form == Prefix::VerbatimShare ==> n >= 8
            &&& form == Prefix::Verbatim || form == Prefix::Device ==> n >= 4
            &&& form == Prefix::Share ==> n >= 5
        }),
{
    prefix_bounds(true, p);
    if p.len() >= 8 {
        segment_end_bounds(Separators::Backslash, p, 8);
    }
    if p.len() >= 4 {
        segment_end_bounds(Separators::Backslash, p, 4);
        segment_end_bounds(Separators::Both, p, 4);
    }
}

fn push_pieces(s: Separators, v: &Vec<char>, start: usize, out: &mut Vec<String>)
    requires
        start <= v@.len(),
    ensures
        final(out).deep_view() == old(out).deep_view() + counted(
            s,
            pieces(s, v@.skip(start as int)),
        ),
{
    let ghost before = out.deep_view();
    let ghost body = v@.skip(start as int);
    let mut piece = String::new();
    let mut i: usize = start;
    assert(body.take(0) =~= Seq::<char>::empty());
    assert(pieces(s, body.take(0)) =~= seq![Seq::<char>::empty()]);
    assert(pieces(s, body.take(0)).drop_last() =~= Seq::<Text>::empty());
    assert(out.deep_view() =~= before + counted(s, Seq::<Text>::empty()));
    while i < v.len()
        invariant
            start <= i <= v@.len(),
            body == v@.skip(start as int),
            pieces(s, body.take(i - start)).len() > 0,
            piece@ == pieces(s, body.take(i - start)).last(),
            out.deep_view() == before + counted(s, pieces(s, body.take(i - start)).drop_last()),
        decreases v@.len() - i,
    {
        let c = v[i];
        let ghost so_far = pieces(s, body.take(i - start));
        let ghost rows = out.deep_view();
        proof {
            assert(body.take(i - start + 1).drop_last() =~= body.take(i - start));
            assert(body.take(i - start + 1).last() == c);
        }
        if s.part(c) {
            assert(so_far.push(Seq::empty()).drop_last() =~= so_far);
            let dots = !matches!(s, Separators::Backslash);
            if !piece.as_str().is_empty() && !(dots && same_text(piece.as_str(), ".")) {
                let ghost t = piece@;
                out.push(piece);
                assert(out.deep_view() =~= rows.push(t));
                assert(out.deep_view() =~= before + counted(s, so_far));
            }
            piece = String::new();
        } else {
            piece.push(c);
            assert(so_far.drop_last().push(piece@).drop_last() =~= so_far.drop_last());
        }
        i += 1;
    }
    assert(body.take(body.len() as int) =~= body);
    let ghost so_far = pieces(s, body);
    let ghost rows = out.deep_view();
    let dots = !matches!(s, Separators::Backslash);
    if !piece.as_str().is_empty() && !(dots && same_text(piece.as_str(), ".")) {
        let ghost t = piece@;
        out.push(piece);
        assert(out.deep_view() =~= rows.push(t));
        assert(out.deep_view() =~= before + counted(s, so_far));
    }
}

/// The components of `p`.
pub fn components(windows: bool, p: &str) -> (r: Vec<String>)
    ensures
        r.deep_view() == components_of(windows, p@),
{
    let v = chars_of(p);
    let head = find_head(windows, &v);
    let mut out: Vec<String> = Vec::new();
    let ghost form = head.form;
    assert(out.deep_view() =~= Seq::<Text>::empty());
    if !matches!(head.form, Prefix::Nothing) {
        out.push(write_prefix(head.form, &v, head.prefix_end));
    }
    let ghost first = if_there(
        form != Prefix::Nothing,
        prefix_text(form, p@, head.prefix_end as int),
    );
    assert(out.deep_view() =~= first);
    if head.root_written || (head.form.is_rooted() && !head.form.is_verbatim()) {
        if windows {
            out.push("\\".to_owned());
        } else {
            out.push("/".to_owned());
        }
    }
    let ghost second = first + if_there(
        root_written(windows, p@) || (form.rooted() && !form.verbatim()),
        root_text(windows),
    );
    assert(out.deep_view() =~= second);
    if head.begins_here {
        out.push(".".to_owned());
    }
    assert(out.deep_view() =~= head_of(windows, p@));
    push_pieces(head.separators, &v, head.start, &mut out);
    out
}

/// What the components `rest` lead to from `tail`, component by component: a root leads to the
/// root, `.` nowhere and `..` back over a name.
pub open spec fn resolved(tail: Seq<Text>, rest: Seq<Text>) -> Seq<Text>
    decreases rest.len(),
{
    if rest.len() == 0 {
        tail
    } else {
        let before = resolved(tail, rest.drop_last());
        let c = rest.last();
        if c == root_text(true) {
            seq![c]
        } else if c == "."@ {
            before
        } else if c == ".."@ {
            if before.len() > 0 && is_name(before.last()) {
                before.drop_last()
            } else {
                before
            }
        } else {
            before.push(c)
        }
    }
}

/// A component that names a file or a directory.
pub open spec fn is_name(c: Text) -> bool {
    c != root_text(true) && c != "."@ && c != ".."@
}

/// The components after a verbatim prefix as they are written.
pub open spec fn written(tail: Seq<Text>) -> Text
    decreases tail.len(),
{
    if tail.len() == 0 {
        Seq::empty()
    } else {
        let before = tail.drop_last();
        written(before) + (if tail.last() != root_text(true) && (before.len() == 0 || before.last()
            != root_text(true)) {
            "\\"@
        } else {
            Seq::empty()
        }) + tail.last()
    }
}

/// `rest` taken from the directory `base`. An absolute `rest` stands for itself, and one with a root
/// but no prefix keeps the prefix of `base`. From a verbatim `base` it is resolved.
pub open spec fn joined_path(windows: bool, base: Text, rest: Text) -> Text {
    let (form, n) = prefix_of(windows, base);
    if prefix_of(windows, rest).0 != Prefix::Nothing {
        rest
    } else if form.verbatim() && rest.len() > 0 {
        base.take(n) + written(
            resolved(components_of(windows, base).skip(1), components_of(windows, rest)),
        )
    } else if root_written(windows, rest) {
        base.take(n) + rest
    } else if base.len() == 0 || usual_separators(windows).has(base.last()) || (form == Prefix::Disk
        && n == base.len()) {
        base + rest
    } else {
        base + root_text(windows) + rest
    }
}

fn resolve(tail: &mut Vec<String>, rest: &Vec<String>)
    ensures
        final(tail).deep_view() == resolved(old(tail).deep_view(), rest.deep_view()),
{
    let ghost start = tail.deep_view();
    let ghost all = rest.deep_view();
    let mut i: usize = 0;
    assert(all.take(0) =~= Seq::<Text>::empty());
    while i < rest.len()
        invariant
            i <= rest@.len(),
            all == rest.deep_view(),
            tail.deep_view() == resolved(start, all.take(i as int)),
        decreases rest@.len() - i,
    {
        let ghost before = tail.deep_view();
        let c = rest[i].as_str();
        proof {
            assert(all.take(i + 1).drop_last() =~= all.take(i as int));
            assert(all.take(i + 1).last() == c@);
        }
        if same_text(c, "\\") {
            tail.clear();
            tail.push("\\".to_owned());
            assert(tail.deep_view() =~= seq![c@]);
        } else if same_text(c, ".") {
        } else if same_text(c, "..") {
            let n = tail.len();
            if n > 0 {
                assert(before.last() == tail@[n - 1]@);
                let last = tail[n - 1].as_str();
                if !same_text(last, "\\") && !same_text(last, ".") && !same_text(last, "..") {
                    tail.pop();
                    assert(tail.deep_view() =~= before.drop_last());
                }
            }
        } else {
            tail.push(c.to_owned());
            assert(tail.deep_view() =~= before.push(c@));
        }
        i += 1;
    }
    assert(all.take(rest@.len() as int) =~= all);
}

fn write_tail(out: &mut String, tail: &Vec<String>)
    ensures
        final(out)@ == old(out)@ + written(tail.deep_view()),
{
    let ghost start = out@;
    let ghost all = tail.deep_view();
    let mut need = true;
    let mut i: usize = 0;
    assert(all.take(0) =~= Seq::<Text>::empty());
    assert(start =~= start + written(all.take(0)));
    while i < tail.len()
        invariant
            i <= tail@.len(),
            all == tail.deep_view(),
            need == (i == 0 || all[i - 1] != root_text(true)),
            out@ == start + written(all.take(i as int)),
        decreases tail@.len() - i,
    {
        let c = tail[i].as_str();
        let ghost before = out@;
        proof {
            assert(all.take(i + 1).drop_last() =~= all.take(i as int));
            assert(all.take(i + 1).last() == c@);
            if i > 0 {
                assert(all.take(i as int).last() == all[i - 1]);
            }
        }
        let root = same_text(c, "\\");
        if need && !root {
            *out = crate::text::cat3(out.as_str(), "\\", c);
        } else {
            *out = crate::text::cat2(out.as_str(), c);
        }
        assert(out@ =~= start + written(all.take(i + 1)));
        need = !root;
        i += 1;
    }
    assert(all.take(tail@.len() as int) =~= all);
}

/// `rest` taken from the directory `base`.
pub fn join_path(windows: bool, base: &str, rest: &str) -> (r: String)
    ensures
        r@ == joined_path(windows, base@, rest@),
{
    let b = chars_of(base);
    let t = chars_of(rest);
    let base_head = find_head(windows, &b);
    let rest_head = find_head(windows, &t);
    if !matches!(rest_head.form, Prefix::Nothing) {
        return rest.to_owned();
    }
    let kept = text_between(&b, 0, base_head.prefix_end);
    assert(kept@ =~= base@.take(base_head.prefix_end as int));
    if base_head.form.is_verbatim() && t.len() > 0 {
        let mut tail = components(windows, base);
        let ghost all = tail.deep_view();
        assert(all.len() >= 1);
        tail.remove(0);
        assert(tail.deep_view() =~= all.skip(1));
        resolve(&mut tail, &components(windows, rest));
        let mut out = kept;
        write_tail(&mut out, &tail);
        return out;
    }
    if rest_head.root_written {
        return crate::text::cat2(kept.as_str(), rest);
    }
    let drive = matches!(base_head.form, Prefix::Disk) && base_head.prefix_end == b.len();
    if b.len() == 0 || usual(windows).part(b[b.len() - 1]) || drive {
        crate::text::cat2(base, rest)
    } else if windows {
        crate::text::cat3(base, "\\", rest)
    } else {
        crate::text::cat3(base, "/", rest)
    }
}

/// `base` is `p` or one of the directories above it.
pub open spec fn lies_under(windows: bool, p: Text, base: Text) -> bool {
    let above = components_of(windows, base);
    let all = components_of(windows, p);
    above.len() <= all.len() && all.take(above.len() as int) == above
}

/// Whether `base` is `p` or one of the directories above it.
pub fn path_starts_with(windows: bool, p: &str, base: &str) -> (r: bool)
    ensures
        r == lies_under(windows, p@, base@),
{
    let a = components(windows, p);
    let b = components(windows, base);
    if b.len() > a.len() {
        return false;
    }
    let mut i: usize = 0;
    while i < b.len()
        invariant
            i <= b@.len() <= a@.len(),
            a.deep_view() == components_of(windows, p@),
            b.deep_view() == components_of(windows, base@),
            forall|j: int| 0 <= j < i ==> a.deep_view()[j] == b.deep_view()[j],
        decreases b@.len() - i,
    {
        if !same_text(a[i].as_str(), b[i].as_str()) {
            assert(a.deep_view()[i as int] != b.deep_view()[i as int]);
            assert(a.deep_view().take(b@.len() as int)[i as int] != b.deep_view()[i as int]);
            return false;
        }
        assert(a.deep_view()[i as int] == a@[i as int]@);
        assert(b.deep_view()[i as int] == b@[i as int]@);
        i += 1;
    }
    assert(a.deep_view().take(b@.len() as int) =~= b.deep_view());
    true
}

}
