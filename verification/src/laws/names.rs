//! Laws of file names, extensions and parents, of paths with slashes.
use crate::catalog::ArtifactView;
use crate::download::{
    backup_name, part_of, ranges_of, safe_id, target_dir, target_of, temp_dir_of, temporary_name,
};
use crate::paths::{
    body_end, body_start, extension_of, file_name_of, joined_path, last_dot, last_segment,
    parent_of, segment_start, with_extension_of, Separators,
};
use crate::text::Text;
use vstd::prelude::*;
use vstd::string::*;

verus! {

/// The name of a file or a directory: not empty, without slashes, and neither `.` nor `..`.
pub open spec fn proper(name: Text) -> bool {
    &&& name.len() > 0
    &&& forall|i: int| 0 <= i < name.len() ==> #[trigger] name[i] != '/'
    &&& name != "."@
    &&& name != ".."@
}

/// The path of `name` in the directory `dir`.
pub open spec fn in_dir(dir: Text, name: Text) -> Text {
    dir.push('/') + name
}

proof fn segment_after_slash(p: Text, start: int, from: int, end: int)
    requires
        0 <= start <= from <= end <= p.len(),
        from == start || p[from - 1] == '/',
        forall|i: int| from <= i < end ==> #[trigger] p[i] != '/',
    ensures
        segment_start(Separators::Slash, p, start, end) == from,
    decreases end - from,
{
    if from < end {
        assert(p[end - 1] != '/');
        segment_after_slash(p, start, from, end - 1);
    }
}

proof fn last_segment_of(dir: Text, name: Text)
    requires
        proper(name),
    ensures
        ({
            let p = in_dir(dir, name);
            &&& last_segment(false, p) == (dir.len() as int + 1, p.len() as int)
            &&& body_start(false, p) <= 1
            &&& p.subrange(dir.len() as int + 1, p.len() as int) == name
        }),
{
    let p = in_dir(dir, name);
    let k = dir.len() as int + 1;
    let start = body_start(false, p);
    assert forall|i: int| k <= i < p.len() implies #[trigger] p[i] != '/' by {
        assert(p[i] == name[i - k]);
    }
    assert(p[k - 1] == '/');
    segment_after_slash(p, start, k, p.len() as int);
    assert(p.subrange(k, p.len() as int) =~= name);
    reveal_strlit(".");
    if name.len() == 1 && name[0] == '.' {
        assert(name =~= "."@);
    }
    assert(p[k] == name[0]);
}

/// The file of a path is what follows its last slash.
pub proof fn files_are_named_after_the_last_slash(dir: Text, name: Text)
    requires
        proper(name),
    ensures
        file_name_of(false, in_dir(dir, name)) == Some(name),
{
    last_segment_of(dir, name);
}

/// The directory of a path is what comes before its last slash.
pub proof fn parents_come_before_the_last_slash(dir: Text, name: Text)
    requires
        proper(name),
        dir.len() > 0 ==> dir.last() != '/' && dir.last() != '.',
    ensures
        dir.len() > 0 ==> parent_of(false, in_dir(dir, name)) == Some(dir),
        dir.len() == 0 ==> parent_of(false, in_dir(dir, name)) == Some("/"@),
{
    last_segment_of(dir, name);
    let p = in_dir(dir, name);
    let start = body_start(false, p);
    reveal_strlit("/");
    if dir.len() > 0 {
        let n = dir.len() as int;
        assert(p[n - 1] == dir.last());
        assert(p.take(n) =~= dir);
        assert(p[0] == dir[0]);
        if start == 1 && n == 1 {
            assert(p[0] == '/' || p[0] == '.');
        }
        let from = segment_start(Separators::Slash, p, start, n);
        segment_lies_within(p, start, n);
        assert(from < n);
        assert(body_end(Separators::Slash, p, start, n) == n);
    } else {
        assert(p[0] == '/');
        assert(p.take(1) =~= "/"@);
    }
}

proof fn segment_lies_within(p: Text, start: int, end: int)
    requires
        0 <= start <= end <= p.len(),
    ensures
        start <= segment_start(Separators::Slash, p, start, end) <= end,
        start < end && p[end - 1] != '/' ==> segment_start(Separators::Slash, p, start, end) < end,
    decreases end,
{
    if end > start && p[end - 1] != '/' {
        segment_lies_within(p, start, end - 1);
    }
}

proof fn dot_before(stem: Text, ext: Text)
    requires
        forall|i: int| 0 <= i < ext.len() ==> #[trigger] ext[i] != '.',
    ensures
        last_dot(stem.push('.') + ext) == stem.len(),
    decreases ext.len(),
{
    let s = stem.push('.') + ext;
    if ext.len() > 0 {
        assert(s.last() == ext.last());
        assert(s.drop_last() =~= stem.push('.') + ext.drop_last());
        dot_before(stem, ext.drop_last());
    } else {
        assert(s =~= stem.push('.'));
    }
}

/// The extension of a file is what follows the last dot of its name; where another takes its place,
/// everything before the dot is kept.
pub proof fn extensions_follow_the_last_dot(dir: Text, stem: Text, ext: Text, other: Text)
    requires
        stem.len() > 0,
        proper(stem.push('.') + ext),
        forall|i: int| 0 <= i < ext.len() ==> #[trigger] ext[i] != '.',
    ensures
        extension_of(false, in_dir(dir, stem.push('.') + ext)) == Some(ext),
        with_extension_of(false, in_dir(dir, stem.push('.') + ext), other) == in_dir(
            dir,
            stem.push('.') + other,
        ),
{
    let name = stem.push('.') + ext;
    let p = in_dir(dir, name);
    last_segment_of(dir, name);
    dot_before(stem, ext);
    assert(name.skip(stem.len() as int + 1) =~= ext);
    reveal_strlit(".");
    assert(p.take(dir.len() as int + 1 + stem.len()) + "."@ + other =~= in_dir(
        dir,
        stem.push('.') + other,
    ));
}

/// A temporary file and a backup lie in the directory of their file and begin with its name without
/// its extension.
pub proof fn temporary_files_lie_beside_their_file(dir: Text, stem: Text, ext: Text, id: Text)
    requires
        stem.len() > 0,
        proper(stem.push('.') + ext),
        forall|i: int| 0 <= i < ext.len() ==> #[trigger] ext[i] != '.',
    ensures
        temporary_name(false, in_dir(dir, stem.push('.') + ext), id) == in_dir(
            dir,
            stem + ".tmp."@ + id,
        ),
        backup_name(false, in_dir(dir, stem.push('.') + ext), id) == in_dir(
            dir,
            stem + ".comfybox-backup-"@ + id,
        ),
{
    extensions_follow_the_last_dot(dir, stem, ext, "tmp."@ + id);
    extensions_follow_the_last_dot(dir, stem, ext, "comfybox-backup-"@ + id);
    reveal_strlit("tmp.");
    reveal_strlit(".tmp.");
    reveal_strlit("comfybox-backup-");
    reveal_strlit(".comfybox-backup-");
    assert(stem.push('.') + ("tmp."@ + id) =~= stem + ".tmp."@ + id);
    assert(stem.push('.') + ("comfybox-backup-"@ + id) =~= stem + ".comfybox-backup-"@ + id);
}

/// A path is taken from a directory by a slash between them, unless the directory ends with one; an
/// absolute path stands for itself.
pub proof fn paths_are_joined_by_a_slash(base: Text, rest: Text)
    ensures
        base.len() > 0 && base.last() != '/' && (rest.len() == 0 || rest[0] != '/') ==> joined_path(
            false,
            base,
            rest,
        ) == in_dir(base, rest),
        base.len() > 0 && base.last() == '/' && (rest.len() == 0 || rest[0] != '/') ==> joined_path(
            false,
            base,
            rest,
        ) == base + rest,
        base.len() == 0 ==> joined_path(false, base, rest) == rest,
        rest.len() > 0 && rest[0] == '/' ==> joined_path(false, base, rest) == rest,
{
    reveal_strlit("/");
    assert(base + "/"@ + rest =~= in_dir(base, rest));
    assert(base.take(0) + rest =~= rest);
    if base.len() == 0 {
        assert(base + rest =~= rest);
    }
}

/// An identifier is made the name of a directory: nothing changes but slashes, backslashes and
/// colons, which become underscores.
pub proof fn identifiers_become_names(id: Text, i: int)
    requires
        0 <= i < id.len(),
    ensures
        safe_id(id).len() == id.len(),
        id[i] == '/' || id[i] == '\\' || id[i] == ':' ==> safe_id(id)[i] == '_',
        id[i] != '/' && id[i] != '\\' && id[i] != ':' ==> safe_id(id)[i] == id[i],
{
    reveal_strlit("/\\:");
    let from = "/\\:"@;
    assert(from[0] == '/' && from[1] == '\\' && from[2] == ':');
    assert(from.contains(from[0]) && from.contains(from[1]) && from.contains(from[2]));
}

/// The target of an artifact is its path in the root. Its temporary data lies beside it, in a
/// directory of its own by its identifier: the partial file and the record of its ranges.
pub proof fn artifacts_have_their_own_places(
    root: Text,
    dir: Text,
    name: Text,
    a: ArtifactView,
)
    requires
        root.len() > 0,
        root.last() != '/',
        dir.len() > 0,
        dir[0] != '/',
        dir.last() != '/' && dir.last() != '.',
        proper(name),
        a.relative_path == in_dir(dir, name),
        proper(safe_id(a.id)),
    ensures
        ({
            let place = in_dir(in_dir(in_dir(root, dir), ".comfybox-tmp"@), safe_id(a.id));
            &&& target_of(false, root, a) == in_dir(in_dir(root, dir), name)
            &&& target_dir(false, root, a) == in_dir(root, dir)
            &&& temp_dir_of(false, root, a) == place
            &&& part_of(false, root, a) == in_dir(place, name + ".part"@)
            &&& ranges_of(false, root, a) == in_dir(place, "ranges.json"@)
        }),
{
    let base = in_dir(root, dir);
    let target = in_dir(base, name);
    paths_are_joined_by_a_slash(root, a.relative_path);
    assert(a.relative_path[0] == dir[0]);
    assert(in_dir(root, in_dir(dir, name)) =~= target);
    assert(base.last() == dir.last());
    parents_come_before_the_last_slash(base, name);
    files_are_named_after_the_last_slash(base, name);
    reveal_strlit(".comfybox-tmp");
    reveal_strlit("ranges.json");
    reveal_strlit(".part");
    paths_are_joined_by_a_slash(base, ".comfybox-tmp"@);
    let tmp = in_dir(base, ".comfybox-tmp"@);
    assert(tmp.last() == 'p');
    assert(safe_id(a.id)[0] != '/');
    paths_are_joined_by_a_slash(tmp, safe_id(a.id));
    let place = in_dir(tmp, safe_id(a.id));
    assert(place.last() == safe_id(a.id)[safe_id(a.id).len() - 1]);
    assert((name + ".part"@)[0] == name[0]);
    paths_are_joined_by_a_slash(place, name + ".part"@);
    paths_are_joined_by_a_slash(place, "ranges.json"@);
}

}
