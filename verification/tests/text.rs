use comfybox::ids::{sorted_unique, IdMap, IdSet};
use comfybox::paths;
use comfybox::size::format_human_size;
use comfybox::text;
use std::path::Path;

fn strings(items: &[&str]) -> Vec<String> {
    items.iter().map(|s| s.to_string()).collect()
}

#[test]
fn white_space_is_that_of_the_standard_library() {
    for n in 0..=0x10ffffu32 {
        if let Some(c) = char::from_u32(n) {
            assert_eq!(text::white_space(c), c.is_whitespace(), "{n:x}");
        }
    }
}

#[test]
fn texts_are_trimmed_and_compared_like_those_of_the_standard_library() {
    for s in ["", " a ", "\t\n", "\u{3000}é\u{a0}", "no blanks", "  x", "x  "] {
        assert_eq!(text::trim(s), s.trim());
        assert_eq!(text::to_lower(s), s.to_ascii_lowercase());
    }
    for (a, b) in [("a", "b"), ("a", "ab"), ("é", "z"), ("", "a"), ("B", "a"), ("x", "x")] {
        assert_eq!(text::text_less(a, b), a < b);
        assert_eq!(text::text_less(b, a), b < a);
        assert_eq!(text::same_text(a, b), a == b);
    }
    assert!(text::same_ignoring_case("ComfyUI", "comfyui"));
    assert!(!text::same_ignoring_case("é", "É"));
    assert_eq!(text::trim_end_char("a///", '/'), "a");
    assert_eq!(text::trim_start_char("[[x", '['), "x");
}

#[test]
fn texts_are_searched_like_those_of_the_standard_library() {
    for (s, p) in [("abc", "b"), ("abc", ""), ("", "a"), ("aab", "ab"), ("", ""), ("ab", "abc")] {
        assert_eq!(text::contains(s, p), s.contains(p));
        assert_eq!(text::starts_with(s, p), s.starts_with(p));
        assert_eq!(text::ends_with(s, p), s.ends_with(p));
        assert_eq!(text::strip_prefix(s, p), s.strip_prefix(p).map(str::to_owned));
    }
    assert_eq!(text::tail_after("a/b/c", '/'), "c");
    assert_eq!(text::tail_after("abc", '/'), "abc");
    assert_eq!(text::tail_after("abc/", '/'), "");
    assert!(text::contains_char("a/b", '/'));
    assert!(!text::contains_char("ab", '/'));
}

#[test]
fn lines_and_pieces_are_those_of_the_standard_library() {
    for s in ["", "a", "a\n", "a\r\nb", "\n\n", "a\r", "a\nb\r\n\r", "é\nü\n"] {
        let want: Vec<String> = s.lines().map(str::to_owned).collect();
        assert_eq!(text::lines(s), want);
        let want: Vec<String> = s.split('\n').map(str::to_owned).collect();
        assert_eq!(text::split_text(s, '\n'), want);
    }
    assert_eq!(text::replace_text("aXbXX", "X", "--"), "aXbXX".replace("X", "--"));
    assert_eq!(text::replace_text("aaa", "aa", "b"), "aaa".replace("aa", "b"));
    assert_eq!(text::replace_chars("a/b\\c:d", "/\\:", '_'), "a_b_c_d");
    assert_eq!(text::join_texts(&strings(&["a", "b", "c"]), ", "), "a, b, c");
    assert_eq!(text::join_texts(&strings(&[]), ", "), "");
}

#[test]
fn numbers_are_read_and_written_like_those_of_the_standard_library() {
    for s in [
        "", "+", "0", "+7", "007", "18446744073709551615", "18446744073709551616", "-1", "1a", " 1",
        "99999999999999999999999", "18446744073709551619",
    ] {
        assert_eq!(text::parse_u64(s), s.parse::<u64>().ok(), "{s}");
    }
    for n in [0, 7, 10, 99, 100, 12345, u64::MAX] {
        assert_eq!(text::decimal_text(n), n.to_string());
    }
    assert_eq!(text::two_digit_text(7), "07");
    assert_eq!(text::two_digit_text(42), "42");
    assert_eq!(text::align_left("ab", 5), format!("{:<5}", "ab"));
    assert_eq!(text::align_right("7", 3), format!("{:>3}", 7));
    assert_eq!(text::align_left("abcdef", 3), "abcdef");
    assert_eq!(text::byte_length("é"), 2);
}

#[test]
fn paths_are_taken_apart_like_those_of_the_standard_library() {
    let samples = [
        "", "/", ".", "..", "a", "a/b", "/a/b", "a/", "a//b", "a/./b", "./a", "/a/..", "a/b/.", "//",
        "//a", ".hidden", "x.tar.gz", "a.", "dir.d/file", "a/../b", "/usr/lib/", "./", "...", "/.", "a/.b",
    ];
    for p in samples {
        let path = Path::new(p);
        let name = path.file_name().map(|x| x.to_str().unwrap().to_owned());
        assert_eq!(paths::file_name(false, p), name, "file name of {p:?}");
        let parent = path.parent().map(|x| x.to_str().unwrap().to_owned());
        assert_eq!(paths::parent(false, p), parent, "parent of {p:?}");
        let ext = path.extension().map(|x| x.to_str().unwrap().to_owned());
        assert_eq!(paths::extension(false, p), ext, "extension of {p:?}");
        assert_eq!(
            paths::with_extension(false, p, "tmp.1"),
            path.with_extension("tmp.1").to_str().unwrap(),
            "with extension {p:?}"
        );
        for q in samples {
            assert_eq!(paths::join_path(false, p, q), path.join(q).to_str().unwrap(), "{p:?} {q:?}");
            assert_eq!(paths::path_starts_with(false, p, q), path.starts_with(q), "{p:?} under {q:?}");
            assert_eq!(
                comfybox::comfy::same_path(p, q, false),
                path == Path::new(q),
                "{p:?} same as {q:?}"
            );
        }
    }
}

#[test]
fn windows_paths_are_joined() {
    let cases = [
        ("", "foo", "foo"),
        ("foo", "bar", r"foo\bar"),
        ("foo/", "bar", "foo/bar"),
        (r"foo\", "bar", r"foo\bar"),
        ("foo//", "bar", "foo//bar"),
        ("foo", "..", r"foo\.."),
        (r"foo\bar", "", r"foo\bar\"),
        ("foo", r"\bar", r"\bar"),
        ("foo", "/bar", "/bar"),
        (r"C:\x", r"\windows", r"C:\windows"),
        (r"C:\x", r"D:\y", r"D:\y"),
        (r"C:\a\b\c", "C:d", "C:d"),
        ("C:", r"a\b\c", r"C:a\b\c"),
        ("C:", r"..\a", r"C:..\a"),
        (r"C:\x", "models/vae/m.bin", r"C:\x\models/vae/m.bin"),
        (r"\\server\share", "foo", r"\\server\share\foo"),
        (r"\\server\share\foo", r"\bar", r"\\server\share\bar"),
        (r"\\.\foo\bar", "baz", r"\\.\foo\bar\baz"),
        (r"\\.\foo", r"..\bar", r"\\.\foo\..\bar"),
        (r"\\?\C:\bar", "../foo", r"\\?\C:\foo"),
        (r"\\?\C:\bar", "../../foo", r"\\?\C:\foo"),
        (r"\\?\C:\", "../foo", r"\\?\C:\foo"),
        (r"\\?\C:", r"D:\foo/./", r"D:\foo/./"),
        (r"\\?\A:\x\y", "/foo", r"\\?\A:\foo"),
        (r"\\?\A:", r"..\foo\.", r"\\?\A:\foo"),
        (r"\\?\A:\x\y", r".\foo\.", r"\\?\A:\x\y\foo"),
        (r"\\?\A:\x\y", "", r"\\?\A:\x\y\"),
        (r"\\?\C:\x", "models/vae/m.bin", r"\\?\C:\x\models\vae\m.bin"),
        (r"\\?\UNC\server\share\x", "a", r"\\?\UNC\server\share\x\a"),
    ];
    for (base, rest, joined) in cases {
        assert_eq!(paths::join_path(true, base, rest), joined, "{base:?} {rest:?}");
    }
}

#[test]
fn windows_paths_are_taken_apart() {
    let cases = [
        (r"C:\x\ComfyUI", Some("ComfyUI"), Some(r"C:\x")),
        (r"C:/x\ComfyUI/", Some("ComfyUI"), Some("C:/x")),
        (r"C:\x", Some("x"), Some(r"C:\")),
        (r"C:\", None, None),
        ("C:", None, None),
        ("C:x", Some("x"), Some("C:")),
        ("C:.", None, Some("C:")),
        (r"a\b", Some("b"), Some("a")),
        (r"\a", Some("a"), Some(r"\")),
        (r"\\server\share", None, None),
        (r"\\server\share\a", Some("a"), Some(r"\\server\share\")),
        (r"\\server", Some("server"), Some(r"\")),
        (r"\\?\C:\a/b", Some("a/b"), Some(r"\\?\C:\")),
        (r"\\?\C:\a\.", None, Some(r"\\?\C:\a")),
        (r"\\?\C:\a\..", None, Some(r"\\?\C:\a")),
    ];
    for (p, name, parent) in cases {
        assert_eq!(paths::file_name(true, p).as_deref(), name, "file name of {p:?}");
        assert_eq!(paths::parent(true, p).as_deref(), parent, "parent of {p:?}");
    }
    assert_eq!(paths::with_extension(true, r"C:\c.d\config", "tmp.1"), r"C:\c.d\config.tmp.1");
    assert_eq!(paths::extension(true, r"C:\c.d\config").as_deref(), None);
    assert_eq!(paths::extension(true, r"x\config.json").as_deref(), Some("json"));
}

#[test]
fn windows_paths_are_compared_by_their_components() {
    let under = |p, base| paths::path_starts_with(true, p, base);
    assert!(under(r"C:\src\rust\test", r"c:\src\rust"));
    assert!(under(r"C:\src/rust", r"C:\src\.\"));
    assert!(!under(r"C:\srcs", r"C:\src"));
    assert!(!under(r"C:x", r"C:\"));
    assert!(!under(r"D:\src", r"C:\"));
    assert!(!under(r"\\?\C:\src", r"C:\"));
    assert!(under(r"\\server\share\x", "//server/share"));
    assert!(!under(r"\\server\share", r"\\?\share"));
    assert!(!under(r"\\?/share\x", r"\\?\share"));
    assert!(comfybox::comfy::same_path(r"C:\a\.\b\", r"c:/a/b", true));
    assert_eq!(
        paths::components(true, r"\\?\c:\a/b\."),
        vec![r"\\?\c:", r"\", "a/b", "."]
    );
    assert_eq!(paths::components(true, r"C:.\a"), vec!["c:", ".", "a"]);
    assert_eq!(paths::components(true, r"\\.\COM1"), vec!["//./COM1", r"\"]);
}

fn label(bytes: u64) -> String {
    let units = ["B", "KiB", "MiB", "GiB", "TiB"];
    let mut value = bytes as f64;
    let mut unit = 0;
    while value >= 1024.0 && unit < 4 {
        value /= 1024.0;
        unit += 1;
    }
    format!("{value:.1} {}", units[unit])
}

#[test]
fn size_labels_are_those_of_doubles() {
    assert_eq!(format_human_size(0), "0.0 B");
    assert_eq!(format_human_size(1024), "1.0 KiB");
    assert_eq!(format_human_size(1073741824), "1.0 GiB");
    assert_eq!(format_human_size(u64::MAX), label(u64::MAX));
    let mut n: u64 = 1;
    let mut seed: u64 = 88172645463325252;
    for _ in 0..20000 {
        seed ^= seed << 13;
        seed ^= seed >> 7;
        seed ^= seed << 17;
        n = n.wrapping_mul(6364136223846793005).wrapping_add(seed);
        let bytes = n >> (seed % 64);
        assert_eq!(format_human_size(bytes), label(bytes), "{bytes}");
    }
    for k in 0..64u32 {
        for d in [-2i64, -1, 0, 1, 2, 51, 52, 53, 512, 768] {
            let bytes = (1u64 << k).wrapping_add(d as u64);
            assert_eq!(format_human_size(bytes), label(bytes), "{bytes}");
        }
    }
    for twentieth in 0..2048u64 {
        let bytes = twentieth * 128 + 64;
        assert_eq!(format_human_size(bytes), label(bytes), "{bytes}");
    }
}

#[test]
fn sets_and_maps_are_ordered_and_hold_each_identifier_once() {
    let mut set = IdSet::new();
    assert!(set.is_empty());
    assert!(set.insert("b".to_owned()));
    assert!(set.insert("a".to_owned()));
    assert!(!set.insert("b".to_owned()));
    assert_eq!(set.len(), 2);
    assert_eq!(set.to_texts(), strings(&["a", "b"]));
    assert_eq!(set.get(0), Some(&"a".to_owned()));
    assert_eq!(set.get(2), None);
    assert!(set.remove("a"));
    assert!(!set.remove("a"));
    assert!(!set.contains("a") && set.contains("b"));
    assert_eq!(sorted_unique(&strings(&["c", "a", "c", "b"])), strings(&["a", "b", "c"]));
    let mut map: IdMap<u32> = IdMap::new();
    map.insert("y".to_owned(), 1);
    map.insert("x".to_owned(), 2);
    map.insert("y".to_owned(), 3);
    assert_eq!(map.len(), 2);
    assert_eq!(map.get("y"), Some(&3));
    assert_eq!(map.entry(0), Some((&"x".to_owned(), &2)));
    map.remove("x");
    assert_eq!(map.get("x"), None);
    assert_eq!(map.len(), 1);
}
