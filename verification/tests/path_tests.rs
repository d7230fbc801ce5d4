use shapeshifter::host_ops::with_extension_str;
use shapeshifter::path::{
    ends_with_relative_chars, extension_chars, file_name_chars, file_stem_chars, join_str,
    parent_chars, strip_prefix_chars,
};
use std::path::Path;

const SAMPLES: [&str; 30] = [
    "", "/", "//", ".", "./", "..", "../", "a", "a/", "a//", "/a", "//a", "a/b", "a/b/",
    "a/./b", "a/b/.", "a/b/./", "./a", "././a", "/./a", "/.", "a/..", "/..", "foo.txt/.",
    "dir/auth.json", "dir/.hidden", "dir/archive.tar.gz", "a/b/../c", "x/..y", ".../a",
];

fn chars(s: &str) -> Vec<char> {
    s.chars().collect()
}

fn text(v: Option<Vec<char>>) -> Option<String> {
    v.map(|c| c.into_iter().collect())
}

#[test]
fn names_and_parents_read_dot_segments_as_std_does() {
    for s in SAMPLES {
        let p = Path::new(s);
        let name = p.file_name().map(|x| x.to_str().unwrap().to_string());
        let stem = p.file_stem().map(|x| x.to_str().unwrap().to_string());
        let ext = p.extension().map(|x| x.to_str().unwrap().to_string());
        assert_eq!(text(file_name_chars(&chars(s))), name, "file_name {s:?}");
        assert_eq!(text(file_stem_chars(&chars(s))), stem, "file_stem {s:?}");
        assert_eq!(text(extension_chars(&chars(s))), ext, "extension {s:?}");
        assert_eq!(
            text(parent_chars(&chars(s))),
            p.parent().map(|q| q.to_str().unwrap().to_string()),
            "parent {s:?}"
        );
        assert_eq!(
            with_extension_str(s, "bak"),
            p.with_extension("bak").to_str().unwrap(),
            "with_extension {s:?}"
        );
    }
}

#[test]
fn prefixes_and_suffixes_read_dot_segments_as_std_does() {
    let bases = ["", "/", "a", "a/", "./a", ".", "a/./b", "/a/.", "a/b", "/a", "..", "a/.."];
    for s in SAMPLES {
        for b in bases {
            let expected = Path::new(s).strip_prefix(b).ok().map(|q| q.to_str().unwrap().to_string());
            assert_eq!(text(strip_prefix_chars(&chars(s), &chars(b))), expected, "{s:?} - {b:?}");
        }
        for suffix in ["a", "b", "./a", "a/b", "b/.", "..", ".local/share", "c"] {
            assert_eq!(
                ends_with_relative_chars(&chars(s), &chars(suffix)),
                Path::new(s).ends_with(suffix),
                "{s:?} ends with {suffix:?}"
            );
        }
    }
}

#[test]
fn joins_as_std_does() {
    for s in SAMPLES {
        for part in ["x", "/x", "", "./x"] {
            assert_eq!(join_str(s, part), Path::new(s).join(part).to_str().unwrap(), "{s:?} + {part:?}");
        }
    }
}
