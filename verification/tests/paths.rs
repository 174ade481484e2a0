use anda_extension::path::PosixPath;
use std::path::{Component, Path};

const SAMPLES: [&str; 34] = [
    "", "/", "//", ".", "..", "./", "../", "/.", "/..", "a", "a/", "a//", "/a", "//a", "a/b",
    "a//b", "a/./b", "./a", "a/.", "a/..", "a/../b", "../a", "/a/b/c", "/a/b/./c/", "a/b/..",
    ".hidden", "a/.hidden/b", "...", "a b", "/tmp/./x/../y//z/", "é/中", "/./a", "././a", "a/./..",
];

fn posix(text: &str) -> PosixPath {
    PosixPath::from_text(text)
}

fn text(path: &PosixPath) -> String {
    path.display()
}

#[test]
fn paths_keep_their_bytes() {
    for sample in SAMPLES {
        assert_eq!(posix(sample).as_bytes(), sample.as_bytes());
        assert_eq!(posix(sample).display(), Path::new(sample).display().to_string());
        assert_eq!(posix(sample).is_empty(), sample.is_empty());
        assert_eq!(text(&posix(sample).clone()), sample);
    }
    let odd = PosixPath::from_bytes(vec![0x61, 0xff, 0x62]);
    assert_eq!(odd.display(), "a\u{fffd}b");
    assert_eq!(odd.as_bytes(), &[0x61, 0xff, 0x62]);
}

#[test]
fn relative_paths_agree_with_std() {
    for sample in SAMPLES {
        assert_eq!(posix(sample).is_relative(), Path::new(sample).is_relative(), "{sample}");
    }
}

#[test]
fn prefixes_agree_with_std() {
    for path in SAMPLES {
        for base in SAMPLES {
            assert_eq!(
                posix(path).starts_with(&posix(base)),
                Path::new(path).starts_with(base),
                "{path} under {base}"
            );
            assert_eq!(
                posix(path).same_path(&posix(base)),
                Path::new(path) == Path::new(base),
                "{path} is {base}"
            );
        }
    }
}

#[test]
fn names_agree_with_std() {
    for sample in SAMPLES {
        let name = posix(sample).file_name();
        let expected = Path::new(sample).file_name().map(|n| n.to_str().unwrap().to_string());
        assert_eq!(name.map(|n| String::from_utf8(n).unwrap()), expected, "{sample}");
    }
}

#[test]
fn parents_agree_with_std() {
    for sample in SAMPLES {
        let parent = posix(sample).parent();
        let expected = Path::new(sample).parent().map(|p| p.to_str().unwrap().to_string());
        assert_eq!(parent.map(|p| text(&p)), expected, "{sample}");
    }
}

#[test]
fn joins_agree_with_std() {
    for base in SAMPLES {
        for tail in SAMPLES {
            let joined = posix(base).join(&posix(tail));
            let expected = Path::new(base).join(tail);
            assert_eq!(text(&joined), expected.to_str().unwrap(), "{base} with {tail}");
            assert_eq!(posix(base).join_bytes(tail.as_bytes()).as_bytes(), joined.as_bytes());
        }
    }
}

#[test]
fn parent_references_agree_with_std() {
    for sample in SAMPLES {
        let expected = Path::new(sample).components().any(|c| matches!(c, Component::ParentDir));
        assert_eq!(posix(sample).contains_parent_reference(), expected, "{sample}");
    }
}

#[test]
fn a_name_is_joined_and_dropped_again() {
    let joined = posix("/work/space").join(&posix("file.txt"));
    assert_eq!(text(&joined), "/work/space/file.txt");
    assert_eq!(joined.file_name(), Some(b"file.txt".to_vec()));
    assert!(joined.parent().unwrap().same_path(&posix("/work/space")));
    assert!(joined.starts_with(&posix("/work")));
    assert!(!joined.starts_with(&posix("/wor")));
}

#[test]
fn only_the_empty_path_has_no_components() {
    for sample in SAMPLES {
        assert_eq!(posix(sample).same_path(&posix("")), sample.is_empty(), "{sample}");
    }
}
