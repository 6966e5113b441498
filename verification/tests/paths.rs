use bo::paths::{file_inside, join, lies_under, path_components, starts_with};
use std::path::{Component, Path};

fn std_components(p: &str) -> Vec<String> {
    Path::new(p)
        .components()
        .map(|c| match c {
            Component::RootDir => "/".to_string(),
            Component::CurDir => ".".to_string(),
            Component::ParentDir => "..".to_string(),
            Component::Normal(s) => s.to_str().unwrap().to_string(),
            Component::Prefix(_) => unreachable!(),
        })
        .collect()
}

const SAMPLES: &[&str] = &[
    "", "/", "//", ".", "./", "./a", "..", "../a", "a", "a/", "a//b", "a/./b", "a/../b", "/a/b/",
    "/./a", ".a/b", "a/.", "/tmp/my-stash", "/tmp/my-stash/", "./.bo/config.json",
];

#[test]
fn components_agree_with_std() {
    for p in SAMPLES {
        let ours: Vec<String> = path_components(p).into_iter().map(|c| c.into_iter().collect()).collect();
        assert_eq!(ours, std_components(p), "components of {:?}", p);
    }
}

#[test]
fn join_agrees_with_std() {
    for base in SAMPLES {
        for p in ["a.md", "", "/etc/passwd", "sub/x.md", "../up.md"] {
            let ours = join(base, p);
            let theirs = Path::new(base).join(p);
            assert_eq!(ours, theirs.to_str().unwrap(), "join {:?} {:?}", base, p);
        }
    }
}

#[test]
fn starts_with_agrees_with_std() {
    for a in SAMPLES {
        for b in SAMPLES {
            assert_eq!(starts_with(a, b), Path::new(a).starts_with(b), "{:?} starts with {:?}", a, b);
        }
    }
}

#[test]
fn join_examples() {
    assert_eq!(join("/tmp", "a.md"), "/tmp/a.md");
    assert_eq!(join("/tmp/", "a.md"), "/tmp/a.md");
    assert_eq!(join("", "a.md"), "a.md");
    assert_eq!(join("/tmp", "/etc/passwd"), "/etc/passwd");
}

#[test]
fn ledger_files_inside_the_stash() {
    assert_eq!(file_inside("/stash", "article.md").as_deref(), Some("/stash/article.md"));
    assert!(file_inside("/stash", "../escape.md").is_none());
    assert!(file_inside("/stash", "sub/../../escape.md").is_none());
    assert_eq!(file_inside("/stash", "sub/../a.md").as_deref(), Some("/stash/sub/../a.md"));
    assert_eq!(file_inside("/stash/./x/..", "a.md").as_deref(), Some("/stash/./x/../a.md"));
    assert_eq!(file_inside("/stash", "/stash/x.md").as_deref(), Some("/stash/x.md"));
    assert!(file_inside("/stash", "/etc/passwd").is_none());
    assert!(file_inside("/stash", "/stashed/x.md").is_none());
}

#[test]
fn lies_under_resolves_parent_parts() {
    assert!(lies_under("/h/s/a.md", "/h/s"));
    assert!(!lies_under("/h/s/../x.md", "/h/s"));
    assert!(lies_under("/h/s/a/../b.md", "/h/s"));
    assert!(lies_under("/../h/s/a", "/h/s"));
    assert!(!lies_under("/h", "/h/s"));
    assert!(lies_under("x/y", "x/../x"));
    assert!(!lies_under("../a", ""));
    assert!(lies_under("a", ""));
}
