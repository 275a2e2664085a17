use std::cell::RefCell;
use std::path::Path;

use broom::candidate::{label_for, label_with};
use broom::locations::{caches_dir, downloads_dir, expand_tilde};
use broom::rules::{download_choice_for_name, has_marker, has_marker_in, is_download_candidate};
use broom::safety::{is_protected_path, placement_verdict, protection_verdict, safe_to_trash, Refusal};
use broom::units::human;

const SAMPLES: &[&str] = &[
    "", "/", "//", "a", "/a", "/a/", "a/b", "/a/b", "/a//b", "/a/./b", "./a", ".", "..", "/..", "a/..",
    "a/.", "/home/user", "/home/user/", "/home/user/.ssh", "x/y/z", "/a/b/c.txt", "./", "../x",
    "/a/b//c/", "/r/.git", "/r/Setup.DMG",
];

#[test]
fn labels_follow_strip_prefix() {
    for path in SAMPLES {
        for root in SAMPLES {
            let shown = match Path::new(path).strip_prefix(root) {
                Ok(rel) => rel.to_string_lossy().into_owned(),
                Err(_) => path.to_string(),
            };
            assert_eq!(label_for(root, path, 1536), format!("{}  {}", human(1536), shown));
        }
    }
    assert_eq!(label_for("/r", "/r/a/target", 1536), "   1.5 KB  a/target");
    assert_eq!(label_with(0, Some("x"), "/r/x"), "   0.0 B   x");
    assert_eq!(label_with(0, None, "/r/x"), "   0.0 B   /r/x");
}

#[test]
fn places_follow_join() {
    for home in SAMPLES {
        let joined = Path::new(home).join("Downloads").to_string_lossy().into_owned();
        assert_eq!(downloads_dir(Some(home)), Some(joined));
        let caches = Path::new(home).join("Library").join("Caches").to_string_lossy().into_owned();
        assert_eq!(caches_dir(Some(home)), Some(caches));
        assert_eq!(
            expand_tilde("~/projects", Some(home)),
            Path::new(home).join("projects").to_string_lossy().into_owned()
        );
    }
}

#[test]
fn markers_follow_parent_and_join() {
    let markers = [
        "package.json",
        "Cargo.toml",
        "pyproject.toml",
        "go.mod",
        "pom.xml",
        "build.gradle",
        "build.gradle.kts",
        "Makefile",
    ];
    for dir in SAMPLES {
        let asked = RefCell::new(Vec::new());
        let found = has_marker(dir, |p| {
            asked.borrow_mut().push(p.to_owned());
            false
        });
        assert!(!found);
        let expected: Vec<String> = match Path::new(dir).parent() {
            Some(parent) => markers.iter().map(|m| parent.join(m).to_string_lossy().into_owned()).collect(),
            None => Vec::new(),
        };
        assert_eq!(asked.into_inner(), expected, "{:?}", dir);
    }
    assert!(!has_marker_in(None, |_| true));
    let asked = RefCell::new(Vec::new());
    assert!(has_marker_in(Some("/p"), |p| {
        asked.borrow_mut().push(p.to_owned());
        p.ends_with("go.mod")
    }));
    assert_eq!(asked.into_inner(), vec!["/p/package.json", "/p/Cargo.toml", "/p/pyproject.toml", "/p/go.mod"]);
}

#[test]
fn downloads_follow_file_name() {
    for path in SAMPLES {
        let expected = Path::new(path).file_name().and_then(|n| {
            let l = n.to_string_lossy().to_ascii_lowercase();
            if [".dmg", ".pkg", ".mpkg"].iter().any(|e| l.ends_with(e)) {
                Some(true)
            } else if [".zip", ".tar.gz", ".tgz", ".rar", ".7z"].iter().any(|e| l.ends_with(e)) {
                Some(false)
            } else {
                None
            }
        });
        assert_eq!(is_download_candidate(path), expected, "{:?}", path);
    }
    assert_eq!(download_choice_for_name(Some("A.TGZ")), Some(false));
    assert_eq!(download_choice_for_name(Some("a.mpkg")), Some(true));
    assert_eq!(download_choice_for_name(Some("readme")), None);
    assert_eq!(download_choice_for_name(None), None);
}

#[test]
fn trash_checks_follow_path_comparisons() {
    for p in SAMPLES {
        for q in SAMPLES {
            let pp = Path::new(p);
            let inside = pp != Path::new(q) && pp.starts_with(q);
            let protected = pp == Path::new("/")
                || pp.file_name().is_some_and(|n| [".git", ".ssh", ".gnupg"].contains(&n.to_string_lossy().as_ref()));
            let verdict = safe_to_trash(true, Ok(p.to_string()), Ok(q.to_string()), &vec![]);
            match verdict {
                Ok(x) => {
                    assert!(inside && !protected, "{:?} {:?}", p, q);
                    assert_eq!(x, *p);
                }
                Err(Refusal::OutsideRoot(r)) => {
                    assert!(!inside, "{:?} {:?}", p, q);
                    assert_eq!(r, *q);
                }
                Err(Refusal::Protected) => assert!(inside && protected, "{:?} {:?}", p, q),
                Err(other) => panic!("unexpected refusal {:?}", other),
            }
            assert_eq!(is_protected_path(p, &vec![q.to_string()]), protected || pp == Path::new(q));
        }
    }
}

#[test]
fn verdicts_from_findings() {
    assert!(protection_verdict(true, None, &vec![]));
    assert!(protection_verdict(false, Some(".ssh"), &vec![]));
    assert!(!protection_verdict(false, Some("ssh"), &vec![false, false]));
    assert!(protection_verdict(false, None, &vec![false, true]));
    assert!(matches!(
        placement_verdict("/r/x".into(), "/r".into(), false, true, false),
        Ok(ref x) if x == "/r/x"
    ));
    assert!(matches!(
        placement_verdict("/r".into(), "/r".into(), true, true, false),
        Err(Refusal::OutsideRoot(ref r)) if r == "/r"
    ));
    assert!(matches!(
        placement_verdict("/s/x".into(), "/r".into(), false, false, true),
        Err(Refusal::OutsideRoot(_))
    ));
    assert!(matches!(placement_verdict("/r/x".into(), "/r".into(), false, true, true), Err(Refusal::Protected)));
}
