use std::cell::Cell;

use broom::candidate::{file_size, label_for, total_bytes, Candidate, Category, Risk};
use broom::rules::{dir_action, has_marker, is_download_candidate, DirAction};
use broom::scan::{scan_caches, scan_downloads, EntryInfo, EntryKind, FolderScan, HereScan};

#[test]
fn download_candidates_by_ending() {
    assert_eq!(is_download_candidate("/home/u/Downloads/Setup.dmg"), Some(true));
    assert_eq!(is_download_candidate("/d/Tool.PKG"), Some(true));
    assert_eq!(is_download_candidate("/d/App.mpkg"), Some(true));
    assert_eq!(is_download_candidate("/d/src.tar.gz"), Some(false));
    assert_eq!(is_download_candidate("/d/Photos.ZIP"), Some(false));
    assert_eq!(is_download_candidate("/d/a.tgz"), Some(false));
    assert_eq!(is_download_candidate("/d/a.rar"), Some(false));
    assert_eq!(is_download_candidate("/d/a.7z"), Some(false));
    assert_eq!(is_download_candidate("/d/notes.txt"), None);
    assert_eq!(is_download_candidate("/d/dmg"), None);
    assert_eq!(is_download_candidate("/"), None);
    assert_eq!(is_download_candidate("/d/.."), None);
}

#[test]
fn dir_actions_follow_the_lists() {
    assert_eq!(dir_action("node_modules", true, || panic!("not asked")), DirAction::Collect);
    assert_eq!(dir_action("target", true, || panic!("not asked")), DirAction::Collect);
    assert_eq!(dir_action("DerivedData", true, || panic!("not asked")), DirAction::Collect);
    assert_eq!(dir_action(".git", true, || panic!("not asked")), DirAction::SkipDir);
    assert_eq!(dir_action(".vscode", true, || panic!("not asked")), DirAction::SkipDir);
    assert_eq!(dir_action("src", true, || panic!("not asked")), DirAction::Continue);
    assert_eq!(dir_action("target", false, || panic!("not asked")), DirAction::Continue);
}

#[test]
fn generic_names_need_a_marker() {
    for name in ["dist", "build", "out"] {
        let asked = Cell::new(0);
        assert_eq!(
            dir_action(name, true, || {
                asked.set(asked.get() + 1);
                false
            }),
            DirAction::SkipDir
        );
        assert_eq!(dir_action(name, true, || true), DirAction::Collect);
        assert_eq!(asked.get(), 1);
    }
}

#[test]
fn marker_is_looked_for_beside_the_folder() {
    let existing = ["/proj/Cargo.toml"];
    assert!(has_marker("/proj/dist", |p| existing.contains(&p)));
    assert!(!has_marker("/other/dist", |p| existing.contains(&p)));
    assert!(!has_marker("/", |_| true));
    let asked = std::cell::RefCell::new(Vec::new());
    assert!(!has_marker("/p/build", |p| {
        asked.borrow_mut().push(p.to_owned());
        false
    }));
    assert_eq!(
        asked.into_inner(),
        vec![
            "/p/package.json",
            "/p/Cargo.toml",
            "/p/pyproject.toml",
            "/p/go.mod",
            "/p/pom.xml",
            "/p/build.gradle",
            "/p/build.gradle.kts",
            "/p/Makefile"
        ]
    );
}

#[test]
fn candidate_labels() {
    assert_eq!(label_for("/r", "/r/a/target", 1536), "   1.5 KB  a/target");
    assert_eq!(label_for("/r", "/elsewhere/x", 0), "   0.0 B   /elsewhere/x");
    let c = Candidate::new("/r", "/r/node_modules".to_owned(), 2048, Category::Here, true);
    assert_eq!(c.path(), "/r/node_modules");
    assert_eq!(c.size(), 2048);
    assert_eq!(c.label(), "   2.0 KB  node_modules");
    assert_eq!(c.category(), Category::Here);
    assert_eq!(c.risk(), Risk::ReviewOnly);
    assert!(c.selected_by_default());
    let d = c.duplicate();
    assert_eq!(d.label(), c.label());
}

#[test]
fn sizes_and_totals() {
    assert_eq!(file_size(Some(12)), 12);
    assert_eq!(file_size(None), 0);
    assert_eq!(total_bytes(&vec![1, 2, 3]), Some(6));
    assert_eq!(total_bytes(&vec![]), Some(0));
    assert_eq!(total_bytes(&vec![u64::MAX, 1]), None);
    assert_eq!(total_bytes(&vec![u64::MAX - 1, 1]), Some(u64::MAX));
}

fn entry(path: &str, kind: EntryKind, len: Option<u64>) -> EntryInfo {
    EntryInfo { path: path.to_owned(), kind, len }
}

#[test]
fn downloads_scan() {
    let entries = vec![
        entry("/d/a.dmg", EntryKind::File, Some(100)),
        entry("/d/b.zip", EntryKind::File, Some(20)),
        entry("/d/c.txt", EntryKind::File, Some(5)),
        entry("/d/e.pkg", EntryKind::Dir, Some(5)),
        entry("/d/f.7z", EntryKind::File, None),
    ];
    let found = scan_downloads("/d", &entries);
    let got: Vec<(&str, u64, bool, Category)> =
        found.iter().map(|c| (c.path(), c.size(), c.selected_by_default(), c.category())).collect();
    assert_eq!(
        got,
        vec![
            ("/d/a.dmg", 100, true, Category::Downloads),
            ("/d/b.zip", 20, false, Category::Downloads),
            ("/d/f.7z", 0, false, Category::Downloads)
        ]
    );
    assert_eq!(found[0].label(), " 100.0 B   a.dmg");
}

#[test]
fn caches_scan() {
    let entries = vec![
        entry("/c/one", EntryKind::Dir, Some(1)),
        entry("/c/file", EntryKind::File, Some(9)),
        entry("/c/two", EntryKind::Dir, None),
    ];
    let found = scan_caches("/c", &entries, |p| if p == "/c/one" { 4096 } else { 7 });
    let got: Vec<(&str, u64, bool)> =
        found.iter().map(|c| (c.path(), c.size(), c.selected_by_default())).collect();
    assert_eq!(got, vec![("/c/one", 4096, false), ("/c/two", 7, false)]);
    assert_eq!(found[1].category(), Category::Caches);
}

#[test]
fn downloads_progress() {
    let entries = vec![
        entry("/d/a.dmg", EntryKind::File, Some(100)),
        entry("/d/c.txt", EntryKind::File, Some(5)),
        entry("/d/e.pkg", EntryKind::Dir, Some(5)),
        entry("/d/b.zip", EntryKind::File, Some(20)),
        entry("/d/f.7z", EntryKind::File, None),
    ];
    let mut scan = FolderScan::new("/d");
    let reports: Vec<Option<usize>> = entries.iter().map(|e| scan.offer_download(e)).collect();
    assert_eq!(reports, vec![Some(1), None, None, Some(2), Some(3)]);
    assert_eq!(scan.count(), 3);
    let found = scan.into_candidates();
    assert_eq!(found[1].path(), "/d/b.zip");
    assert_eq!(found[2].size(), 0);
    assert!(found[0].selected_by_default());
}

#[test]
fn caches_progress() {
    let entries = vec![
        entry("/c/one", EntryKind::Dir, Some(1)),
        entry("/c/file", EntryKind::File, Some(9)),
        entry("/c/two", EntryKind::Dir, None),
    ];
    let mut scan = FolderScan::new("/c");
    let asked = std::cell::Cell::new(0);
    let mut reports = Vec::new();
    for e in &entries {
        reports.push(scan.offer_cache(e, || {
            asked.set(asked.get() + 1);
            512
        }));
    }
    assert_eq!(reports, vec![Some(1), None, Some(2)]);
    assert_eq!(asked.get(), 2);
    let found = scan.into_candidates();
    assert_eq!(found[1].path(), "/c/two");
    assert_eq!(found[1].size(), 512);
    assert!(!found[1].selected_by_default());
}

#[test]
fn project_walk() {
    let mut scan = HereScan::new("/p".to_owned());
    assert_eq!(scan.visit("/p".into(), "p", true, || false, || 0), DirAction::Continue);
    assert_eq!(scan.visit("/p/.git".into(), ".git", true, || false, || 0), DirAction::SkipDir);
    assert_eq!(
        scan.visit("/p/node_modules".into(), "node_modules", true, || false, || 3000),
        DirAction::Collect
    );
    assert_eq!(scan.visit("/p/dist".into(), "dist", true, || false, || 1), DirAction::SkipDir);
    assert_eq!(scan.visit("/p/app/dist".into(), "dist", true, || true, || 10), DirAction::Collect);
    assert_eq!(scan.visit("/p/README".into(), "README", false, || true, || 10), DirAction::Continue);
    assert_eq!(scan.count(), 2);
    let found = scan.into_candidates();
    assert_eq!(found[0].path(), "/p/node_modules");
    assert_eq!(found[0].size(), 3000);
    assert_eq!(found[0].label(), "   2.9 KB  node_modules");
    assert_eq!(found[1].label(), "  10.0 B   app/dist");
    assert!(found.iter().all(|c| c.selected_by_default() && c.category() == Category::Here));
}
