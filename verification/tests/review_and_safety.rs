use broom::candidate::{Candidate, Category};
use broom::review::{
    confirm_prompt, done_message, found_message, left_message, notice_text, size_order, trashed_message, Cleanup, Notice,
    Review,
};
use broom::safety::{canonical_or_original, is_protected_path, protected_locations, require_directory, safe_to_trash, Refusal};

fn item(path: &str, size: u64) -> Candidate {
    Candidate::new("/r", path.to_owned(), size, Category::Here, path.ends_with('t'))
}

#[test]
fn size_order_is_largest_first_and_stable() {
    assert_eq!(size_order(&vec![5, 9, 5, 1, 9]), vec![1, 4, 0, 2, 3]);
    assert_eq!(size_order(&vec![]), Vec::<usize>::new());
    assert_eq!(size_order(&vec![3, 3, 3]), vec![0, 1, 2]);
}

#[test]
fn review_sorts_and_totals() {
    let review = Review::new(vec![item("/r/a", 10), item("/r/b", 30), item("/r/c", 10), item("/r/dist", 20)]);
    assert_eq!(review.len(), 4);
    let paths: Vec<&str> = (0..review.len()).map(|i| review.item(i).path()).collect();
    assert_eq!(paths, vec!["/r/b", "/r/dist", "/r/a", "/r/c"]);
    assert_eq!(review.total(), Some(70));
    assert_eq!(review.defaults(), vec![false, true, false, false]);
    assert_eq!(review.labels()[0], "  30.0 B   b");
    assert!(!review.is_empty());
    assert!(Review::new(Vec::new()).is_empty());
    let huge = Review::new(vec![item("/r/x", u64::MAX), item("/r/y", 1)]);
    assert_eq!(huge.total(), None);
}

#[test]
fn cleanup_waits_for_confirmation_and_counts() {
    let review = Review::new(vec![item("/r/a", 10), item("/r/b", 30), item("/r/c", 5)]);
    let (cleanup, freed) = Cleanup::start(&review, &vec![0, 2]).unwrap();
    assert_eq!(freed, 35);
    assert_eq!(cleanup.next(), None);
    let mut cleanup = cleanup.confirm();
    let mut handled = Vec::new();
    let mut moved = true;
    while let Some(k) = cleanup.next() {
        handled.push(k);
        cleanup = cleanup.record(moved);
        moved = !moved;
    }
    assert_eq!(handled, vec![0, 1]);
    assert_eq!(cleanup.trashed(), 1);
    assert_eq!(cleanup.failed(), 1);
    assert_eq!(cleanup.cleaned(), 30);
    let huge = Review::new(vec![item("/r/x", u64::MAX), item("/r/y", 1)]);
    assert!(Cleanup::start(&huge, &vec![0, 1]).is_none());
}

#[test]
fn cleanup_of_everything_frees_the_total() {
    let review = Review::new(vec![item("/r/a", 10), item("/r/b", 30)]);
    let (cleanup, freed) = Cleanup::start(&review, &vec![0, 1]).unwrap();
    let mut cleanup = cleanup.confirm();
    while cleanup.next().is_some() {
        cleanup = cleanup.record(true);
    }
    assert_eq!(cleanup.cleaned(), freed);
    assert_eq!(cleanup.trashed(), 2);
    assert_eq!(cleanup.failed(), 0);
}

#[test]
fn protected_locations_of_home() {
    assert_eq!(
        protected_locations("/home/u"),
        vec![
            "/home/u",
            "/home/u/Desktop",
            "/home/u/Documents",
            "/home/u/Downloads",
            "/home/u/Library",
            "/home/u/Library/Caches",
            "/home/u/.ssh",
            "/home/u/.gnupg"
        ]
    );
}

#[test]
fn protected_paths() {
    let protected = protected_locations("/home/u");
    assert!(is_protected_path("/", &protected));
    assert!(is_protected_path("/work/repo/.git", &vec![]));
    assert!(is_protected_path("/x/.ssh", &vec![]));
    assert!(is_protected_path("/x/.gnupg", &vec![]));
    assert!(is_protected_path("/home/u/Downloads", &protected));
    assert!(is_protected_path("/home/u/Library/Caches/", &protected));
    assert!(!is_protected_path("/home/u/Downloads/a.dmg", &protected));
    assert!(!is_protected_path("/home/u/proj/target", &protected));
}

#[test]
fn canonical_or_original_falls_back() {
    assert_eq!(canonical_or_original("/a/../b", Some("/b".to_owned())), "/b");
    assert_eq!(canonical_or_original("/a/../b", None), "/a/../b");
}

fn refusal(r: Result<String, Refusal>) -> String {
    r.err().map(|e| e.message()).unwrap_or_default()
}

#[test]
fn trash_checks() {
    let protected = protected_locations("/home/u");
    let ok = |p: &str| Ok::<String, String>(p.to_owned());
    assert_eq!(
        safe_to_trash(true, ok("/home/u/p/target"), ok("/home/u/p"), &protected).unwrap(),
        "/home/u/p/target"
    );
    assert_eq!(refusal(safe_to_trash(false, ok("/x"), ok("/"), &protected)), "path no longer exists");
    assert_eq!(
        refusal(safe_to_trash(true, Err("denied".into()), ok("/"), &protected)),
        "could not canonicalize path: denied"
    );
    assert_eq!(
        refusal(safe_to_trash(true, ok("/x"), Err("gone".into()), &protected)),
        "could not canonicalize scan root: gone"
    );
    assert_eq!(
        refusal(safe_to_trash(true, ok("/home/u/p"), ok("/home/u/p"), &protected)),
        "path is outside scan root /home/u/p"
    );
    assert_eq!(
        refusal(safe_to_trash(true, ok("/home/u/q/target"), ok("/home/u/p"), &protected)),
        "path is outside scan root /home/u/p"
    );
    assert_eq!(
        refusal(safe_to_trash(true, ok("/home/u/Downloads"), ok("/home/u"), &protected)),
        "protected path"
    );
    assert_eq!(
        refusal(safe_to_trash(true, ok("/home/u/p/.git"), ok("/home/u/p"), &protected)),
        "protected path"
    );
    assert!(matches!(safe_to_trash(false, ok("/x"), ok("/"), &protected), Err(Refusal::Missing)));
    assert!(matches!(
        safe_to_trash(true, ok("/home/u/Library/Caches"), ok("/home/u/Library"), &protected),
        Err(Refusal::Protected)
    ));
}

#[test]
fn directory_requirements() {
    assert_eq!(require_directory("/x", false, false), Err("/x does not exist.".to_owned()));
    assert_eq!(require_directory("/x", true, false), Err("/x is not a directory.".to_owned()));
    assert_eq!(require_directory("/x", true, true), Ok(()));
}

#[test]
fn review_messages() {
    assert_eq!(notice_text(Notice::NothingToClean), "Nothing to clean.");
    assert_eq!(notice_text(Notice::NothingSelected), "Nothing selected.");
    assert_eq!(notice_text(Notice::Aborted), "Aborted.");
    assert_eq!(found_message(3, 1536), "Found 3 folder(s), 1.5 KB total.");
    assert_eq!(found_message(31, 0), "Found 31 folder(s), 0.0 B total.");
    assert_eq!(confirm_prompt(2, 1048576), "Move 2 item(s) to Trash, freeing 1.0 MB?");
    assert_eq!(trashed_message("/r/x"), "✓ trashed /r/x");
    assert_eq!(left_message("/r/x", "protected path"), "✗ /r/x: protected path");
    assert_eq!(done_message(1, 2, 0), "\nDone. Trashed 1, skipped 2. Cleaned ~0.0 B.");
}
