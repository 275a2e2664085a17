//! What broom looks for: the folder names it measures, the names it never
//! walks into, the project files that vouch for a generic name, and the
//! installer and archive files of a downloads folder.
use vstd::prelude::*;

use crate::paths::{file_name, file_name_of, join, join_path, parent, parent_path};
use crate::text::{
    ascii_lowercase, chars_end_with, ends_with, lemma_ascii_lowercase_ignores_case, lowercase_chars, same_letter_ignoring_case,
    same_text,
};

verus! {

/// The views of a list of string slices.
pub open spec fn names(list: Seq<&str>) -> Seq<Seq<char>> {
    list.map_values(|s: &str| s@)
}

/// Folder names that hold build output, dependencies or caches.
pub open spec fn target_dirs() -> Seq<Seq<char>> {
    seq![
        "target"@,
        "node_modules"@,
        "dist"@,
        "build"@,
        "out"@,
        ".next"@,
        ".nuxt"@,
        ".svelte-kit"@,
        ".turbo"@,
        ".vite"@,
        ".parcel-cache"@,
        ".gradle"@,
        "__pycache__"@,
        ".venv"@,
        "venv"@,
        "DerivedData"@,
    ]
}

/// Generic names, measured only beside a project file.
pub open spec fn guarded_dirs() -> Seq<Seq<char>> {
    seq!["dist"@, "build"@, "out"@]
}

/// Files whose presence marks a project.
pub open spec fn project_markers() -> Seq<Seq<char>> {
    seq![
        "package.json"@,
        "Cargo.toml"@,
        "pyproject.toml"@,
        "go.mod"@,
        "pom.xml"@,
        "build.gradle"@,
        "build.gradle.kts"@,
        "Makefile"@,
    ]
}

/// Folder names never walked into.
pub open spec fn skipped_dirs() -> Seq<Seq<char>> {
    seq![".git"@, ".svn"@, ".hg"@, ".idea"@, ".vscode"@]
}

/// Endings of installer files, offered ticked.
pub open spec fn installer_endings() -> Seq<Seq<char>> {
    seq![".dmg"@, ".pkg"@, ".mpkg"@]
}

/// Endings of archive files, offered unticked.
pub open spec fn archive_endings() -> Seq<Seq<char>> {
    seq![".zip"@, ".tar.gz"@, ".tgz"@, ".rar"@, ".7z"@]
}

/// Names that are never moved to the Trash, wherever they are.
pub open spec fn protected_names() -> Seq<Seq<char>> {
    seq![".git"@, ".ssh"@, ".gnupg"@]
}

/// The names never moved to the Trash, wherever they are: `.git`, `.ssh`
/// and `.gnupg`.
pub open spec fn guarded_name(n: Seq<char>) -> bool {
    n == ".git"@ || n == ".ssh"@ || n == ".gnupg"@
}

/// The names never moved are exactly the ones named.
pub proof fn lemma_protected_names(n: Seq<char>)
    ensures
        protected_names().contains(n) <==> guarded_name(n),
{
    let p = protected_names();
    if n == ".git"@ {
        assert(p[0] == n);
    } else if n == ".ssh"@ {
        assert(p[1] == n);
    } else if n == ".gnupg"@ {
        assert(p[2] == n);
    }
}

pub fn target_dir_list() -> (v: Vec<&'static str>)
    ensures
        names(v@) == target_dirs(),
{
    let v = vec![
        "target",
        "node_modules",
        "dist",
        "build",
        "out",
        ".next",
        ".nuxt",
        ".svelte-kit",
        ".turbo",
        ".vite",
        ".parcel-cache",
        ".gradle",
        "__pycache__",
        ".venv",
        "venv",
        "DerivedData",
    ];
    assert(names(v@) =~= target_dirs());
    v
}

pub fn guarded_dir_list() -> (v: Vec<&'static str>)
    ensures
        names(v@) == guarded_dirs(),
{
    let v = vec!["dist", "build", "out"];
    assert(names(v@) =~= guarded_dirs());
    v
}

pub fn project_marker_list() -> (v: Vec<&'static str>)
    ensures
        names(v@) == project_markers(),
{
    let v = vec![
        "package.json",
        "Cargo.toml",
        "pyproject.toml",
        "go.mod",
        "pom.xml",
        "build.gradle",
        "build.gradle.kts",
        "Makefile",
    ];
    assert(names(v@) =~= project_markers());
    v
}

pub fn skipped_dir_list() -> (v: Vec<&'static str>)
    ensures
        names(v@) == skipped_dirs(),
{
    let v = vec![".git", ".svn", ".hg", ".idea", ".vscode"];
    assert(names(v@) =~= skipped_dirs());
    v
}

fn installer_ending_list() -> (v: Vec<&'static str>)
    ensures
        names(v@) == installer_endings(),
{
    let v = vec![".dmg", ".pkg", ".mpkg"];
    assert(names(v@) =~= installer_endings());
    v
}

fn archive_ending_list() -> (v: Vec<&'static str>)
    ensures
        names(v@) == archive_endings(),
{
    let v = vec![".zip", ".tar.gz", ".tgz", ".rar", ".7z"];
    assert(names(v@) =~= archive_endings());
    v
}

pub fn protected_name_list() -> (v: Vec<&'static str>)
    ensures
        names(v@) == protected_names(),
{
    let v = vec![".git", ".ssh", ".gnupg"];
    assert(names(v@) =~= protected_names());
    v
}

/// Whether `name` is one of `list`.
pub fn listed(list: &Vec<&str>, name: &str) -> (r: bool)
    ensures
        r == names(list@).contains(name@),
{
    let n = list.len();
    for i in 0..n
        invariant
            n == list@.len(),
            forall|j: int| 0 <= j < i ==> list@[j]@ != name@,
    {
        if same_text(list[i], name) {
            assert(names(list@)[i as int] == name@);
            return true;
        }
    }
    proof {
        if names(list@).contains(name@) {
            let j = choose|j: int| 0 <= j < names(list@).len() && names(list@)[j] == name@;
            assert(list@[j]@ == name@);
        }
    }
    false
}

/// Some entry of `endings` ends `s`.
pub open spec fn ends_with_any(s: Seq<char>, endings: Seq<Seq<char>>) -> bool {
    exists|i: int| 0 <= i < endings.len() && ends_with(s, #[trigger] endings[i])
}

fn ends_with_listed(s: &Vec<char>, list: &Vec<&str>) -> (r: bool)
    ensures
        r == ends_with_any(s@, names(list@)),
{
    let n = list.len();
    for i in 0..n
        invariant
            n == list@.len(),
            forall|j: int| 0 <= j < i ==> !ends_with(s@, #[trigger] names(list@)[j]),
    {
        if chars_end_with(s, list[i]) {
            assert(ends_with(s@, names(list@)[i as int]));
            return true;
        }
    }
    false
}

/// How a downloaded file with the name `name` is offered: `Some(true)` for
/// an installer (ticked), `Some(false)` for an archive (unticked), `None`
/// where it is not offered or has no name.  The ending is matched on the
/// ASCII lower-case name.
pub open spec fn name_choice(name: Option<Seq<char>>) -> Option<bool> {
    match name {
        None => None,
        Some(n) => {
            let l = ascii_lowercase(n);
            if ends_with_any(l, installer_endings()) {
                Some(true)
            } else if ends_with_any(l, archive_endings()) {
                Some(false)
            } else {
                None
            }
        },
    }
}

/// The ending of a downloaded file's name is matched without regard to
/// ASCII case: two names equal but for the case of their letters `A` to `Z`
/// are offered alike (`BACKUP.RAR` as `backup.rar`).
pub proof fn lemma_name_choice_ignores_case(n: Seq<char>, m: Seq<char>)
    requires
        n.len() == m.len(),
        forall|i: int| 0 <= i < n.len() ==> same_letter_ignoring_case(#[trigger] n[i], m[i]),
    ensures
        name_choice(Some(n)) == name_choice(Some(m)),
{
    lemma_ascii_lowercase_ignores_case(n, m);
}

/// Installers (`.dmg`, `.pkg`, `.mpkg`) are offered ticked; archives
/// (`.zip`, `.tar.gz`, `.tgz`, `.rar`, `.7z`) are offered unticked; a file
/// with any other ending is not offered.  Endings are read on the ASCII
/// lower-case name.
pub proof fn lemma_download_endings(n: Seq<char>)
    ensures
        ({
            let l = ascii_lowercase(n);
            let installer = ends_with(l, ".dmg"@) || ends_with(l, ".pkg"@) || ends_with(l, ".mpkg"@);
            let archive = ends_with(l, ".zip"@) || ends_with(l, ".tar.gz"@) || ends_with(l, ".tgz"@)
                || ends_with(l, ".rar"@) || ends_with(l, ".7z"@);
            &&& installer ==> name_choice(Some(n)) == Some(true)
            &&& !installer && archive ==> name_choice(Some(n)) == Some(false)
            &&& !installer && !archive ==> name_choice(Some(n)) is None
        }),
{
    let l = ascii_lowercase(n);
    let ie = installer_endings();
    let ae = archive_endings();
    if ends_with(l, ".dmg"@) {
        assert(ends_with(l, ie[0]));
    }
    if ends_with(l, ".pkg"@) {
        assert(ends_with(l, ie[1]));
    }
    if ends_with(l, ".mpkg"@) {
        assert(ends_with(l, ie[2]));
    }
    if ends_with(l, ".zip"@) {
        assert(ends_with(l, ae[0]));
    }
    if ends_with(l, ".tar.gz"@) {
        assert(ends_with(l, ae[1]));
    }
    if ends_with(l, ".tgz"@) {
        assert(ends_with(l, ae[2]));
    }
    if ends_with(l, ".rar"@) {
        assert(ends_with(l, ae[3]));
    }
    if ends_with(l, ".7z"@) {
        assert(ends_with(l, ae[4]));
    }
}

/// How the downloaded file at `path` is offered, by its file name.
pub open spec fn download_choice(path: Seq<char>) -> Option<bool> {
    name_choice(file_name(path))
}

/// How a downloaded file with the name `name` (its file name, if it has one)
/// is offered.
pub fn download_choice_for_name(name: Option<&str>) -> (r: Option<bool>)
    ensures
        r == name_choice(
            match name {
                Some(n) => Some(n@),
                None => None,
            },
        ),
{
    let n = match name {
        Some(n) => n,
        None => return None,
    };
    let lower = lowercase_chars(&crate::text::chars_of(n));
    if ends_with_listed(&lower, &installer_ending_list()) {
        return Some(true);
    }
    if ends_with_listed(&lower, &archive_ending_list()) {
        return Some(false);
    }
    None
}

/// Whether a file of the downloads folder is offered, and ticked.
pub fn is_download_candidate(path: &str) -> (r: Option<bool>)
    ensures
        r == download_choice(path@),
{
    match file_name_of(path) {
        Some(n) => download_choice_for_name(Some(n.as_str())),
        None => download_choice_for_name(None),
    }
}

/// What the walk does with an entry.
#[derive(Clone, Copy, Debug, PartialEq, Eq, Structural)]
pub enum DirAction {
    /// Go on: look inside a folder, or pass over anything else.
    Continue,
    /// Do not walk into this folder.
    SkipDir,
    /// Measure this folder, offer it, and do not walk into it.
    Collect,
}

/// The check `present` answered `found` when it was asked about `path`.
pub open spec fn reported<F: Fn(&str) -> bool>(present: F, path: Seq<char>, found: bool) -> bool {
    exists|a: &str| a@ == path && #[trigger] present.ensures((a,), found)
}

/// What a search for a project file in the folder `place` came to: `r` says
/// whether one was found; the markers are asked about in order until one is
/// there, and there is nothing to find where there is no such folder.
pub open spec fn marker_search<F: Fn(&str) -> bool>(place: Option<Seq<char>>, present: F, r: bool) -> bool {
    &&& place is None ==> !r
    &&& place matches Some(p) ==> (r ==> exists|i: int|
        0 <= i < project_markers().len() && reported(present, join(p, project_markers()[i]), true)
            && forall|j: int|
            0 <= j < i ==> reported(present, join(p, #[trigger] project_markers()[j]), false))
    &&& place matches Some(p) ==> (!r ==> forall|i: int|
        0 <= i < project_markers().len() ==> reported(
            present,
            join(p, #[trigger] project_markers()[i]),
            false,
        ))
}

/// The project files that vouch for a generic folder name: `package.json`,
/// `Cargo.toml`, `pyproject.toml`, `go.mod`, `pom.xml`, `build.gradle`,
/// `build.gradle.kts` and `Makefile`.
pub open spec fn project_file_name(n: Seq<char>) -> bool {
    ||| n == "package.json"@
    ||| n == "Cargo.toml"@
    ||| n == "pyproject.toml"@
    ||| n == "go.mod"@
    ||| n == "pom.xml"@
    ||| n == "build.gradle"@
    ||| n == "build.gradle.kts"@
    ||| n == "Makefile"@
}

/// The project files searched for are exactly the ones named.
pub proof fn lemma_project_files(n: Seq<char>)
    ensures
        project_markers().contains(n) <==> project_file_name(n),
{
    let m = project_markers();
    if project_file_name(n) {
        if n == "package.json"@ {
            assert(m[0] == n);
        } else if n == "Cargo.toml"@ {
            assert(m[1] == n);
        } else if n == "pyproject.toml"@ {
            assert(m[2] == n);
        } else if n == "go.mod"@ {
            assert(m[3] == n);
        } else if n == "pom.xml"@ {
            assert(m[4] == n);
        } else if n == "build.gradle"@ {
            assert(m[5] == n);
        } else if n == "build.gradle.kts"@ {
            assert(m[6] == n);
        } else {
            assert(m[7] == n);
        }
    }
}

/// Whether a project file is in the folder `place` (none where there is no
/// such folder); `present` says whether a path exists.
pub fn has_marker_in<F: Fn(&str) -> bool>(place: Option<&str>, present: F) -> (r: bool)
    requires
        forall|a: &str| present.requires((a,)),
    ensures
        marker_search(
            match place {
                Some(p) => Some(p@),
                None => None,
            },
            present,
            r,
        ),
        place is Some && !r ==> forall|m: Seq<char>|
            #[trigger] project_file_name(m) ==> reported(present, join(place.unwrap()@, m), false),
        place is Some && r ==> exists|m: Seq<char>|
            #[trigger] project_file_name(m) && reported(present, join(place.unwrap()@, m), true),
{
    proof {
        assert forall|m: Seq<char>| #[trigger] project_file_name(m) implies project_markers().contains(m) by {
            lemma_project_files(m);
        }
        assert forall|i: int| 0 <= i < project_markers().len() implies #[trigger] project_file_name(
            project_markers()[i],
        ) by {
            lemma_project_files(project_markers()[i]);
        }
    }
    let p = match place {
        Some(p) => p,
        None => return false,
    };
    let markers = project_marker_list();
    let n = markers.len();
    for i in 0..n
        invariant
            n == markers@.len(),
            names(markers@) == project_markers(),
            place == Some(p),
            forall|a: &str| present.requires((a,)),
            forall|j: int|
                0 <= j < i ==> reported(present, join(p@, #[trigger] project_markers()[j]), false),
    {
        let candidate = join_path(p, markers[i]);
        let found = present(candidate.as_str());
        assert(names(markers@)[i as int] == markers@[i as int]@);
        assert(reported(present, join(p@, project_markers()[i as int]), found));
        if found {
            assert(0 <= i < project_markers().len() && reported(
                present,
                join(p@, project_markers()[i as int]),
                true,
            ) && forall|j: int|
                0 <= j < i ==> reported(present, join(p@, #[trigger] project_markers()[j]), false));
            assert(project_file_name(project_markers()[i as int]));
            return true;
        }
    }
    false
}

/// Whether a project file sits beside the folder `dir`, that is in its
/// parent; `present` says whether a path exists.
pub fn has_marker<F: Fn(&str) -> bool>(dir: &str, present: F) -> (r: bool)
    requires
        forall|a: &str| present.requires((a,)),
    ensures
        marker_search(parent(dir@), present, r),
{
    match parent_path(dir) {
        Some(p) => has_marker_in(Some(p.as_str()), present),
        None => has_marker_in(None, present),
    }
}

/// A folder whose name is a generic target name: it is collected only where
/// a project file sits beside it.
pub open spec fn needs_marker(name: Seq<char>, is_dir: bool) -> bool {
    is_dir && !skipped_dirs().contains(name) && target_dirs().contains(name)
        && guarded_dirs().contains(name)
}

/// What the walk of a project tree does with an entry called `name`, given
/// whether a project file sits beside it: only folders matter; a skipped
/// name is not walked into; a target name is collected, a generic one only
/// beside a project file (and is not walked into otherwise); every other
/// folder is walked into.
pub open spec fn dir_decision(name: Seq<char>, is_dir: bool, marker: bool) -> DirAction {
    if !is_dir {
        DirAction::Continue
    } else if skipped_dirs().contains(name) {
        DirAction::SkipDir
    } else if !target_dirs().contains(name) {
        DirAction::Continue
    } else if guarded_dirs().contains(name) && !marker {
        DirAction::SkipDir
    } else {
        DirAction::Collect
    }
}

/// The folder names that are found wherever they are: `target`,
/// `node_modules`, `.next`, `.nuxt`, `.svelte-kit`, `.turbo`, `.vite`,
/// `.parcel-cache`, `.gradle`, `__pycache__`, `.venv`, `venv` and
/// `DerivedData`.
pub open spec fn always_found_name(n: Seq<char>) -> bool {
    ||| n == "target"@
    ||| n == "node_modules"@
    ||| n == ".next"@
    ||| n == ".nuxt"@
    ||| n == ".svelte-kit"@
    ||| n == ".turbo"@
    ||| n == ".vite"@
    ||| n == ".parcel-cache"@
    ||| n == ".gradle"@
    ||| n == "__pycache__"@
    ||| n == ".venv"@
    ||| n == "venv"@
    ||| n == "DerivedData"@
}

/// The generic folder names, found only beside a project file: `dist`,
/// `build` and `out`.
pub open spec fn generic_name(n: Seq<char>) -> bool {
    n == "dist"@ || n == "build"@ || n == "out"@
}

/// The folder names of version control and editors, never walked into:
/// `.git`, `.svn`, `.hg`, `.idea` and `.vscode`.
pub open spec fn never_walked_name(n: Seq<char>) -> bool {
    ||| n == ".git"@
    ||| n == ".svn"@
    ||| n == ".hg"@
    ||| n == ".idea"@
    ||| n == ".vscode"@
}

/// A folder with one of the names found wherever they are is collected,
/// whatever is beside it; a folder with a generic name is collected exactly
/// when a project file is beside it, and is not walked into either way; a
/// folder of version control or an editor is never walked into.
pub proof fn lemma_named_folders(name: Seq<char>, marker: bool)
    ensures
        always_found_name(name) ==> !needs_marker(name, true) && dir_decision(name, true, marker)
            == DirAction::Collect,
        generic_name(name) ==> needs_marker(name, true) && dir_decision(name, true, marker) == (
        if marker {
            DirAction::Collect
        } else {
            DirAction::SkipDir
        }),
        never_walked_name(name) ==> !needs_marker(name, true) && dir_decision(name, true, marker)
            == DirAction::SkipDir,
{
    reveal_strlit("target");
    reveal_strlit("node_modules");
    reveal_strlit("dist");
    reveal_strlit("build");
    reveal_strlit("out");
    reveal_strlit(".next");
    reveal_strlit(".nuxt");
    reveal_strlit(".svelte-kit");
    reveal_strlit(".turbo");
    reveal_strlit(".vite");
    reveal_strlit(".parcel-cache");
    reveal_strlit(".gradle");
    reveal_strlit("__pycache__");
    reveal_strlit(".venv");
    reveal_strlit("venv");
    reveal_strlit("DerivedData");
    reveal_strlit(".git");
    reveal_strlit(".svn");
    reveal_strlit(".hg");
    reveal_strlit(".idea");
    reveal_strlit(".vscode");
    let t = target_dirs();
    let g = guarded_dirs();
    let k = skipped_dirs();
    if always_found_name(name) || generic_name(name) {
        assert forall|i: int| 0 <= i < k.len() implies k[i] != name by {
            assert(k[i].len() != name.len() || k[i][1] != name[1] || k[i][2] != name[2]);
        }
        assert(!k.contains(name));
        if name == "target"@ {
            assert(t[0] == name);
        } else if name == "node_modules"@ {
            assert(t[1] == name);
        } else if name == "dist"@ {
            assert(t[2] == name);
            assert(g[0] == name);
        } else if name == "build"@ {
            assert(t[3] == name);
            assert(g[1] == name);
        } else if name == "out"@ {
            assert(t[4] == name);
            assert(g[2] == name);
        } else if name == ".next"@ {
            assert(t[5] == name);
        } else if name == ".nuxt"@ {
            assert(t[6] == name);
        } else if name == ".svelte-kit"@ {
            assert(t[7] == name);
        } else if name == ".turbo"@ {
            assert(t[8] == name);
        } else if name == ".vite"@ {
            assert(t[9] == name);
        } else if name == ".parcel-cache"@ {
            assert(t[10] == name);
        } else if name == ".gradle"@ {
            assert(t[11] == name);
        } else if name == "__pycache__"@ {
            assert(t[12] == name);
        } else if name == ".venv"@ {
            assert(t[13] == name);
        } else if name == "venv"@ {
            assert(t[14] == name);
        } else {
            assert(t[15] == name);
        }
        assert(t.contains(name));
        if always_found_name(name) {
            assert forall|i: int| 0 <= i < g.len() implies g[i] != name by {
                assert(g[i].len() != name.len() || g[i][0] != name[0]);
            }
            assert(!g.contains(name));
        }
    }
    if never_walked_name(name) {
        if name == ".git"@ {
            assert(k[0] == name);
        } else if name == ".svn"@ {
            assert(k[1] == name);
        } else if name == ".hg"@ {
            assert(k[2] == name);
        } else if name == ".idea"@ {
            assert(k[3] == name);
        } else {
            assert(k[4] == name);
        }
        assert(k.contains(name));
    }
}

/// What the walk of a project tree does with an entry called `name`;
/// `marker_present` is asked only for a generic target name.
pub fn dir_action<F: FnOnce() -> bool>(name: &str, is_dir: bool, marker_present: F) -> (a:
    DirAction)
    requires
        marker_present.requires(()),
    ensures
        needs_marker(name@, is_dir) ==> exists|found: bool|
            marker_present.ensures((), found) && a == dir_decision(name@, is_dir, found),
        !needs_marker(name@, is_dir) ==> a == dir_decision(name@, is_dir, false),
        is_dir && always_found_name(name@) ==> a == DirAction::Collect,
        is_dir && never_walked_name(name@) ==> a == DirAction::SkipDir,
        is_dir && generic_name(name@) ==> exists|found: bool|
            marker_present.ensures((), found) && a == (if found {
                DirAction::Collect
            } else {
                DirAction::SkipDir
            }),
{
    proof {
        lemma_named_folders(name@, false);
        lemma_named_folders(name@, true);
    }
    if !is_dir {
        return DirAction::Continue;
    }
    if listed(&skipped_dir_list(), name) {
        return DirAction::SkipDir;
    }
    if !listed(&target_dir_list(), name) {
        return DirAction::Continue;
    }
    if listed(&guarded_dir_list(), name) {
        let found = marker_present();
        let a = if found {
            DirAction::Collect
        } else {
            DirAction::SkipDir
        };
        assert(marker_present.ensures((), found) && a == dir_decision(name@, is_dir, found));
        a
    } else {
        DirAction::Collect
    }
}

/// Only folders named like build output are collected: never a skipped name,
/// and a generic name only beside a project file.  Skipped folders are never
/// walked into.
pub proof fn lemma_collected_only_targets(name: Seq<char>, is_dir: bool, marker: bool)
    ensures
        dir_decision(name, is_dir, marker) == DirAction::Collect ==> is_dir && target_dirs().contains(
            name,
        ) && !skipped_dirs().contains(name) && (guarded_dirs().contains(name) ==> marker),
        is_dir && skipped_dirs().contains(name) ==> dir_decision(name, is_dir, marker)
            == DirAction::SkipDir,
{
}

/// Every generic name is a target name, so the project-file check is what
/// decides for them.
pub proof fn lemma_generic_names_are_targets()
    ensures
        forall|n: Seq<char>| #[trigger] guarded_dirs().contains(n) ==> target_dirs().contains(n),
{
    assert forall|n: Seq<char>| #[trigger] guarded_dirs().contains(n) implies target_dirs().contains(
        n,
    ) by {
        let i = choose|i: int| 0 <= i < guarded_dirs().len() && guarded_dirs()[i] == n;
        assert(target_dirs()[i + 2] == guarded_dirs()[i]);
    }
}

} // verus!
