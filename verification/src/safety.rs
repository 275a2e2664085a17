//! The checks made before anything is moved to the Trash.
//!
//! Paths reach these checks already resolved (canonical), or with the text of
//! the error that resolving them gave.
use vstd::prelude::*;

use crate::paths::{
    file_name, file_name_of, is_same_path, join, join_path, path_starts_with, same_path,
    starts_with_path,
};
use crate::rules::{guarded_name, lemma_protected_names, listed, names, protected_name_list, protected_names};
use crate::text::push_str;

verus! {

/// The resolved form of `path` where resolving it worked, else `path` itself.
pub fn canonical_or_original(path: &str, canonical: Option<String>) -> (r: String)
    ensures
        r@ == match canonical {
            Some(c) => c@,
            None => path@,
        },
{
    match canonical {
        Some(c) => c,
        None => path.to_owned(),
    }
}

/// The locations under a home folder that are never moved: the home folder
/// itself, Desktop, Documents, Downloads, Library, Library/Caches, .ssh and .gnupg.
pub open spec fn home_locations(home: Seq<char>) -> Seq<Seq<char>> {
    seq![
        home,
        join(home, "Desktop"@),
        join(home, "Documents"@),
        join(home, "Downloads"@),
        join(home, "Library"@),
        join(join(home, "Library"@), "Caches"@),
        join(home, ".ssh"@),
        join(home, ".gnupg"@),
    ]
}

/// The views of a sequence of strings.
pub open spec fn string_views(v: Seq<String>) -> Seq<Seq<char>> {
    v.map_values(|s: String| s@)
}

/// The locations under `home` that are never moved.
pub fn protected_locations(home: &str) -> (v: Vec<String>)
    ensures
        string_views(v@) == home_locations(home@),
{
    let library = join_path(home, "Library");
    let mut v: Vec<String> = Vec::new();
    v.push(home.to_owned());
    v.push(join_path(home, "Desktop"));
    v.push(join_path(home, "Documents"));
    v.push(join_path(home, "Downloads"));
    v.push(join_path(home, "Library"));
    v.push(join_path(library.as_str(), "Caches"));
    v.push(join_path(home, ".ssh"));
    v.push(join_path(home, ".gnupg"));
    assert(string_views(v@) =~= home_locations(home@));
    v
}

/// A resolved path that is never moved: the root of the file system, a path
/// whose name is `.git`, `.ssh` or `.gnupg`, or one of the `protected`
/// locations.
pub open spec fn is_protected(path: Seq<char>, protected: Seq<Seq<char>>) -> bool {
    ||| same_path(path, "/"@)
    ||| (file_name(path) matches Some(n) && protected_names().contains(n))
    ||| exists|i: int| 0 <= i < protected.len() && same_path(path, #[trigger] protected[i])
}

/// Whether a resolved path is never to be moved, from what was found out
/// about it: whether it is the root of the file system, its file name (if
/// any), and for each protected location whether it is that location.
pub fn protection_verdict(is_fs_root: bool, name: Option<&str>, at_location: &Vec<bool>) -> (r:
    bool)
    ensures
        r == (is_fs_root || (name matches Some(n) && protected_names().contains(n@))
            || at_location@.contains(true)),
        name is Some && guarded_name(name.unwrap()@) ==> r,
        name is Some && !guarded_name(name.unwrap()@) && !is_fs_root && !at_location@.contains(true) ==> !r,
{
    proof {
        if name is Some {
            lemma_protected_names(name.unwrap()@);
        }
    }
    if is_fs_root {
        return true;
    }
    match name {
        Some(n) => {
            if listed(&protected_name_list(), n) {
                return true;
            }
        },
        None => {},
    }
    let k = at_location.len();
    for i in 0..k
        invariant
            k == at_location@.len(),
            forall|j: int| 0 <= j < i ==> !at_location@[j],
    {
        if at_location[i] {
            assert(at_location@[i as int]);
            return true;
        }
    }
    false
}

/// Whether the resolved `path` is never to be moved; `protected` are the
/// resolved locations under the home folder (none where there is no home).
pub fn is_protected_path(path: &str, protected: &Vec<String>) -> (r: bool)
    ensures
        r == is_protected(path@, string_views(protected@)),
{
    let is_fs_root = is_same_path(path, "/");
    let name = file_name_of(path);
    let mut at_location: Vec<bool> = Vec::new();
    let k = protected.len();
    for i in 0..k
        invariant
            k == protected@.len(),
            at_location@.len() == i,
            forall|j: int| 0 <= j < i ==> #[trigger] at_location@[j] == same_path(path@, protected@[j]@),
    {
        at_location.push(is_same_path(path, protected[i].as_str()));
    }
    let r = match &name {
        Some(n) => protection_verdict(is_fs_root, Some(n.as_str()), &at_location),
        None => protection_verdict(is_fs_root, None, &at_location),
    };
    proof {
        if at_location@.contains(true) {
            let j = choose|j: int| 0 <= j < at_location@.len() && at_location@[j] == true;
            assert(string_views(protected@)[j] == protected@[j]@);
        }
        if exists|i: int|
            0 <= i < string_views(protected@).len() && same_path(
                path@,
                #[trigger] string_views(protected@)[i],
            ) {
            let i = choose|i: int|
                0 <= i < string_views(protected@).len() && same_path(
                    path@,
                    #[trigger] string_views(protected@)[i],
                );
            assert(string_views(protected@)[i] == protected@[i]@);
            assert(at_location@[i]);
        }
    }
    r
}

/// Why an item was not moved to the Trash.
#[derive(Debug)]
pub enum Refusal {
    /// The item is gone.
    Missing,
    /// The item's path could not be resolved; the resolver's error.
    PathUnresolved(String),
    /// The root of the scan could not be resolved; the resolver's error.
    RootUnresolved(String),
    /// The item is the root of the scan or lies outside it; the resolved root.
    OutsideRoot(String),
    /// The item is a protected path.
    Protected,
}

impl Refusal {
    /// The text that reports the refusal.
    pub fn message(&self) -> (m: String)
        ensures
            m@ == match self {
                Refusal::Missing => "path no longer exists"@,
                Refusal::PathUnresolved(e) => "could not canonicalize path: "@ + e@,
                Refusal::RootUnresolved(e) => "could not canonicalize scan root: "@ + e@,
                Refusal::OutsideRoot(root) => "path is outside scan root "@ + root@,
                Refusal::Protected => "protected path"@,
            },
    {
        match self {
            Refusal::Missing => "path no longer exists".to_owned(),
            Refusal::PathUnresolved(e) => {
                let mut m = "could not canonicalize path: ".to_owned();
                push_str(&mut m, e.as_str());
                m
            },
            Refusal::RootUnresolved(e) => {
                let mut m = "could not canonicalize scan root: ".to_owned();
                push_str(&mut m, e.as_str());
                m
            },
            Refusal::OutsideRoot(root) => {
                let mut m = "path is outside scan root ".to_owned();
                push_str(&mut m, root.as_str());
                m
            },
            Refusal::Protected => "protected path".to_owned(),
        }
    }
}

/// Whether an item may be moved to the Trash, and the resolved path to move.
/// `exists` says whether the item is still there; `path` and `root` are the
/// item and the root of the scan, resolved or with the error that resolving
/// gave; `protected` are the resolved protected locations.  The checks are
/// made in that order: the item must exist, both must resolve, the item must
/// lie strictly inside the root, and it must not be protected.
pub fn safe_to_trash(
    exists: bool,
    path: Result<String, String>,
    root: Result<String, String>,
    protected: &Vec<String>,
) -> (r: Result<String, Refusal>)
    ensures
        !exists ==> r matches Err(Refusal::Missing),
        exists ==> match path {
            Err(e) => r matches Err(Refusal::PathUnresolved(m)) && m@ == e@,
            Ok(p) => match root {
                Err(e) => r matches Err(Refusal::RootUnresolved(m)) && m@ == e@,
                Ok(q) => if same_path(p@, q@) || !path_starts_with(p@, q@) {
                    r matches Err(Refusal::OutsideRoot(m)) && m@ == q@
                } else if is_protected(p@, string_views(protected@)) {
                    r matches Err(Refusal::Protected)
                } else {
                    r matches Ok(x) && x@ == p@
                },
            },
        },
{
    if !exists {
        return Err(Refusal::Missing);
    }
    let p = match path {
        Ok(p) => p,
        Err(e) => return Err(Refusal::PathUnresolved(e)),
    };
    let q = match root {
        Ok(q) => q,
        Err(e) => return Err(Refusal::RootUnresolved(e)),
    };
    let same_as_root = is_same_path(p.as_str(), q.as_str());
    let under_root = starts_with_path(p.as_str(), q.as_str());
    let protected = if !same_as_root && under_root {
        is_protected_path(p.as_str(), protected)
    } else {
        false
    };
    placement_verdict(p, q, same_as_root, under_root, protected)
}

/// Whether a resolved item may be moved, from what was found out about it:
/// whether it is the resolved `root` itself, whether it lies under it, and
/// whether it is protected.  The item must lie strictly inside the root and
/// must not be protected.
pub fn placement_verdict(path: String, root: String, same_as_root: bool, under_root: bool, protected: bool) -> (r: Result<String, Refusal>)
    ensures
        same_as_root || !under_root ==> (r matches Err(Refusal::OutsideRoot(m)) && m@ == root@),
        !same_as_root && under_root && protected ==> r matches Err(Refusal::Protected),
        !same_as_root && under_root && !protected ==> (r matches Ok(x) && x@ == path@),
{
    if same_as_root || !under_root {
        return Err(Refusal::OutsideRoot(root));
    }
    if protected {
        return Err(Refusal::Protected);
    }
    Ok(path)
}

/// The check that the place to clean is there and is a folder: the error
/// names it as `shown`.
pub fn require_directory(shown: &str, exists: bool, is_dir: bool) -> (r: Result<(), String>)
    ensures
        !exists ==> (r matches Err(m) && m@ == shown@ + " does not exist."@),
        exists && !is_dir ==> (r matches Err(m) && m@ == shown@ + " is not a directory."@),
        exists && is_dir ==> r is Ok,
{
    if !exists {
        let mut m = shown.to_owned();
        push_str(&mut m, " does not exist.");
        return Err(m);
    }
    if !is_dir {
        let mut m = shown.to_owned();
        push_str(&mut m, " is not a directory.");
        return Err(m);
    }
    Ok(())
}

} // verus!
