//! The places broom cleans, found from the home folder, and paths typed with
//! a leading `~`.
use vstd::prelude::*;

use crate::paths::{join, join_path};
use crate::safety::require_directory;
use crate::text::{begins_with, chars_of, push_str};

verus! {

/// The downloads folder of the home folder `home`.
pub fn downloads_dir(home: Option<&str>) -> (r: Option<String>)
    ensures
        home is None ==> r is None,
        home matches Some(h) ==> (r matches Some(d) && d@ == join(h@, "Downloads"@)),
{
    match home {
        Some(h) => Some(join_path(h, "Downloads")),
        None => None,
    }
}

/// The caches folder of the home folder `home`: Library/Caches.
pub fn caches_dir(home: Option<&str>) -> (r: Option<String>)
    ensures
        home is None ==> r is None,
        home matches Some(h) ==> (r matches Some(d) && d@ == join(join(h@, "Library"@), "Caches"@)),
{
    match home {
        Some(h) => {
            let library = join_path(h, "Library");
            Some(join_path(library.as_str(), "Caches"))
        },
        None => None,
    }
}

/// A typed path with `~` read as the home folder: `~` alone is the home
/// folder, and `~/rest` is `rest` under it; without a home folder, or for
/// any other text, the text itself.
pub open spec fn expanded(input: Seq<char>, home: Option<Seq<char>>) -> Seq<char> {
    if input == seq!['~'] {
        match home {
            Some(h) => h,
            None => input,
        }
    } else if begins_with(input, seq!['~', '/']) && home is Some {
        join(home->0, input.skip(2))
    } else {
        input
    }
}

/// The path that the text `input` names, with a leading `~` read as the home
/// folder `home`.
pub fn expand_tilde(input: &str, home: Option<&str>) -> (r: String)
    ensures
        r@ == expanded(
            input@,
            match home {
                Some(h) => Some(h@),
                None => None,
            },
        ),
{
    let v = chars_of(input);
    if v.len() == 1 && v[0] == '~' {
        assert(input@ =~= seq!['~']);
        return match home {
            Some(h) => h.to_owned(),
            None => input.to_owned(),
        };
    }
    proof {
        if input@ == seq!['~'] {
            assert(v@.len() == 1);
        }
    }
    if v.len() >= 2 && v[0] == '~' && v[1] == '/' {
        assert(input@.take(2) =~= seq!['~', '/']);
        if let Some(h) = home {
            let mut rest = String::new();
            let n = v.len();
            for i in 2..n
                invariant
                    n == v@.len(),
                    2 <= n,
                    rest@ == v@.subrange(2, i as int),
            {
                crate::text::push_char(&mut rest, v[i]);
                assert(v@.subrange(2, i + 1) =~= v@.subrange(2, i as int).push(v@[i as int]));
            }
            assert(v@.subrange(2, n as int) =~= input@.skip(2));
            return join_path(h, rest.as_str());
        }
    }
    proof {
        if begins_with(input@, seq!['~', '/']) {
            assert(input@.take(2)[0] == '~' && input@.take(2)[1] == '/');
        }
    }
    input.to_owned()
}

/// The folder a cleaning of a place starts from: `dir`, where there is one
/// (there is none without a home folder) and `present` finds it there.
pub open spec fn start_point<F: FnOnce(&str) -> bool>(
    dir: Option<Seq<char>>,
    present: F,
    r: Result<String, String>,
) -> bool {
    match dir {
        None => r matches Err(m) && m@ == "Could not find your home directory."@,
        Some(d) => exists|a: &str, found: bool|
            a@ == d && #[trigger] present.ensures((a,), found) && if found {
                r matches Ok(p) && p@ == d
            } else {
                r matches Err(m) && m@ == d + " does not exist."@
            },
    }
}

fn cleaning_root<F: FnOnce(&str) -> bool>(dir: Option<String>, present: F) -> (r: Result<
    String,
    String,
>)
    requires
        forall|a: &str| present.requires((a,)),
    ensures
        start_point(
            match dir {
                Some(d) => Some(d@),
                None => None,
            },
            present,
            r,
        ),
{
    match dir {
        None => Err("Could not find your home directory.".to_owned()),
        Some(d) => {
            let found = present(d.as_str());
            if found {
                Ok(d)
            } else {
                let mut m = d.clone();
                push_str(&mut m, " does not exist.");
                Err(m)
            }
        },
    }
}

/// Where a cleaning of the downloads folder starts: the downloads folder of
/// `home`, which `present` must find; the error says what is missing.
pub fn clean_downloads<F: FnOnce(&str) -> bool>(home: Option<&str>, present: F) -> (r: Result<
    String,
    String,
>)
    requires
        forall|a: &str| present.requires((a,)),
    ensures
        start_point(
            match home {
                Some(h) => Some(join(h@, "Downloads"@)),
                None => None,
            },
            present,
            r,
        ),
{
    let dir = downloads_dir(home);
    cleaning_root(dir, present)
}

/// Where a cleaning of the caches folder starts: the caches folder of
/// `home`, which `present` must find; the error says what is missing.
pub fn clean_caches<F: FnOnce(&str) -> bool>(home: Option<&str>, present: F) -> (r: Result<
    String,
    String,
>)
    requires
        forall|a: &str| present.requires((a,)),
    ensures
        start_point(
            match home {
                Some(h) => Some(join(join(h@, "Library"@), "Caches"@)),
                None => None,
            },
            present,
            r,
        ),
{
    let dir = caches_dir(home);
    cleaning_root(dir, present)
}

/// The check before a folder is cleaned: `present` must find `root`, then
/// `is_dir` must find a folder there; the error names the folder.  `is_dir`
/// is asked only where `root` is there.
pub fn clean_here<E: FnOnce(&str) -> bool, D: FnOnce(&str) -> bool>(
    root: &str,
    present: E,
    is_dir: D,
) -> (r: Result<(), String>)
    requires
        forall|a: &str| present.requires((a,)),
        forall|a: &str| is_dir.requires((a,)),
    ensures
        exists|a: &str, found: bool|
            a@ == root@ && #[trigger] present.ensures((a,), found) && if !found {
                r matches Err(m) && m@ == root@ + " does not exist."@
            } else {
                exists|b: &str, folder: bool|
                    b@ == root@ && #[trigger] is_dir.ensures((b,), folder) && if folder {
                        r is Ok
                    } else {
                        r matches Err(m) && m@ == root@ + " is not a directory."@
                    }
            },
{
    let found = present(root);
    if !found {
        return require_directory(root, false, false);
    }
    let folder = is_dir(root);
    let r = require_directory(root, true, folder);
    assert(is_dir.ensures((root,), folder));
    r
}

} // verus!
