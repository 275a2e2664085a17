//! Finding what to offer: in a project tree, in the downloads folder and in
//! the caches folder.
use vstd::prelude::*;

use crate::candidate::{candidate_view, Candidate, CandidateView, Category};
use crate::rules::{dir_action, dir_decision, download_choice, is_download_candidate, needs_marker, DirAction};

verus! {

/// What an entry of a folder is, following links.
#[derive(Clone, Copy, Debug, PartialEq, Eq, Structural)]
pub enum EntryKind {
    File,
    Dir,
    Other,
}

/// An entry of a folder, as its metadata described it.
pub struct EntryInfo {
    pub path: String,
    pub kind: EntryKind,
    /// The length that the metadata gave, where there was metadata.
    pub len: Option<u64>,
}

pub struct EntryView {
    pub path: Seq<char>,
    pub kind: EntryKind,
    pub len: Option<u64>,
}

impl View for EntryInfo {
    type V = EntryView;

    open spec fn view(&self) -> EntryView {
        EntryView { path: self.path@, kind: self.kind, len: self.len }
    }
}

/// The views of a sequence of entries.
pub open spec fn entry_views(v: Seq<EntryInfo>) -> Seq<EntryView> {
    v.map_values(|e: EntryInfo| e@)
}

/// The views of a sequence of candidates.
pub open spec fn candidate_views(v: Seq<Candidate>) -> Seq<CandidateView> {
    v.map_values(|c: Candidate| c@)
}

/// What the downloads folder `root` has found after `found`, once it has
/// looked at the entry `e`: a file whose name is an installer or an archive
/// is added, with the size its metadata gave (0 where none).
pub open spec fn download_step(root: Seq<char>, found: Seq<CandidateView>, e: EntryView) -> Seq<
    CandidateView,
> {
    if e.kind == EntryKind::File && download_choice(e.path) is Some {
        found.push(
            candidate_view(
                root,
                e.path,
                match e.len {
                    Some(n) => n,
                    None => 0,
                },
                Category::Downloads,
                download_choice(e.path)->0,
            ),
        )
    } else {
        found
    }
}

/// The candidates of a downloads folder `root` with the entries `es`: every
/// file whose name is an installer or an archive, in order, with the size
/// its metadata gave (0 where none).
pub open spec fn downloads_found(root: Seq<char>, es: Seq<EntryView>) -> Seq<CandidateView>
    decreases es.len(),
{
    if es.len() == 0 {
        Seq::empty()
    } else {
        download_step(root, downloads_found(root, es.drop_last()), es.last())
    }
}

/// The paths of the folders among the entries `es`, in order.
pub open spec fn dir_paths(es: Seq<EntryView>) -> Seq<Seq<char>>
    decreases es.len(),
{
    if es.len() == 0 {
        Seq::empty()
    } else {
        let pre = dir_paths(es.drop_last());
        if es.last().kind == EntryKind::Dir {
            pre.push(es.last().path)
        } else {
            pre
        }
    }
}

/// The measure `measure` answered `size` when it was asked about `path`.
pub open spec fn measured<F: Fn(&str) -> u64>(measure: F, path: Seq<char>, size: u64) -> bool {
    exists|a: &str| a@ == path && #[trigger] measure.ensures((a,), size)
}

pub proof fn lemma_candidate_views_push(v: Seq<Candidate>, c: Candidate)
    ensures
        candidate_views(v.push(c)) == candidate_views(v).push(c@),
{
    assert(candidate_views(v.push(c)) =~= candidate_views(v).push(c@));
}

/// A look through the entries of one folder (the downloads folder or the
/// caches folder) `root`, with what it has found so far.
pub struct FolderScan {
    root: String,
    found: Vec<Candidate>,
}

pub struct FolderScanView {
    pub root: Seq<char>,
    pub found: Seq<CandidateView>,
}

impl View for FolderScan {
    type V = FolderScanView;

    closed spec fn view(&self) -> FolderScanView {
        FolderScanView { root: self.root@, found: candidate_views(self.found@) }
    }
}

impl FolderScan {
    /// A look through the folder `root` that has found nothing.
    pub fn new(root: &str) -> (s: FolderScan)
        ensures
            s@.root == root@,
            s@.found == Seq::<CandidateView>::empty(),
    {
        let s = FolderScan { root: root.to_owned(), found: Vec::new() };
        assert(s@.found =~= Seq::<CandidateView>::empty());
        s
    }

    /// Takes the next entry of the downloads folder: a file whose name is an
    /// installer or an archive is offered, with the size its metadata gave
    /// (0 where none).  The answer is how many have been found, right after
    /// a find, and `None` for an entry that is not one.
    pub fn offer_download(&mut self, entry: &EntryInfo) -> (r: Option<usize>)
        ensures
            final(self)@.root == old(self)@.root,
            final(self)@.found == download_step(old(self)@.root, old(self)@.found, entry@),
            r == (if final(self)@.found.len() > old(self)@.found.len() {
                Some(final(self)@.found.len() as usize)
            } else {
                None
            }),
    {
        let is_file = match entry.kind {
            EntryKind::File => true,
            _ => false,
        };
        if is_file {
            match is_download_candidate(entry.path.as_str()) {
                Some(selected) => {
                    let size = match entry.len {
                        Some(n) => n,
                        None => 0,
                    };
                    let c = Candidate::new(
                        self.root.as_str(),
                        entry.path.clone(),
                        size,
                        Category::Downloads,
                        selected,
                    );
                    proof {
                        lemma_candidate_views_push(self.found@, c);
                    }
                    self.found.push(c);
                    return Some(self.found.len());
                },
                None => {},
            }
        }
        None
    }

    /// Takes the next entry of the caches folder: a folder is measured by
    /// `measure` and offered, not ticked.  The answer is how many have been
    /// found, right after a find, and `None` for an entry that is not a
    /// folder.  `measure` is asked only for a folder.
    pub fn offer_cache<F: FnOnce() -> u64>(&mut self, entry: &EntryInfo, measure: F) -> (r: Option<
        usize,
    >)
        requires
            measure.requires(()),
        ensures
            final(self)@.root == old(self)@.root,
            entry@.kind == EntryKind::Dir ==> exists|size: u64|
                #[trigger] measure.ensures((), size) && final(self)@.found == old(self)@.found.push(
                    candidate_view(old(self)@.root, entry@.path, size, Category::Caches, false),
                ),
            entry@.kind != EntryKind::Dir ==> final(self)@.found == old(self)@.found,
            r == (if entry@.kind == EntryKind::Dir {
                Some(final(self)@.found.len() as usize)
            } else {
                None
            }),
    {
        let is_dir = match entry.kind {
            EntryKind::Dir => true,
            _ => false,
        };
        if is_dir {
            let size = measure();
            let c = Candidate::new(self.root.as_str(), entry.path.clone(), size, Category::Caches, false);
            proof {
                lemma_candidate_views_push(self.found@, c);
            }
            self.found.push(c);
            assert(measure.ensures((), size) && self@.found == old(self)@.found.push(
                candidate_view(old(self)@.root, entry@.path, size, Category::Caches, false),
            ));
            Some(self.found.len())
        } else {
            None
        }
    }

    /// How many have been found.
    pub fn count(&self) -> (n: usize)
        ensures
            n == self@.found.len(),
    {
        self.found.len()
    }

    /// What was found, in the order the entries came.
    pub fn into_candidates(self) -> (v: Vec<Candidate>)
        ensures
            candidate_views(v@) == self@.found,
    {
        self.found
    }
}

/// The installers and archives among the entries of the downloads folder
/// `root`, in the order the entries came.
pub fn scan_downloads(root: &str, entries: &Vec<EntryInfo>) -> (found: Vec<Candidate>)
    ensures
        candidate_views(found@) == downloads_found(root@, entry_views(entries@)),
{
    let mut scan = FolderScan::new(root);
    let n = entries.len();
    let ghost es = entry_views(entries@);
    assert(es.take(0) =~= Seq::<EntryView>::empty());
    for i in 0..n
        invariant
            n == entries@.len(),
            es == entry_views(entries@),
            scan@.root == root@,
            scan@.found == downloads_found(root@, es.take(i as int)),
    {
        let e = &entries[i];
        assert(es.take(i + 1).drop_last() =~= es.take(i as int));
        assert(es.take(i + 1).last() == e@);
        let _ = scan.offer_download(e);
    }
    assert(es.take(n as int) =~= es);
    scan.into_candidates()
}

/// The folders among the entries of the caches folder `root`, each with the
/// size that `measure` gives it, in the order the entries came.
pub fn scan_caches<F: Fn(&str) -> u64>(root: &str, entries: &Vec<EntryInfo>, measure: F) -> (found:
    Vec<Candidate>)
    requires
        forall|a: &str| measure.requires((a,)),
    ensures
        found@.len() == dir_paths(entry_views(entries@)).len(),
        forall|k: int|
            0 <= k < found@.len() ==> {
                let p = dir_paths(entry_views(entries@))[k];
                &&& #[trigger] found@[k]@ == candidate_view(
                    root@,
                    p,
                    found@[k]@.size,
                    Category::Caches,
                    false,
                )
                &&& measured(measure, p, found@[k]@.size)
            },
{
    let mut scan = FolderScan::new(root);
    let n = entries.len();
    let ghost es = entry_views(entries@);
    assert(es.take(0) =~= Seq::<EntryView>::empty());
    for i in 0..n
        invariant
            n == entries@.len(),
            es == entry_views(entries@),
            forall|a: &str| measure.requires((a,)),
            scan@.root == root@,
            scan@.found.len() == dir_paths(es.take(i as int)).len(),
            forall|k: int|
                0 <= k < scan@.found.len() ==> {
                    let p = dir_paths(es.take(i as int))[k];
                    &&& #[trigger] scan@.found[k] == candidate_view(
                        root@,
                        p,
                        scan@.found[k].size,
                        Category::Caches,
                        false,
                    )
                    &&& measured(measure, p, scan@.found[k].size)
                },
    {
        let e = &entries[i];
        let ghost pre = es.take(i as int);
        let ghost before = scan@.found;
        assert(es.take(i + 1).drop_last() =~= pre);
        assert(es.take(i + 1).last() == e@);
        let p = e.path.as_str();
        let ask = || -> (size: u64)
            requires
                measure.requires((p,)),
            ensures
                measure.ensures((p,), size),
            { measure(p) };
        let is_dir = match e.kind {
            EntryKind::Dir => true,
            _ => false,
        };
        let _ = scan.offer_cache(e, ask);
        if is_dir {
            assert(dir_paths(es.take(i + 1)) == dir_paths(pre).push(e@.path));
            let ghost size = choose|size: u64|
                #[trigger] ask.ensures((), size) && scan@.found == before.push(
                    candidate_view(root@, e@.path, size, Category::Caches, false),
                );
            assert(measured(measure, e@.path, size));
            assert forall|k: int| 0 <= k < scan@.found.len() implies {
                let p = dir_paths(es.take(i + 1))[k];
                &&& #[trigger] scan@.found[k] == candidate_view(
                    root@,
                    p,
                    scan@.found[k].size,
                    Category::Caches,
                    false,
                )
                &&& measured(measure, p, scan@.found[k].size)
            } by {
                if k < before.len() {
                    assert(scan@.found[k] == before[k]);
                }
            }
        } else {
            assert(dir_paths(es.take(i + 1)) == dir_paths(pre));
        }
    }
    assert(es.take(n as int) =~= es);
    let found = scan.into_candidates();
    assert forall|k: int| 0 <= k < found@.len() implies #[trigger] found@[k]@ == candidate_views(found@)[k] by {}
    found
}

/// A walk of a project tree under `root`, with what it has collected so far.
pub struct HereScan {
    root: String,
    found: Vec<Candidate>,
}

pub struct HereScanView {
    pub root: Seq<char>,
    pub found: Seq<CandidateView>,
}

impl View for HereScan {
    type V = HereScanView;

    closed spec fn view(&self) -> HereScanView {
        HereScanView { root: self.root@, found: candidate_views(self.found@) }
    }
}

impl HereScan {
    /// A walk of the tree under `root` that has collected nothing.
    pub fn new(root: String) -> (s: HereScan)
        ensures
            s@.root == root@,
            s@.found == Seq::<CandidateView>::empty(),
    {
        let s = HereScan { root, found: Vec::new() };
        assert(s@.found =~= Seq::<CandidateView>::empty());
        s
    }

    /// Takes the next entry of the walk: the folder or file `path`, called
    /// `name`.  A folder that the rules collect is measured by `measure` and
    /// offered, ticked; the answer says whether to go on into the entry.
    /// `marker_present` is asked only for a generic target name, `measure`
    /// only for a collected folder.
    pub fn visit<M: FnOnce() -> bool, S: FnOnce() -> u64>(
        &mut self,
        path: String,
        name: &str,
        is_dir: bool,
        marker_present: M,
        measure: S,
    ) -> (a: DirAction)
        requires
            marker_present.requires(()),
            measure.requires(()),
        ensures
            final(self)@.root == old(self)@.root,
            needs_marker(name@, is_dir) ==> exists|found: bool|
                marker_present.ensures((), found) && a == dir_decision(name@, is_dir, found),
            !needs_marker(name@, is_dir) ==> a == dir_decision(name@, is_dir, false),
            a != DirAction::Collect ==> final(self)@.found == old(self)@.found,
            a == DirAction::Collect ==> exists|size: u64|
                measure.ensures((), size) && final(self)@.found == old(self)@.found.push(
                    candidate_view(old(self)@.root, path@, size, Category::Here, true),
                ),
    {
        let a = dir_action(name, is_dir, marker_present);
        match a {
            DirAction::Collect => {
                let size = measure();
                let c = Candidate::new(self.root.as_str(), path, size, Category::Here, true);
                proof {
                    lemma_candidate_views_push(self.found@, c);
                }
                self.found.push(c);
                assert(measure.ensures((), size) && self@.found == old(self)@.found.push(
                    candidate_view(old(self)@.root, path@, size, Category::Here, true),
                ));
            },
            _ => {},
        }
        a
    }

    /// How many folders have been collected.
    pub fn count(&self) -> (n: usize)
        ensures
            n == self@.found.len(),
    {
        self.found.len()
    }

    /// The folders collected, in the order the walk met them.
    pub fn into_candidates(self) -> (v: Vec<Candidate>)
        ensures
            candidate_views(v@) == self@.found,
    {
        self.found
    }
}

} // verus!
