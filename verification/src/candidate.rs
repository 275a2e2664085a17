//! Items offered for cleaning, with the label they are shown under.
use vstd::prelude::*;

use crate::paths::{strip_path_prefix, strip_prefix_path};
use crate::text::{push_char, push_str};
use crate::units::{human, size_text};

verus! {

/// Where an item was found.
#[derive(Clone, Copy, Debug, PartialEq, Eq, Structural)]
pub enum Category {
    Here,
    Downloads,
    Caches,
}

/// How an item is to be handled: every item is only offered for review.
#[derive(Clone, Copy, Debug, PartialEq, Eq, Structural)]
pub enum Risk {
    ReviewOnly,
}

/// An item offered for cleaning.
pub struct Candidate {
    path: String,
    size: u64,
    label: String,
    category: Category,
    risk: Risk,
    selected_by_default: bool,
}

/// What a candidate holds, as plain values.
pub struct CandidateView {
    pub path: Seq<char>,
    pub size: u64,
    pub label: Seq<char>,
    pub category: Category,
    pub risk: Risk,
    pub selected_by_default: bool,
}

impl View for Candidate {
    type V = CandidateView;

    closed spec fn view(&self) -> CandidateView {
        CandidateView {
            path: self.path@,
            size: self.size,
            label: self.label@,
            category: self.category,
            risk: self.risk,
            selected_by_default: self.selected_by_default,
        }
    }
}

/// The label of an item: its size for people, two spaces, and its path
/// relative to the root it was found under (the whole path where it is not
/// under that root).
pub open spec fn label_text(root: Seq<char>, path: Seq<char>, size: u64) -> Seq<char> {
    size_text(size) + seq![' ', ' '] + match strip_path_prefix(path, root) {
        Some(rel) => rel,
        None => path,
    }
}

/// The candidate that `Candidate::new` makes.
pub open spec fn candidate_view(
    root: Seq<char>,
    path: Seq<char>,
    size: u64,
    category: Category,
    selected_by_default: bool,
) -> CandidateView {
    CandidateView {
        path,
        size,
        label: label_text(root, path, size),
        category,
        risk: Risk::ReviewOnly,
        selected_by_default,
    }
}

/// The label of an item of `size` bytes: its size for people, two spaces,
/// and its path relative to the root it was found under (`relative`), or
/// its whole `path` where it is not under that root.
pub fn label_with(size: u64, relative: Option<&str>, path: &str) -> (s: String)
    ensures
        s@ == size_text(size) + seq![' ', ' '] + match relative {
            Some(rel) => rel@,
            None => path@,
        },
{
    let mut s = human(size);
    push_char(&mut s, ' ');
    push_char(&mut s, ' ');
    match relative {
        Some(rel) => push_str(&mut s, rel),
        None => push_str(&mut s, path),
    }
    s
}

/// The label that an item at `path` of `size` bytes, found under `root`, is shown under.
pub fn label_for(root: &str, path: &str, size: u64) -> (s: String)
    ensures
        s@ == label_text(root@, path@, size),
{
    match strip_prefix_path(path, root) {
        Some(rel) => label_with(size, Some(rel.as_str()), path),
        None => label_with(size, None, path),
    }
}

impl Candidate {
    /// An item found under `root`, labelled for review.
    pub fn new(root: &str, path: String, size: u64, category: Category, selected_by_default: bool) -> (c:
        Candidate)
        ensures
            c@ == candidate_view(root@, path@, size, category, selected_by_default),
    {
        let label = label_for(root, path.as_str(), size);
        Candidate { label, path, size, category, risk: Risk::ReviewOnly, selected_by_default }
    }

    pub fn path(&self) -> (r: &str)
        ensures
            r@ == self@.path,
    {
        self.path.as_str()
    }

    pub fn size(&self) -> (r: u64)
        ensures
            r == self@.size,
    {
        self.size
    }

    pub fn label(&self) -> (r: &str)
        ensures
            r@ == self@.label,
    {
        self.label.as_str()
    }

    pub fn category(&self) -> (r: Category)
        ensures
            r == self@.category,
    {
        self.category
    }

    pub fn risk(&self) -> (r: Risk)
        ensures
            r == self@.risk,
    {
        self.risk
    }

    pub fn selected_by_default(&self) -> (r: bool)
        ensures
            r == self@.selected_by_default,
    {
        self.selected_by_default
    }

    /// A candidate holding the same values.
    pub fn duplicate(&self) -> (c: Candidate)
        ensures
            c@ == self@,
    {
        Candidate {
            path: self.path.clone(),
            size: self.size,
            label: self.label.clone(),
            category: self.category,
            risk: self.risk,
            selected_by_default: self.selected_by_default,
        }
    }
}

/// The size of a file as its metadata gave it, or 0 where there was none.
pub fn file_size(len: Option<u64>) -> (r: u64)
    ensures
        r == match len {
            Some(n) => n,
            None => 0,
        },
{
    match len {
        Some(n) => n,
        None => 0,
    }
}

/// The sum of a sequence of sizes.
pub open spec fn sum_sizes(s: Seq<u64>) -> nat
    decreases s.len(),
{
    if s.len() == 0 {
        0
    } else {
        sum_sizes(s.drop_last()) + s.last() as nat
    }
}

pub proof fn lemma_sum_prefix(s: Seq<u64>, i: int)
    requires
        0 <= i <= s.len(),
    ensures
        sum_sizes(s.take(i)) <= sum_sizes(s),
    decreases s.len() - i,
{
    if i < s.len() {
        lemma_sum_prefix(s, i + 1);
        assert(s.take(i + 1).drop_last() =~= s.take(i));
    } else {
        assert(s.take(i) =~= s);
    }
}

/// The sum of `sizes`, or `None` where it does not fit in 64 bits.
pub fn total_bytes(sizes: &Vec<u64>) -> (r: Option<u64>)
    ensures
        r matches Some(t) ==> t == sum_sizes(sizes@),
        r is None ==> sum_sizes(sizes@) > u64::MAX,
{
    let mut t: u64 = 0;
    let n = sizes.len();
    assert(sizes@.take(0) =~= Seq::<u64>::empty());
    for i in 0..n
        invariant
            n == sizes@.len(),
            t == sum_sizes(sizes@.take(i as int)),
    {
        assert(sizes@.take(i + 1).drop_last() =~= sizes@.take(i as int));
        match t.checked_add(sizes[i]) {
            Some(next) => t = next,
            None => {
                proof {
                    lemma_sum_prefix(sizes@, i + 1);
                }
                return None;
            },
        }
    }
    assert(sizes@.take(n as int) =~= sizes@);
    Some(t)
}

} // verus!
