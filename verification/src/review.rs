//! Reviewing what was found: largest first, the totals shown, and the count
//! of what a cleanup moved and what it left.
use vstd::prelude::*;

use crate::candidate::{lemma_sum_prefix, sum_sizes, total_bytes, Candidate, CandidateView};
use crate::scan::{candidate_views, lemma_candidate_views_push};
use crate::text::{decimal, push_decimal, push_str};
use crate::units::{compact_size_text, human_trimmed};

#[allow(unused_imports)]
use vstd::set_lib::{lemma_int_range, lemma_subset_equality, set_int_range};

verus! {

/// Item `a` comes before item `b` when it is larger, or as large and found earlier.
pub open spec fn comes_before(sizes: Seq<u64>, a: int, b: int) -> bool {
    sizes[a] > sizes[b] || (sizes[a] == sizes[b] && a < b)
}

/// `order` lists every index of `sizes` once, largest size first, equal sizes
/// in the order they were found (a stable sort, largest first).
pub open spec fn is_size_order(sizes: Seq<u64>, order: Seq<usize>) -> bool {
    &&& order.len() == sizes.len()
    &&& forall|i: int| 0 <= i < order.len() ==> #[trigger] order[i] < sizes.len()
    &&& forall|i: int, j: int|
        0 <= i < j < order.len() ==> comes_before(sizes, #[trigger] order[i] as int, #[trigger] order[j] as int)
}

/// The sizes of a sequence of candidates.
pub open spec fn sizes_of(cs: Seq<CandidateView>) -> Seq<u64> {
    cs.map_values(|c: CandidateView| c.size)
}

/// The order, largest first and stable among equals, of items of the given sizes.
pub fn size_order(sizes: &Vec<u64>) -> (order: Vec<usize>)
    ensures
        is_size_order(sizes@, order@),
{
    let n = sizes.len();
    let mut order: Vec<usize> = Vec::new();
    for i in 0..n
        invariant
            n == sizes@.len(),
            order@.len() == i,
            forall|k: int| 0 <= k < order@.len() ==> #[trigger] order@[k] < i,
            forall|k: int, l: int|
                0 <= k < l < order@.len() ==> comes_before(
                    sizes@,
                    #[trigger] order@[k] as int,
                    #[trigger] order@[l] as int,
                ),
    {
        let s = sizes[i];
        let mut p: usize = 0;
        while p < order.len() && sizes[order[p]] >= s
            invariant
                n == sizes@.len(),
                i < n,
                s == sizes@[i as int],
                order@.len() == i,
                p <= order@.len(),
                forall|k: int| 0 <= k < order@.len() ==> #[trigger] order@[k] < i,
                forall|k: int| 0 <= k < p ==> sizes@[#[trigger] order@[k] as int] >= s,
            decreases order@.len() - p,
        {
            p = p + 1;
        }
        let ghost old_order = order@;
        proof {
            assert forall|k: int| p <= k < old_order.len() implies sizes@[#[trigger] old_order[k] as int]
                < s by {
                if k > p {
                    assert(comes_before(sizes@, old_order[p as int] as int, old_order[k] as int));
                }
            }
        }
        order.insert(p, i);
        proof {
            assert(order@ == old_order.insert(p as int, i));
            assert forall|k: int| 0 <= k < order@.len() implies #[trigger] order@[k] < i + 1 by {
                if k < p {
                    assert(order@[k] == old_order[k]);
                } else if k > p {
                    assert(order@[k] == old_order[k - 1]);
                }
            }
            assert forall|k: int, l: int| 0 <= k < l < order@.len() implies comes_before(
                sizes@,
                #[trigger] order@[k] as int,
                #[trigger] order@[l] as int,
            ) by {
                if l < p {
                    assert(order@[k] == old_order[k] && order@[l] == old_order[l]);
                } else if l == p {
                    assert(order@[k] == old_order[k]);
                    assert(old_order[k] < i);
                } else if k < p {
                    assert(order@[k] == old_order[k] && order@[l] == old_order[l - 1]);
                } else if k == p {
                    assert(order@[l] == old_order[l - 1]);
                } else {
                    assert(order@[k] == old_order[k - 1] && order@[l] == old_order[l - 1]);
                }
            }
        }
    }
    order
}

/// The items under review, largest first.
pub struct Review {
    items: Vec<Candidate>,
}

impl View for Review {
    type V = Seq<CandidateView>;

    closed spec fn view(&self) -> Seq<CandidateView> {
        candidate_views(self.items@)
    }
}

/// `out` is `cs` reordered largest first, equal sizes in the order found.
pub open spec fn sorted_by_size(cs: Seq<CandidateView>, out: Seq<CandidateView>) -> bool {
    exists|order: Seq<usize>|
        is_size_order(sizes_of(cs), order) && out == order.map_values(|k: usize| cs[k as int])
}

/// The sizes of the items at the chosen positions, in the order chosen.
pub open spec fn chosen_sizes(items: Seq<CandidateView>, chosen: Seq<usize>) -> Seq<u64> {
    chosen.map_values(|k: usize| items[k as int].size)
}

/// A size order lists every item exactly once: nothing is lost or shown twice.
pub proof fn lemma_size_order_covers(sizes: Seq<u64>, order: Seq<usize>)
    requires
        is_size_order(sizes, order),
    ensures
        order.no_duplicates(),
        forall|k: usize| k < sizes.len() ==> #[trigger] order.contains(k),
{
    let n = sizes.len() as int;
    assert forall|i: int, j: int| 0 <= i < order.len() && 0 <= j < order.len() && i != j implies order[i]
        != order[j] by {
        if i < j {
            assert(comes_before(sizes, order[i] as int, order[j] as int));
        } else {
            assert(comes_before(sizes, order[j] as int, order[i] as int));
        }
    }
    let s = order.map_values(|k: usize| k as int);
    assert forall|i: int, j: int| 0 <= i < s.len() && 0 <= j < s.len() && i != j implies s[i] != s[j] by {
        assert(order[i] != order[j]);
    }
    s.unique_seq_to_set();
    lemma_int_range(0, n);
    assert forall|x: int| s.to_set().contains(x) implies set_int_range(0, n).contains(x) by {
        let i = choose|i: int| 0 <= i < s.len() && s[i] == x;
        assert(order[i] < sizes.len());
    }
    lemma_subset_equality(s.to_set(), set_int_range(0, n));
    assert forall|k: usize| k < sizes.len() implies #[trigger] order.contains(k) by {
        assert(set_int_range(0, n).contains(k as int));
        assert(s.to_set().contains(k as int));
        let i = choose|i: int| 0 <= i < s.len() && s[i] == k as int;
        assert(order[i] == k);
    }
}

/// There is only one size order for given sizes: largest first with ties in
/// the order found decides every place.
pub proof fn lemma_size_order_unique(sizes: Seq<u64>, a: Seq<usize>, b: Seq<usize>)
    requires
        is_size_order(sizes, a),
        is_size_order(sizes, b),
    ensures
        a == b,
{
    if a.len() > 0 {
        lemma_orders_agree_upto(sizes, a, b, a.len() - 1);
    }
    assert(a =~= b);
}

proof fn lemma_orders_agree_upto(sizes: Seq<u64>, a: Seq<usize>, b: Seq<usize>, i: int)
    requires
        is_size_order(sizes, a),
        is_size_order(sizes, b),
        0 <= i < a.len(),
    ensures
        forall|k: int| 0 <= k <= i ==> a[k] == b[k],
    decreases i,
{
    if i > 0 {
        lemma_orders_agree_upto(sizes, a, b, i - 1);
    }
    lemma_size_order_covers(sizes, a);
    lemma_size_order_covers(sizes, b);
    let x = a[i];
    let y = b[i];
    if x != y {
        assert(a.contains(y));
        let j = choose|j: int| 0 <= j < a.len() && a[j] == y;
        assert(b.contains(x));
        let m = choose|m: int| 0 <= m < b.len() && b[m] == x;
        if j < i {
            assert(b[j] == y);
        }
        if m < i {
            assert(a[m] == x);
        }
        assert(j > i && m > i);
        assert(comes_before(sizes, a[i] as int, a[j] as int));
        assert(comes_before(sizes, b[i] as int, b[m] as int));
    }
}

impl Review {
    /// The review of `candidates`, largest first; equal sizes keep the order
    /// they were found in.
    pub fn new(candidates: Vec<Candidate>) -> (r: Review)
        ensures
            sorted_by_size(candidate_views(candidates@), r@),
    {
        let n = candidates.len();
        let ghost cs = candidate_views(candidates@);
        let mut sizes: Vec<u64> = Vec::new();
        for i in 0..n
            invariant
                n == candidates@.len(),
                cs == candidate_views(candidates@),
                sizes@ == sizes_of(cs).take(i as int),
        {
            sizes.push(candidates[i].size());
            assert(sizes_of(cs).take(i + 1) =~= sizes_of(cs).take(i as int).push(cs[i as int].size));
        }
        assert(sizes_of(cs).take(n as int) =~= sizes_of(cs));
        let order = size_order(&sizes);
        let mut items: Vec<Candidate> = Vec::new();
        for k in 0..n
            invariant
                n == candidates@.len(),
                cs == candidate_views(candidates@),
                is_size_order(sizes_of(cs), order@),
                candidate_views(items@) == order@.take(k as int).map_values(|j: usize| cs[j as int]),
        {
            let j = order[k];
            let c = candidates[j].duplicate();
            let ghost before = items@;
            proof {
                lemma_candidate_views_push(before, c);
                assert(order@.take(k + 1) =~= order@.take(k as int).push(j));
            }
            items.push(c);
            assert(candidate_views(items@) =~= order@.take(k + 1).map_values(|j: usize| cs[j as int]));
        }
        assert(order@.take(n as int) =~= order@);
        let r = Review { items };
        assert(r@ == order@.map_values(|j: usize| cs[j as int]));
        r
    }

    /// How many items are under review.
    pub fn len(&self) -> (n: usize)
        ensures
            n == self@.len(),
    {
        self.items.len()
    }

    /// Whether nothing is under review.
    pub fn is_empty(&self) -> (b: bool)
        ensures
            b == (self@.len() == 0),
    {
        self.items.len() == 0
    }

    /// The item at position `i`, largest first.
    pub fn item(&self, i: usize) -> (c: &Candidate)
        requires
            i < self@.len(),
        ensures
            c@ == self@[i as int],
    {
        &self.items[i]
    }

    /// The labels of the items, in review order.
    pub fn labels(&self) -> (v: Vec<String>)
        ensures
            v@.len() == self@.len(),
            forall|i: int| 0 <= i < v@.len() ==> #[trigger] v@[i]@ == self@[i].label,
    {
        let mut v: Vec<String> = Vec::new();
        let n = self.items.len();
        for i in 0..n
            invariant
                n == self@.len(),
                v@.len() == i,
                forall|k: int| 0 <= k < i ==> #[trigger] v@[k]@ == self@[k].label,
        {
            v.push(self.items[i].label().to_owned());
        }
        v
    }

    /// Whether each item is ticked at first, in review order.
    pub fn defaults(&self) -> (v: Vec<bool>)
        ensures
            v@ == self@.map_values(|c: CandidateView| c.selected_by_default),
    {
        let mut v: Vec<bool> = Vec::new();
        let n = self.items.len();
        for i in 0..n
            invariant
                n == self@.len(),
                v@ == self@.take(i as int).map_values(|c: CandidateView| c.selected_by_default),
        {
            v.push(self.items[i].selected_by_default());
            assert(self@.take(i + 1).map_values(|c: CandidateView| c.selected_by_default) =~= self@.take(
                i as int,
            ).map_values(|c: CandidateView| c.selected_by_default).push(self@[i as int].selected_by_default));
        }
        assert(self@.take(n as int) =~= self@);
        v
    }

    /// The sizes of the items at the positions `chosen`.
    pub fn sizes_at(&self, chosen: &Vec<usize>) -> (v: Vec<u64>)
        requires
            forall|i: int| 0 <= i < chosen@.len() ==> #[trigger] chosen@[i] < self@.len(),
        ensures
            v@ == chosen_sizes(self@, chosen@),
    {
        let mut v: Vec<u64> = Vec::new();
        let n = chosen.len();
        for i in 0..n
            invariant
                n == chosen@.len(),
                forall|i: int| 0 <= i < chosen@.len() ==> #[trigger] chosen@[i] < self@.len(),
                v@ == chosen_sizes(self@, chosen@.take(i as int)),
        {
            let k = chosen[i];
            v.push(self.items[k].size());
            assert(chosen_sizes(self@, chosen@.take(i + 1)) =~= chosen_sizes(self@, chosen@.take(i as int)).push(
                self@[k as int].size,
            ));
        }
        assert(chosen@.take(n as int) =~= chosen@);
        v
    }

    /// The total size of all items, or `None` where it does not fit in 64 bits.
    pub fn total(&self) -> (t: Option<u64>)
        ensures
            t matches Some(x) ==> x == sum_sizes(sizes_of(self@)),
            t is None ==> sum_sizes(sizes_of(self@)) > u64::MAX,
    {
        let n = self.items.len();
        let mut all: Vec<usize> = Vec::new();
        for i in 0..n
            invariant
                n == self@.len(),
                all@.len() == i,
                forall|k: int| 0 <= k < i ==> #[trigger] all@[k] == k,
        {
            all.push(i);
        }
        let v = self.sizes_at(&all);
        assert(v@ =~= sizes_of(self@));
        total_bytes(&v)
    }
}

/// How many of `outcomes` are `true`.
pub open spec fn count_true(outcomes: Seq<bool>) -> nat
    decreases outcomes.len(),
{
    if outcomes.len() == 0 {
        0
    } else {
        count_true(outcomes.drop_last()) + if outcomes.last() {
            1nat
        } else {
            0nat
        }
    }
}

/// The bytes of the items whose outcome is `true`.
pub open spec fn moved_bytes(sizes: Seq<u64>, outcomes: Seq<bool>) -> nat
    decreases outcomes.len(),
{
    if outcomes.len() == 0 {
        0
    } else {
        moved_bytes(sizes, outcomes.drop_last()) + if outcomes.last() {
            sizes[outcomes.len() - 1] as nat
        } else {
            0nat
        }
    }
}

/// The bytes a cleanup moved never exceed the total of the items chosen, and
/// the items moved never outnumber those handled.
pub proof fn lemma_cleanup_within_choice(sizes: Seq<u64>, outcomes: Seq<bool>)
    requires
        outcomes.len() <= sizes.len(),
    ensures
        moved_bytes(sizes, outcomes) <= sum_sizes(sizes),
        count_true(outcomes) <= outcomes.len(),
{
    lemma_moved_le_sum(sizes, outcomes);
    lemma_sum_prefix(sizes, outcomes.len() as int);
    lemma_count_le(outcomes);
}

/// A cleanup in which every chosen item was moved frees exactly the total
/// shown when confirmation was asked.
pub proof fn lemma_all_moved_frees_total(sizes: Seq<u64>, outcomes: Seq<bool>)
    requires
        outcomes.len() == sizes.len(),
        forall|i: int| 0 <= i < outcomes.len() ==> #[trigger] outcomes[i],
    ensures
        moved_bytes(sizes, outcomes) == sum_sizes(sizes),
        count_true(outcomes) == outcomes.len(),
    decreases outcomes.len(),
{
    if outcomes.len() > 0 {
        let n = outcomes.len() as int;
        assert(outcomes.drop_last().len() == sizes.drop_last().len());
        lemma_all_moved_frees_total(sizes.drop_last(), outcomes.drop_last());
        lemma_moved_bytes_prefix(sizes, outcomes.drop_last());
        assert(outcomes[n - 1]);
    }
}

/// A cleanup in which no item was moved frees nothing.
pub proof fn lemma_none_moved_frees_nothing(sizes: Seq<u64>, outcomes: Seq<bool>)
    requires
        forall|i: int| 0 <= i < outcomes.len() ==> !#[trigger] outcomes[i],
    ensures
        moved_bytes(sizes, outcomes) == 0,
        count_true(outcomes) == 0,
    decreases outcomes.len(),
{
    if outcomes.len() > 0 {
        lemma_none_moved_frees_nothing(sizes, outcomes.drop_last());
        assert(!outcomes[outcomes.len() - 1]);
    }
}

proof fn lemma_moved_bytes_prefix(sizes: Seq<u64>, outcomes: Seq<bool>)
    requires
        outcomes.len() < sizes.len(),
    ensures
        moved_bytes(sizes, outcomes) == moved_bytes(sizes.drop_last(), outcomes),
    decreases outcomes.len(),
{
    if outcomes.len() > 0 {
        lemma_moved_bytes_prefix(sizes, outcomes.drop_last());
    }
}

proof fn lemma_moved_le_sum(sizes: Seq<u64>, outcomes: Seq<bool>)
    requires
        outcomes.len() <= sizes.len(),
    ensures
        moved_bytes(sizes, outcomes) <= sum_sizes(sizes.take(outcomes.len() as int)),
    decreases outcomes.len(),
{
    if outcomes.len() > 0 {
        let n = outcomes.len() as int;
        lemma_moved_le_sum(sizes, outcomes.drop_last());
        assert(sizes.take(n).drop_last() =~= sizes.take(n - 1));
    }
}

proof fn lemma_count_le(outcomes: Seq<bool>)
    ensures
        count_true(outcomes) <= outcomes.len(),
    decreases outcomes.len(),
{
    if outcomes.len() > 0 {
        lemma_count_le(outcomes.drop_last());
    }
}

/// A cleanup of the chosen items, one after the other, counting those moved
/// to the Trash, those left, and the bytes moved.
pub struct Cleanup {
    sizes: Vec<u64>,
    next: usize,
    trashed: u64,
    failed: u64,
    cleaned: u64,
    confirmed: bool,
    outcomes: Ghost<Seq<bool>>,
}

/// What a cleanup holds: the sizes of the chosen items, whether the user
/// confirmed it, and whether each item handled so far was moved.
pub struct CleanupView {
    pub sizes: Seq<u64>,
    pub confirmed: bool,
    pub outcomes: Seq<bool>,
}

impl View for Cleanup {
    type V = CleanupView;

    closed spec fn view(&self) -> CleanupView {
        CleanupView { sizes: self.sizes@, confirmed: self.confirmed, outcomes: self.outcomes@ }
    }
}

impl Cleanup {
    #[verifier::type_invariant]
    spec fn counts_agree(self) -> bool {
        &&& self.next == self.outcomes@.len()
        &&& self.next <= self.sizes@.len()
        &&& sum_sizes(self.sizes@) <= u64::MAX
        &&& self.trashed == count_true(self.outcomes@)
        &&& self.failed == self.next - count_true(self.outcomes@)
        &&& self.cleaned == moved_bytes(self.sizes@, self.outcomes@)
        &&& !self.confirmed ==> self.next == 0
    }

    /// A cleanup of the items at the positions `chosen`, not yet confirmed, or
    /// `None` where their total size does not fit in 64 bits.  The total is
    /// given with it, to be shown when confirmation is asked.
    pub fn start(review: &Review, chosen: &Vec<usize>) -> (r: Option<(Cleanup, u64)>)
        requires
            forall|i: int| 0 <= i < chosen@.len() ==> #[trigger] chosen@[i] < review@.len(),
        ensures
            r matches Some((c, freed)) ==> c@.sizes == chosen_sizes(review@, chosen@)
                && !c@.confirmed && c@.outcomes == Seq::<bool>::empty() && freed == sum_sizes(
                c@.sizes,
            ),
            r is None ==> sum_sizes(chosen_sizes(review@, chosen@)) > u64::MAX,
    {
        let sizes = review.sizes_at(chosen);
        match total_bytes(&sizes) {
            None => None,
            Some(freed) => {
                let c = Cleanup {
                    sizes,
                    next: 0,
                    trashed: 0,
                    failed: 0,
                    cleaned: 0,
                    confirmed: false,
                    outcomes: Ghost(Seq::empty()),
                };
                Some((c, freed))
            },
        }
    }

    /// The cleanup, once the user has confirmed it.
    pub fn confirm(self) -> (c: Cleanup)
        ensures
            c@ == (CleanupView { confirmed: true, ..self@ }),
    {
        proof {
            use_type_invariant(&self);
        }
        Cleanup { confirmed: true, ..self }
    }

    /// The position, among the chosen items, of the next item to handle, or
    /// `None` when every item has been handled; nothing is handled before the
    /// cleanup is confirmed.
    pub fn next(&self) -> (r: Option<usize>)
        ensures
            !self@.confirmed ==> r is None && self@.outcomes.len() == 0,
            self@.confirmed && self@.outcomes.len() < self@.sizes.len() ==> r == Some(
                self@.outcomes.len() as usize,
            ),
            self@.outcomes.len() >= self@.sizes.len() ==> r is None,
    {
        proof {
            use_type_invariant(self);
        }
        if self.confirmed && self.next < self.sizes.len() {
            Some(self.next)
        } else {
            None
        }
    }

    /// The cleanup once the next item is counted as moved (`moved`) or left.
    pub fn record(self, moved: bool) -> (c: Cleanup)
        requires
            self@.confirmed,
            self@.outcomes.len() < self@.sizes.len(),
        ensures
            c@.sizes == self@.sizes,
            c@.confirmed,
            c@.outcomes == self@.outcomes.push(moved),
    {
        proof {
            use_type_invariant(&self);
        }
        let ghost new_outcomes = self.outcomes@.push(moved);
        proof {
            assert(new_outcomes.drop_last() =~= self.outcomes@);
            lemma_moved_le_sum(self.sizes@, new_outcomes);
            lemma_sum_prefix(self.sizes@, new_outcomes.len() as int);
            lemma_count_le(self.outcomes@);
        }
        let len = self.sizes.len();
        assert(self.next < len);
        assert(len <= u64::MAX);
        let size = self.sizes[self.next];
        let (trashed, failed, cleaned) = if moved {
            (self.trashed + 1, self.failed, self.cleaned + size)
        } else {
            (self.trashed, self.failed + 1, self.cleaned)
        };
        let next = self.next + 1;
        Cleanup {
            sizes: self.sizes,
            next,
            trashed,
            failed,
            cleaned,
            confirmed: true,
            outcomes: Ghost(new_outcomes),
        }
    }

    /// How many items were moved to the Trash.
    pub fn trashed(&self) -> (n: u64)
        ensures
            n == count_true(self@.outcomes),
    {
        proof {
            use_type_invariant(self);
        }
        self.trashed
    }

    /// How many items were left in place.
    pub fn failed(&self) -> (n: u64)
        ensures
            n == self@.outcomes.len() - count_true(self@.outcomes),
    {
        proof {
            use_type_invariant(self);
        }
        self.failed
    }

    /// How many bytes were moved to the Trash.
    pub fn cleaned(&self) -> (n: u64)
        ensures
            n == moved_bytes(self@.sizes, self@.outcomes),
    {
        proof {
            use_type_invariant(self);
        }
        self.cleaned
    }
}

/// A point of the review at which nothing is moved.
#[derive(Clone, Copy, Debug, PartialEq, Eq, Structural)]
pub enum Notice {
    /// The scan found nothing.
    NothingToClean,
    /// The user picked nothing.
    NothingSelected,
    /// The user did not confirm.
    Aborted,
}

/// The text shown at a point where nothing is moved.
pub fn notice_text(n: Notice) -> (t: &'static str)
    ensures
        t@ == match n {
            Notice::NothingToClean => "Nothing to clean."@,
            Notice::NothingSelected => "Nothing selected."@,
            Notice::Aborted => "Aborted."@,
        },
{
    match n {
        Notice::NothingToClean => "Nothing to clean.",
        Notice::NothingSelected => "Nothing selected.",
        Notice::Aborted => "Aborted.",
    }
}

/// The line that opens a review: how many folders were found, and their
/// total size.
pub fn found_message(count: usize, total: u64) -> (m: String)
    ensures
        m@ == "Found "@ + decimal(count as nat) + " folder(s), "@ + compact_size_text(total)
            + " total."@,
{
    let mut m = "Found ".to_owned();
    push_decimal(&mut m, count as u64);
    push_str(&mut m, " folder(s), ");
    let size = human_trimmed(total);
    push_str(&mut m, size.as_str());
    push_str(&mut m, " total.");
    m
}

/// The question asked before anything is moved: how many items, and how
/// many bytes that frees.
pub fn confirm_prompt(count: usize, freed: u64) -> (m: String)
    ensures
        m@ == "Move "@ + decimal(count as nat) + " item(s) to Trash, freeing "@ + compact_size_text(
            freed,
        ) + "?"@,
{
    let mut m = "Move ".to_owned();
    push_decimal(&mut m, count as u64);
    push_str(&mut m, " item(s) to Trash, freeing ");
    let size = human_trimmed(freed);
    push_str(&mut m, size.as_str());
    push_str(&mut m, "?");
    m
}

/// The line that reports an item moved to the Trash.
pub fn trashed_message(path: &str) -> (m: String)
    ensures
        m@ == "✓ trashed "@ + path@,
{
    let mut m = "✓ trashed ".to_owned();
    push_str(&mut m, path);
    m
}

/// The line that reports an item left in place, and why.
pub fn left_message(path: &str, reason: &str) -> (m: String)
    ensures
        m@ == "✗ "@ + path@ + ": "@ + reason@,
{
    let mut m = "✗ ".to_owned();
    push_str(&mut m, path);
    push_str(&mut m, ": ");
    push_str(&mut m, reason);
    m
}

/// The closing report of a cleanup: items moved, items left, bytes moved.
pub fn done_message(trashed: u64, failed: u64, cleaned: u64) -> (m: String)
    ensures
        m@ == "\nDone. Trashed "@ + decimal(trashed as nat) + ", skipped "@ + decimal(
            failed as nat,
        ) + ". Cleaned ~"@ + compact_size_text(cleaned) + "."@,
{
    let mut m = "\nDone. Trashed ".to_owned();
    push_decimal(&mut m, trashed);
    push_str(&mut m, ", skipped ");
    push_decimal(&mut m, failed);
    push_str(&mut m, ". Cleaned ~");
    let size = human_trimmed(cleaned);
    push_str(&mut m, size.as_str());
    push_str(&mut m, ".");
    m
}

} // verus!
