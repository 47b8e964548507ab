//! The activity catalog: an insertion-ordered list of activities with
//! pairwise-distinct ids.  New ids are allocated as the minimum excluded
//! value (mex) of the ids currently in use, so removing an activity makes
//! its id available again.
use vstd::prelude::*;
use vstd::set_lib::lemma_int_range;
use vstd::set_lib::lemma_len_subset;
use vstd::set_lib::set_int_range;

use crate::activity::Activity;
use crate::activity::ActivityView;
use crate::activity::ClassType;
use crate::error::SchedulerError;

verus! {

/// The model of a list of activities.
pub open spec fn acts_view(s: Seq<Activity>) -> Seq<ActivityView> {
    s.map_values(|a: Activity| a@)
}

/// Some entry of `s` carries the id `id`.
pub open spec fn used_id(s: Seq<ActivityView>, id: nat) -> bool {
    exists|i: int| 0 <= i < s.len() && s[i].id == id
}

/// The ids of `s` are pairwise distinct.
pub open spec fn unique_ids(s: Seq<ActivityView>) -> bool {
    forall|i: int, j: int| 0 <= i < j < s.len() ==> s[i].id != s[j].id
}

/// An index of an entry of `s` carrying `id`; when `unique_ids(s)` and
/// `used_id(s, id)` hold it is the one such index.
pub open spec fn index_of_id(s: Seq<ActivityView>, id: nat) -> int {
    choose|i: int| 0 <= i < s.len() && s[i].id == id
}

/// `m` is the minimum excluded value of the ids of `s`.
pub open spec fn is_mex(s: Seq<ActivityView>, m: nat) -> bool {
    &&& !used_id(s, m)
    &&& forall|k: nat| k < m ==> used_id(s, k)
}

/// The minimum excluded value of the ids of `s`.
pub open spec fn spec_mex(s: Seq<ActivityView>) -> nat {
    choose|m: nat| is_mex(s, m)
}

/// Pigeonhole: if every id below `n` is in use, `s` has at least `n` entries.
pub proof fn lemma_used_ids_bound(s: Seq<ActivityView>, n: nat)
    requires
        forall|k: nat| k < n ==> used_id(s, k),
    ensures
        n <= s.len(),
{
    let ids = s.map_values(|a: ActivityView| a.id as int);
    assert forall|k: int| 0 <= k < n implies ids.to_set().contains(k) by {
        assert(used_id(s, k as nat));
        let i = choose|i: int| 0 <= i < s.len() && s[i].id == k as nat;
        assert(ids[i] == k);
        assert(ids.contains(k));
    }
    assert(set_int_range(0, n as int).subset_of(ids.to_set()));
    lemma_int_range(0, n as int);
    ids.lemma_cardinality_of_set();
    lemma_len_subset(set_int_range(0, n as int), ids.to_set());
}

proof fn lemma_mex_below(s: Seq<ActivityView>, k0: nat)
    requires
        !used_id(s, k0),
    ensures
        exists|m: nat| is_mex(s, m) && m <= k0,
    decreases k0,
{
    if forall|k: nat| k < k0 ==> used_id(s, k) {
        assert(is_mex(s, k0));
    } else {
        let j = choose|j: nat| j < k0 && !used_id(s, j);
        lemma_mex_below(s, j);
        let m = choose|m: nat| is_mex(s, m) && m <= j;
        assert(is_mex(s, m) && m <= k0);
    }
}

/// Every catalog has a mex, and it is at most the number of entries.
pub proof fn lemma_mex_exists(s: Seq<ActivityView>)
    ensures
        exists|m: nat| is_mex(s, m) && m <= s.len(),
{
    if forall|k: nat| k <= s.len() ==> used_id(s, k) {
        assert(forall|k: nat| k < s.len() + 1 ==> used_id(s, k));
        lemma_used_ids_bound(s, s.len() + 1);
        assert(false);
    }
    let k0 = choose|k: nat| k <= s.len() && !used_id(s, k);
    lemma_mex_below(s, k0);
    let m = choose|m: nat| is_mex(s, m) && m <= k0;
    assert(is_mex(s, m) && m <= s.len());
}

/// The mex is unique.
pub proof fn lemma_mex_unique(s: Seq<ActivityView>, m1: nat, m2: nat)
    requires
        is_mex(s, m1),
        is_mex(s, m2),
    ensures
        m1 == m2,
{
    if m1 < m2 {
        assert(used_id(s, m1));
    }
    if m2 < m1 {
        assert(used_id(s, m2));
    }
}

/// Anything that satisfies `is_mex` is `spec_mex`.
pub proof fn lemma_mex_value(s: Seq<ActivityView>, m: nat)
    requires
        is_mex(s, m),
    ensures
        spec_mex(s) == m,
{
    assert(is_mex(s, spec_mex(s)));
    lemma_mex_unique(s, m, spec_mex(s));
}

/// With distinct ids, any index whose entry carries `id` is `index_of_id`.
pub proof fn lemma_index_of_id(s: Seq<ActivityView>, id: nat, i: int)
    requires
        unique_ids(s),
        0 <= i < s.len(),
        s[i].id == id,
    ensures
        index_of_id(s, id) == i,
{
    let j = index_of_id(s, id);
    assert(0 <= j < s.len() && s[j].id == id);
}

/// Pushing an entry with an unused id keeps the ids distinct and makes
/// exactly that id used in addition.
pub proof fn lemma_push_new_id(s: Seq<ActivityView>, a: ActivityView)
    requires
        unique_ids(s),
        !used_id(s, a.id),
    ensures
        unique_ids(s.push(a)),
        forall|k: nat| used_id(s.push(a), k) <==> used_id(s, k) || k == a.id,
{
    let s2 = s.push(a);
    assert forall|i: int, j: int| 0 <= i < j < s2.len() implies s2[i].id != s2[j].id by {
        if j < s.len() {
        } else {
            assert(s2[j] == a);
            if s2[i].id == a.id {
                assert(used_id(s, a.id));
            }
        }
    }
    assert forall|k: nat| used_id(s2, k) <==> used_id(s, k) || k == a.id by {
        if used_id(s2, k) {
            let i = choose|i: int| 0 <= i < s2.len() && s2[i].id == k;
            if i < s.len() {
                assert(used_id(s, k));
            }
        }
        if used_id(s, k) {
            let i = choose|i: int| 0 <= i < s.len() && s[i].id == k;
            assert(s2[i].id == k);
        }
        if k == a.id {
            assert(s2[s.len() as int].id == k);
        }
    }
}

/// Replacing the entry at `i` by one carrying the same id keeps the ids
/// distinct and leaves the set of used ids unchanged.
pub proof fn lemma_update_same_id(s: Seq<ActivityView>, i: int, a: ActivityView)
    requires
        unique_ids(s),
        0 <= i < s.len(),
        s[i].id == a.id,
    ensures
        unique_ids(s.update(i, a)),
        forall|k: nat| used_id(s.update(i, a), k) <==> used_id(s, k),
{
    let s2 = s.update(i, a);
    assert(forall|x: int| 0 <= x < s.len() ==> s2[x].id == s[x].id);
    assert forall|k: nat| used_id(s2, k) <==> used_id(s, k) by {
        if used_id(s2, k) {
            let x = choose|x: int| 0 <= x < s2.len() && s2[x].id == k;
            assert(s[x].id == k);
        }
        if used_id(s, k) {
            let x = choose|x: int| 0 <= x < s.len() && s[x].id == k;
            assert(s2[x].id == k);
        }
    }
}

/// Removing the entry carrying `id` keeps the ids distinct, drops `id` from
/// the used ids, and keeps every other id.
pub proof fn lemma_remove_id(s: Seq<ActivityView>, id: nat)
    requires
        unique_ids(s),
        used_id(s, id),
    ensures
        ({
            let s2 = s.remove(index_of_id(s, id));
            &&& 0 <= index_of_id(s, id) < s.len()
            &&& unique_ids(s2)
            &&& !used_id(s2, id)
            &&& forall|k: nat| k != id ==> (used_id(s2, k) <==> used_id(s, k))
        }),
{
    let i = index_of_id(s, id);
    assert(0 <= i < s.len() && s[i].id == id);
    let s2 = s.remove(i);
    assert forall|x: int, y: int| 0 <= x < y < s2.len() implies s2[x].id != s2[y].id by {
        let px: int = if x < i {
            x
        } else {
            x + 1
        };
        let py: int = if y < i {
            y
        } else {
            y + 1
        };
        assert(s2[x] == s[px]);
        assert(s2[y] == s[py]);
    }
    assert forall|j: int| 0 <= j < s2.len() implies s2[j].id != id by {
        let pj: int = if j < i {
            j
        } else {
            j + 1
        };
        assert(s2[j] == s[pj]);
        assert(s[pj].id != s[i].id);
    }
    assert forall|k: nat| k != id implies (used_id(s2, k) <==> used_id(s, k)) by {
        if used_id(s2, k) {
            let j = choose|j: int| 0 <= j < s2.len() && s2[j].id == k;
            let pj: int = if j < i {
                j
            } else {
                j + 1
            };
            assert(s[pj].id == k);
        }
        if used_id(s, k) {
            let j = choose|j: int| 0 <= j < s.len() && s[j].id == k;
            assert(j != i);
            if j < i {
                assert(s2[j].id == k);
            } else {
                assert(s2[j - 1].id == k);
            }
        }
    }
}

/// Finds the first activity whose id matches `activity_id`, if any.
pub fn find_activity(activities: &Vec<Activity>, activity_id: Option<usize>) -> (r: Option<
    &Activity,
>)
    ensures
        activity_id is None ==> r is None,
        activity_id matches Some(id) ==> {
            &&& r is Some <==> used_id(acts_view(activities@), id as nat)
            &&& r matches Some(a) ==> {
                &&& a@.id == id as nat
                &&& exists|i: int|
                    0 <= i < activities@.len() && acts_view(activities@)[i] == a@
                &&& unique_ids(acts_view(activities@)) ==> a@ == acts_view(activities@)[index_of_id(
                    acts_view(activities@),
                    id as nat,
                )]
            }
        },
{
    match activity_id {
        None => None,
        Some(id) => {
            let ghost s = acts_view(activities@);
            let mut i: usize = 0;
            while i < activities.len()
                invariant
                    i <= activities@.len(),
                    s == acts_view(activities@),
                    activity_id == Some(id),
                    forall|j: int| 0 <= j < i ==> s[j].id != id as nat,
                decreases activities@.len() - i,
            {
                if activities[i].id == id {
                    proof {
                        assert(s[i as int] == activities@[i as int]@);
                        if unique_ids(s) {
                            lemma_index_of_id(s, id as nat, i as int);
                        }
                    }
                    return Some(&activities[i]);
                }
                i += 1;
            }
            None
        },
    }
}

/// The activity catalog.  Well-formedness (`unique_ids`) is stated as a
/// precondition of the mutating operations and re-established by each.
pub struct Catalog {
    entries: Vec<Activity>,
}

impl View for Catalog {
    type V = Seq<ActivityView>;

    closed spec fn view(&self) -> Seq<ActivityView> {
        acts_view(self.entries@)
    }
}

impl Catalog {
    /// The empty catalog.
    pub fn new() -> (c: Catalog)
        ensures
            c@ == Seq::<ActivityView>::empty(),
    {
        let c = Catalog { entries: Vec::new() };
        proof {
            assert(c@ =~= Seq::<ActivityView>::empty());
        }
        c
    }

    /// Wraps an already-built entry list; the caller is responsible for
    /// checking `unique_ids` before using the mutating operations.
    pub(crate) fn from_entries(entries: Vec<Activity>) -> (c: Catalog)
        ensures
            c@ == acts_view(entries@),
    {
        Catalog { entries }
    }

    /// Number of entries.
    pub fn len(&self) -> (n: usize)
        ensures
            n == self@.len(),
    {
        self.entries.len()
    }

    /// The entries in insertion order.
    pub fn list(&self) -> (r: &Vec<Activity>)
        ensures
            acts_view(r@) == self@,
    {
        &self.entries
    }

    /// Index of the first entry carrying `id`.
    pub fn index_of(&self, id: usize) -> (r: Option<usize>)
        ensures
            r matches Some(i) ==> i < self@.len() && self@[i as int].id == id as nat,
            r is None ==> !used_id(self@, id as nat),
    {
        let mut i: usize = 0;
        while i < self.entries.len()
            invariant
                i <= self@.len(),
                forall|j: int| 0 <= j < i ==> self@[j].id != id as nat,
            decreases self@.len() - i,
        {
            if self.entries[i].id == id {
                return Some(i);
            }
            i += 1;
        }
        None
    }

    /// Whether some entry carries `id`.
    pub fn contains_id(&self, id: usize) -> (b: bool)
        ensures
            b == used_id(self@, id as nat),
    {
        match self.index_of(id) {
            Some(i) => {
                proof {
                    assert(used_id(self@, id as nat));
                }
                true
            },
            None => false,
        }
    }

    /// Looks an entry up by id.
    pub fn find(&self, id: usize) -> (r: Option<&Activity>)
        requires
            unique_ids(self@),
        ensures
            r is Some <==> used_id(self@, id as nat),
            r matches Some(a) ==> a@ == self@[index_of_id(self@, id as nat)],
    {
        find_activity(&self.entries, Some(id))
    }

    /// The minimum excluded value of the ids in use.
    fn mex(&self) -> (m: usize)
        ensures
            is_mex(self@, m as nat),
            m <= self@.len(),
    {
        let n = self.entries.len();
        let mut m: usize = 0;
        loop
            invariant
                m <= n,
                n == self@.len(),
                forall|k: nat| k < m as nat ==> used_id(self@, k),
            decreases n - m,
        {
            if !self.contains_id(m) {
                return m;
            }
            proof {
                assert forall|k: nat| k < m as nat + 1 implies used_id(self@, k) by {
                    if k < m as nat {
                    } else {
                        assert(k == m as nat);
                    }
                }
                lemma_used_ids_bound(self@, m as nat + 1);
            }
            m = m + 1;
        }
    }

    /// Inserts a new activity under the mex of the ids in use and returns
    /// the new id.
    pub fn add(&mut self, name: String, url: String, class_type: ClassType) -> (id: usize)
        requires
            unique_ids(old(self)@),
        ensures
            id as nat == spec_mex(old(self)@),
            is_mex(old(self)@, id as nat),
            final(self)@ == old(self)@.push(
                ActivityView { id: id as nat, name: name@, url: url@, class_type },
            ),
            unique_ids(final(self)@),
    {
        let id = self.mex();
        let ghost prev = self@;
        let a = Activity { id, name, url, class_type };
        self.entries.push(a);
        proof {
            lemma_mex_value(prev, id as nat);
            assert(self@ =~= prev.push(
                ActivityView { id: id as nat, name: name@, url: url@, class_type },
            ));
            assert forall|i: int, j: int| 0 <= i < j < self@.len() implies self@[i].id
                != self@[j].id by {
                if j < prev.len() {
                } else {
                    assert(self@[j].id == id as nat);
                    if self@[i].id == id as nat {
                        assert(used_id(prev, id as nat));
                    }
                }
            }
        }
        id
    }

    /// Replaces the fields of the entry carrying `id`; reports `NotFound`
    /// and leaves the catalog unchanged when no entry carries it.
    pub fn update(&mut self, id: usize, name: String, url: String, class_type: ClassType) -> (r:
        Result<(), SchedulerError>)
        requires
            unique_ids(old(self)@),
        ensures
            used_id(old(self)@, id as nat) ==> r is Ok && final(self)@ == old(self)@.update(
                index_of_id(old(self)@, id as nat),
                ActivityView { id: id as nat, name: name@, url: url@, class_type },
            ),
            !used_id(old(self)@, id as nat) ==> r == Result::<(), SchedulerError>::Err(
                SchedulerError::NotFound,
            ) && final(self)@ == old(self)@,
            unique_ids(final(self)@),
    {
        let ghost prev = self@;
        match self.index_of(id) {
            Some(i) => {
                let a = Activity { id, name, url, class_type };
                self.entries.set(i, a);
                proof {
                    lemma_index_of_id(prev, id as nat, i as int);
                    assert(self@ =~= prev.update(
                        i as int,
                        ActivityView { id: id as nat, name: name@, url: url@, class_type },
                    ));
                    assert forall|x: int, y: int| 0 <= x < y < self@.len() implies self@[x].id
                        != self@[y].id by {
                        assert(prev[x].id != prev[y].id);
                        assert(self@[x].id == prev[x].id);
                        assert(self@[y].id == prev[y].id);
                    }
                }
                Ok(())
            },
            None => Err(SchedulerError::NotFound),
        }
    }

    /// Deletes the entry carrying `id`; a no-op when no entry carries it,
    /// so removal is idempotent.
    pub fn remove(&mut self, id: usize)
        requires
            unique_ids(old(self)@),
        ensures
            used_id(old(self)@, id as nat) ==> final(self)@ == old(self)@.remove(
                index_of_id(old(self)@, id as nat),
            ),
            !used_id(old(self)@, id as nat) ==> final(self)@ == old(self)@,
            !used_id(final(self)@, id as nat),
            unique_ids(final(self)@),
    {
        let ghost prev = self@;
        match self.index_of(id) {
            Some(i) => {
                self.entries.remove(i);
                proof {
                    lemma_index_of_id(prev, id as nat, i as int);
                    assert(self@ =~= prev.remove(i as int));
                    assert forall|x: int, y: int| 0 <= x < y < self@.len() implies self@[x].id
                        != self@[y].id by {
                        let px: int = if x < i { x } else { x + 1 };
                        let py: int = if y < i { y } else { y + 1 };
                        assert(self@[x] == prev[px]);
                        assert(self@[y] == prev[py]);
                    }
                    assert forall|j: int| 0 <= j < self@.len() implies self@[j].id
                        != id as nat by {
                        let pj: int = if j < i { j } else { j + 1 };
                        assert(self@[j] == prev[pj]);
                        assert(prev[pj].id != prev[i as int].id);
                    }
                }
            },
            None => {},
        }
    }
}

} // verus!
