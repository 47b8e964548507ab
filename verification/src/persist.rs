//! The persistence record: a version-tagged snapshot of the catalog and the
//! grid.  Saving and loading are proved to round-trip on every well-formed
//! state; the loader rejects records that would break the state invariant,
//! so a damaged file makes the caller start empty instead of crashing.
use vstd::prelude::*;

use crate::activity::Activity;
use crate::activity::ActivityView;
use crate::catalog::Catalog;
use crate::catalog::acts_view;
use crate::catalog::find_activity;
use crate::catalog::unique_ids;
use crate::catalog::used_id;
use crate::grid::GRID_CELLS;
use crate::grid::ScheduleGrid;
use crate::grid::SlotBinding;
use crate::grid::SlotBindingView;
use crate::grid::cell_view;
use crate::grid::cells_view;
use crate::grid::refs_live;

verus! {

/// The format version written today.
pub const FORMAT_VERSION: u32 = 1;

/// The on-disk record: a format version, the catalog entries in insertion
/// order, and the 30 grid cells day-major.
pub struct PersistRecord {
    pub version: u32,
    pub activities: Vec<Activity>,
    pub plan: Vec<Option<SlotBinding>>,
}

/// Mathematical model of a record.
#[verifier::ext_equal]
pub ghost struct PersistRecordView {
    pub version: int,
    pub activities: Seq<ActivityView>,
    pub plan: Seq<Option<SlotBindingView>>,
}

impl View for PersistRecord {
    type V = PersistRecordView;

    open spec fn view(&self) -> PersistRecordView {
        PersistRecordView {
            version: self.version as int,
            activities: acts_view(self.activities@),
            plan: cells_view(self.plan@),
        }
    }
}

/// A record the loader accepts: current version, a full grid, distinct ids,
/// and no binding referencing a missing entry.
pub open spec fn valid_record(r: PersistRecordView) -> bool {
    &&& r.version == 1
    &&& r.plan.len() == 30
    &&& unique_ids(r.activities)
    &&& refs_live(r.activities, r.plan)
}

/// The record `save` writes for a given state.
pub open spec fn save_spec(
    catalog: Seq<ActivityView>,
    grid: Seq<Option<SlotBindingView>>,
) -> PersistRecordView {
    PersistRecordView { version: 1, activities: catalog, plan: grid }
}

/// The state `load` restores from a record, if any.
pub open spec fn load_spec(r: PersistRecordView) -> Option<
    (Seq<ActivityView>, Seq<Option<SlotBindingView>>),
> {
    if valid_record(r) {
        Some((r.activities, r.plan))
    } else {
        None
    }
}

/// Round trip: loading what was saved restores the state exactly, for every
/// well-formed state, the empty one and a fully bound grid included.
pub proof fn lemma_save_load_round_trip(
    catalog: Seq<ActivityView>,
    grid: Seq<Option<SlotBindingView>>,
)
    requires
        unique_ids(catalog),
        grid.len() == 30,
        refs_live(catalog, grid),
    ensures
        load_spec(save_spec(catalog, grid)) == Some((catalog, grid)),
{
}

/// Snapshots the state into a record.
pub fn save(catalog: &Catalog, grid: &ScheduleGrid) -> (r: PersistRecord)
    ensures
        r@ == save_spec(catalog@, grid@),
{
    let activities = catalog.list().clone();
    let orig_cells = grid.cells();
    let plan = orig_cells.clone();
    proof {
        assert(acts_view(activities@) =~= catalog@);
        assert forall|i: int| 0 <= i < plan@.len() implies cell_view(plan@[i]) == cell_view(
            orig_cells@[i],
        ) by {
            let a = orig_cells@[i];
            let b = plan@[i];
            if a.is_some() {
                assert(cloned::<SlotBinding>(a.unwrap(), b.unwrap()));
            }
        }
        assert(cells_view(plan@) =~= grid@);
    }
    PersistRecord { version: FORMAT_VERSION, activities, plan }
}

/// Checks that the ids of `v` are pairwise distinct.
fn check_unique(v: &Vec<Activity>) -> (b: bool)
    ensures
        b == unique_ids(acts_view(v@)),
{
    let ghost s = acts_view(v@);
    let mut i: usize = 0;
    while i < v.len()
        invariant
            i <= v@.len(),
            s == acts_view(v@),
            forall|x: int, y: int| 0 <= x < y < i ==> s[x].id != s[y].id,
        decreases v@.len() - i,
    {
        let mut j: usize = 0;
        while j < i
            invariant
                j <= i < v@.len(),
                s == acts_view(v@),
                forall|x: int, y: int| 0 <= x < y < i ==> s[x].id != s[y].id,
                forall|x: int| 0 <= x < j ==> s[x].id != s[i as int].id,
            decreases i - j,
        {
            if v[j].id == v[i].id {
                proof {
                    assert(s[j as int].id == s[i as int].id);
                    assert(!unique_ids(s));
                }
                return false;
            }
            j += 1;
        }
        proof {
            assert forall|x: int, y: int| 0 <= x < y < i + 1 implies s[x].id != s[y].id by {
                if y < i {
                } else {
                    assert(y == i);
                }
            }
        }
        i += 1;
    }
    true
}

/// Checks that every binding of `plan` references an entry of `acts`.
fn check_refs(acts: &Vec<Activity>, plan: &Vec<Option<SlotBinding>>) -> (b: bool)
    ensures
        b == refs_live(acts_view(acts@), cells_view(plan@)),
{
    let ghost ca = acts_view(acts@);
    let ghost g = cells_view(plan@);
    let mut i: usize = 0;
    while i < plan.len()
        invariant
            i <= plan@.len(),
            ca == acts_view(acts@),
            g == cells_view(plan@),
            forall|j: int|
                0 <= j < i ==> (#[trigger] g[j] matches Some(b) ==> used_id(ca, b.activity_id)),
        decreases plan@.len() - i,
    {
        let live = match &plan[i] {
            Some(binding) => find_activity(acts, Some(binding.activity_id)).is_some(),
            None => true,
        };
        if !live {
            proof {
                assert(g[i as int] == cell_view(plan@[i as int]));
                assert(g[i as int] matches Some(b) && !used_id(ca, b.activity_id));
                assert(!refs_live(ca, g));
            }
            return false;
        }
        proof {
            assert(g[i as int] == cell_view(plan@[i as int]));
        }
        i += 1;
    }
    true
}

/// Restores the state from a record; rejects any record that would break
/// the state invariant, so the caller can start empty instead.
pub fn load(record: PersistRecord) -> (r: Option<(Catalog, ScheduleGrid)>)
    ensures
        match load_spec(record@) {
            Some(state) => {
                &&& r matches Some(cg)
                &&& cg.0@ == state.0
                &&& cg.1@ == state.1
            },
            None => r is None,
        },
{
    if record.version != FORMAT_VERSION {
        return None;
    }
    if record.plan.len() != GRID_CELLS {
        return None;
    }
    if !check_unique(&record.activities) {
        return None;
    }
    if !check_refs(&record.activities, &record.plan) {
        return None;
    }
    let PersistRecord { version, activities, plan } = record;
    let catalog = Catalog::from_entries(activities);
    let grid = ScheduleGrid::from_cells(plan);
    Some((catalog, grid))
}

} // verus!
