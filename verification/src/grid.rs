//! The schedule grid: a fixed 5 x 6 matrix of optional slot bindings,
//! indexed by `(day, slot)`.  A binding references a catalog entry by id and
//! caches the entry's name at assignment time as its display label.
use vstd::prelude::*;

use crate::activity::ActivityView;
use crate::catalog::Catalog;
use crate::catalog::index_of_id;
use crate::catalog::unique_ids;
use crate::catalog::used_id;

verus! {

/// Week days with a column in the grid.
pub const DAYS: usize = 5;

/// Two-hour blocks per day, starting at 08:00.
pub const SLOTS_PER_DAY: usize = 6;

/// Cells in the whole grid.
pub const GRID_CELLS: usize = 30;

/// One filled grid cell: the referenced activity and the label cached for
/// rendering when the binding was made.
pub struct SlotBinding {
    pub activity_id: usize,
    pub display_label: String,
}

/// Mathematical model of a `SlotBinding`.
#[verifier::ext_equal]
pub ghost struct SlotBindingView {
    pub activity_id: nat,
    pub display_label: Seq<char>,
}

impl View for SlotBinding {
    type V = SlotBindingView;

    open spec fn view(&self) -> SlotBindingView {
        SlotBindingView { activity_id: self.activity_id as nat, display_label: self.display_label@ }
    }
}

impl Clone for SlotBinding {
    fn clone(&self) -> (r: Self)
        ensures
            r == *self,
    {
        SlotBinding { activity_id: self.activity_id, display_label: self.display_label.clone() }
    }
}

/// The model of one cell.
pub open spec fn cell_view(c: Option<SlotBinding>) -> Option<SlotBindingView> {
    match c {
        Some(b) => Some(b@),
        None => None,
    }
}

/// The model of a cell list.
pub open spec fn cells_view(cells: Seq<Option<SlotBinding>>) -> Seq<Option<SlotBindingView>> {
    cells.map_values(|c: Option<SlotBinding>| cell_view(c))
}

/// The flat index of `(day, slot)`, day-major.
pub open spec fn spec_slot_index(day: int, slot: int) -> int {
    day * 6 + slot
}

/// `g` with every binding that references `id` cleared.
pub open spec fn cleared_of(g: Seq<Option<SlotBindingView>>, id: nat) -> Seq<
    Option<SlotBindingView>,
> {
    g.map_values(
        |c: Option<SlotBindingView>|
            match c {
                Some(b) => if b.activity_id == id {
                    None
                } else {
                    Some(b)
                },
                None => None,
            },
    )
}

/// Every binding of `g` references a live catalog entry.
pub open spec fn refs_live(cat: Seq<ActivityView>, g: Seq<Option<SlotBindingView>>) -> bool {
    forall|i: int|
        0 <= i < g.len() ==> (#[trigger] g[i] matches Some(b) ==> used_id(cat, b.activity_id))
}

/// The 5 x 6 schedule grid, stored day-major as 30 optional bindings.
pub struct ScheduleGrid {
    cells: Vec<Option<SlotBinding>>,
}

impl View for ScheduleGrid {
    type V = Seq<Option<SlotBindingView>>;

    closed spec fn view(&self) -> Seq<Option<SlotBindingView>> {
        cells_view(self.cells@)
    }
}

impl ScheduleGrid {
    /// The empty grid: 30 empty cells.
    pub fn new() -> (g: ScheduleGrid)
        ensures
            g@.len() == 30,
            forall|i: int| 0 <= i < 30 ==> g@[i] is None,
    {
        let mut cells: Vec<Option<SlotBinding>> = Vec::new();
        let mut k: usize = 0;
        while k < GRID_CELLS
            invariant
                k <= 30,
                cells@.len() == k,
                forall|i: int| 0 <= i < k ==> cells@[i] is None,
            decreases 30 - k,
        {
            cells.push(None);
            k += 1;
        }
        let g = ScheduleGrid { cells };
        proof {
            assert(forall|i: int| 0 <= i < 30 ==> g@[i] is None);
        }
        g
    }

    /// Wraps an already-built cell list.
    pub(crate) fn from_cells(cells: Vec<Option<SlotBinding>>) -> (g: ScheduleGrid)
        ensures
            g@ == cells_view(cells@),
    {
        ScheduleGrid { cells }
    }

    /// The cells in day-major order.
    pub fn cells(&self) -> (r: &Vec<Option<SlotBinding>>)
        ensures
            cells_view(r@) == self@,
    {
        &self.cells
    }

    /// The flat index of `(day, slot)`.
    pub fn slot_index(day: usize, slot: usize) -> (i: usize)
        requires
            day < 5,
            slot < 6,
        ensures
            i == spec_slot_index(day as int, slot as int),
            i < 30,
    {
        day * SLOTS_PER_DAY + slot
    }

    /// Reads the cell at `(day, slot)`.
    pub fn get(&self, day: usize, slot: usize) -> (r: &Option<SlotBinding>)
        requires
            self@.len() == 30,
            day < 5,
            slot < 6,
        ensures
            cell_view(*r) == self@[spec_slot_index(day as int, slot as int)],
    {
        let i = Self::slot_index(day, slot);
        &self.cells[i]
    }

    /// Binds `(day, slot)` to the catalog entry carrying `activity_id`,
    /// snapshotting its current name as the display label; clears the cell
    /// when no entry carries that id.
    pub fn assign(&mut self, day: usize, slot: usize, activity_id: usize, catalog: &Catalog)
        requires
            old(self)@.len() == 30,
            day < 5,
            slot < 6,
            unique_ids(catalog@),
        ensures
            used_id(catalog@, activity_id as nat) ==> final(self)@ == old(self)@.update(
                spec_slot_index(day as int, slot as int),
                Some(
                    SlotBindingView {
                        activity_id: activity_id as nat,
                        display_label: catalog@[index_of_id(catalog@, activity_id as nat)].name,
                    },
                ),
            ),
            !used_id(catalog@, activity_id as nat) ==> final(self)@ == old(self)@.update(
                spec_slot_index(day as int, slot as int),
                None,
            ),
    {
        let i = Self::slot_index(day, slot);
        match catalog.find(activity_id) {
            Some(a) => {
                let b = SlotBinding { activity_id, display_label: a.name.clone() };
                self.cells.set(i, Some(b));
                proof {
                    assert(final(self)@ =~= old(self)@.update(
                        i as int,
                        Some(
                            SlotBindingView {
                                activity_id: activity_id as nat,
                                display_label: catalog@[index_of_id(
                                    catalog@,
                                    activity_id as nat,
                                )].name,
                            },
                        ),
                    ));
                }
            },
            None => {
                self.cells.set(i, None);
                proof {
                    assert(final(self)@ =~= old(self)@.update(i as int, None));
                }
            },
        }
    }

    /// Empties the cell at `(day, slot)`.
    pub fn clear(&mut self, day: usize, slot: usize)
        requires
            old(self)@.len() == 30,
            day < 5,
            slot < 6,
        ensures
            final(self)@ == old(self)@.update(spec_slot_index(day as int, slot as int), None),
    {
        let i = Self::slot_index(day, slot);
        self.cells.set(i, None);
        proof {
            assert(final(self)@ =~= old(self)@.update(i as int, None));
        }
    }

    /// Clears every binding that references `activity_id`.  Called in the
    /// same logical step as the catalog removal of that id.
    pub fn on_activity_removed(&mut self, activity_id: usize)
        ensures
            final(self)@ == cleared_of(old(self)@, activity_id as nat),
    {
        let ghost orig_cells = self.cells@;
        let ghost target = cleared_of(old(self)@, activity_id as nat);
        let n = self.cells.len();
        let mut i: usize = 0;
        while i < n
            invariant
                i <= n,
                n == self.cells@.len(),
                n == orig_cells.len(),
                target == cleared_of(cells_view(orig_cells), activity_id as nat),
                forall|j: int| 0 <= j < i ==> cell_view(self.cells@[j]) == target[j],
                forall|j: int| i <= j < n ==> self.cells@[j] == orig_cells[j],
            decreases n - i,
        {
            let ghost pre = self.cells@;
            let needs_clear = match &self.cells[i] {
                Some(b) => b.activity_id == activity_id,
                None => false,
            };
            if needs_clear {
                self.cells.set(i, None);
            }
            proof {
                assert(cells_view(orig_cells)[i as int] == cell_view(orig_cells[i as int]));
                assert(pre[i as int] == orig_cells[i as int]);
                if needs_clear {
                    assert(cell_view(self.cells@[i as int]) == target[i as int]);
                } else {
                    assert(self.cells@[i as int] == pre[i as int]);
                    assert(cell_view(self.cells@[i as int]) == target[i as int]);
                }
            }
            i += 1;
        }
        proof {
            assert(final(self)@ =~= cleared_of(old(self)@, activity_id as nat));
        }
    }
}

} // verus!
