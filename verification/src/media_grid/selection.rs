//! Which photos are selected, and whether the grid is in multi-select mode.

use vstd::prelude::*;

verus! {

/// A set of media ids, kept sorted.
pub struct IdSet {
    ids: Vec<i64>,
}

impl View for IdSet {
    type V = Set<i64>;

    closed spec fn view(&self) -> Set<i64> {
        self.ids@.to_set()
    }
}

/// Are the numbers strictly increasing?
pub open spec fn increasing(ids: Seq<i64>) -> bool {
    forall|i: int, j: int| 0 <= i < j < ids.len() ==> ids[i] < ids[j]
}

impl IdSet {
    pub closed spec fn wf(self) -> bool {
        increasing(self.ids@)
    }

    /// The empty set.
    pub fn new() -> (set: IdSet)
        ensures
            set.wf(),
            set@ == Set::<i64>::empty(),
    {
        let set = IdSet { ids: Vec::new() };
        assert(set@ =~= Set::<i64>::empty());
        set
    }

    /// The set of the ids in `ids`.
    pub fn from_ids(ids: &Vec<i64>) -> (set: IdSet)
        ensures
            set.wf(),
            set@ == ids@.to_set(),
    {
        let mut set = IdSet::new();
        let mut i: usize = 0;
        while i < ids.len()
            invariant
                i <= ids@.len(),
                set.wf(),
                set@ == ids@.subrange(0, i as int).to_set(),
            decreases ids@.len() - i,
        {
            let _ = set.insert(ids[i]);
            proof {
                let now = ids@.subrange(0, i + 1);
                let before = ids@.subrange(0, i as int);
                assert forall|x: i64| now.to_set().contains(x) <==> before.to_set().insert(
                    ids@[i as int],
                ).contains(x) by {
                    if now.contains(x) {
                        let k = choose|k: int| 0 <= k < now.len() && now[k] == x;
                        if k < i {
                            assert(before[k] == x);
                        }
                    }
                    if before.contains(x) {
                        let k = choose|k: int| 0 <= k < before.len() && before[k] == x;
                        assert(now[k] == x);
                    }
                    assert(now[i as int] == ids@[i as int]);
                }
                assert(now.to_set() =~= before.to_set().insert(ids@[i as int]));
            }
            i += 1;
        }
        assert(ids@.subrange(0, ids@.len() as int) =~= ids@);
        set
    }

    /// Where `id` is, or would be.
    fn place_of(&self, id: i64) -> (place: usize)
        requires
            self.wf(),
        ensures
            place <= self.ids@.len(),
            forall|i: int| 0 <= i < place ==> self.ids@[i] < id,
            forall|i: int| place <= i < self.ids@.len() ==> self.ids@[i] >= id,
    {
        let mut low: usize = 0;
        let mut high: usize = self.ids.len();
        while low < high
            invariant
                increasing(self.ids@),
                low <= high <= self.ids@.len(),
                forall|i: int| 0 <= i < low ==> self.ids@[i] < id,
                forall|i: int| high <= i < self.ids@.len() ==> self.ids@[i] >= id,
            decreases high - low,
        {
            let middle: usize = low + (high - low) / 2;
            if self.ids[middle] < id {
                low = middle + 1;
            } else {
                high = middle;
            }
        }
        low
    }

    /// Is `id` in the set?
    pub fn contains(&self, id: i64) -> (found: bool)
        requires
            self.wf(),
        ensures
            found == self@.contains(id),
    {
        let place: usize = self.place_of(id);
        if place < self.ids.len() && self.ids[place] == id {
            assert(self.ids@.contains(self.ids@[place as int]));
            true
        } else {
            assert(!self.ids@.contains(id));
            false
        }
    }

    /// Put `id` in; `true` when it was not there.
    pub fn insert(&mut self, id: i64) -> (added: bool)
        requires
            old(self).wf(),
        ensures
            final(self).wf(),
            final(self)@ == old(self)@.insert(id),
            added == !old(self)@.contains(id),
    {
        if self.contains(id) {
            assert(self@ =~= old(self)@.insert(id));
            return false;
        }
        let place: usize = self.place_of(id);
        let ghost before = self.ids@;
        self.ids.insert(place, id);
        proof {
            let now = self.ids@;
            assert forall|x: i64| now.contains(x) <==> before.contains(x) || x == id by {
                if now.contains(x) {
                    let k = choose|k: int| 0 <= k < now.len() && now[k] == x;
                    if k < place {
                        assert(before[k] == x);
                    } else if k > place {
                        assert(before[k - 1] == x);
                    }
                }
                if before.contains(x) {
                    let k = choose|k: int| 0 <= k < before.len() && before[k] == x;
                    assert(now[if k < place { k } else { k + 1 }] == x);
                }
                assert(now[place as int] == id);
            }
            assert(self@ =~= old(self)@.insert(id));
            assert forall|i: int, j: int| 0 <= i < j < now.len() implies now[i] < now[j] by {
                if i != place && j != place {
                    let a = if i < place { i } else { i - 1 };
                    let b = if j < place { j } else { j - 1 };
                    assert(before[a] < before[b]);
                } else if j != place {
                    assert(now[j] == before[j - 1]);
                    assert(before[j - 1] != id) by {
                        assert(before.contains(before[j - 1]));
                    }
                }
            }
        }
        true
    }

    /// Take `id` out; `true` when it was there.
    pub fn remove(&mut self, id: i64) -> (removed: bool)
        requires
            old(self).wf(),
        ensures
            final(self).wf(),
            final(self)@ == old(self)@.remove(id),
            removed == old(self)@.contains(id),
    {
        if !self.contains(id) {
            assert(self@ =~= old(self)@.remove(id));
            return false;
        }
        let place: usize = self.place_of(id);
        let ghost before = self.ids@;
        proof {
            let k = choose|k: int| 0 <= k < before.len() && before[k] == id;
            assert(k == place) by {
                if k > place {
                    assert(before[place as int] < before[k]);
                }
            }
        }
        let _ = self.ids.remove(place);
        proof {
            let now = self.ids@;
            assert forall|x: i64| now.contains(x) <==> before.contains(x) && x != id by {
                if now.contains(x) {
                    let k = choose|k: int| 0 <= k < now.len() && now[k] == x;
                    let m = if k < place { k } else { k + 1 };
                    assert(before[m] == x);
                    if m < place {
                        assert(before[m] < before[place as int]);
                    } else {
                        assert(before[place as int] < before[m]);
                    }
                }
                if before.contains(x) && x != id {
                    let k = choose|k: int| 0 <= k < before.len() && before[k] == x;
                    assert(now[if k < place { k } else { k - 1 }] == x);
                }
            }
            assert(self@ =~= old(self)@.remove(id));
        }
        true
    }

    /// Is the set empty?
    pub fn is_empty(&self) -> (empty: bool)
        requires
            self.wf(),
        ensures
            empty == (self@ == Set::<i64>::empty()),
    {
        if self.ids.is_empty() {
            assert(self@ =~= Set::<i64>::empty());
            true
        } else {
            assert(self@.contains(self.ids@[0]));
            false
        }
    }

    /// The ids of the set, in increasing order.
    pub fn sorted(&self) -> (ids: Vec<i64>)
        requires
            self.wf(),
        ensures
            increasing(ids@),
            ids@.to_set() == self@,
    {
        let mut ids: Vec<i64> = Vec::new();
        let mut i: usize = 0;
        while i < self.ids.len()
            invariant
                i <= self.ids@.len(),
                ids@ =~= self.ids@.subrange(0, i as int),
            decreases self.ids@.len() - i,
        {
            ids.push(self.ids[i]);
            i += 1;
        }
        assert(ids@ =~= self.ids@);
        ids
    }

    fn is_subset_of(&self, other: &IdSet) -> (subset: bool)
        requires
            self.wf(),
            other.wf(),
        ensures
            subset == self@.subset_of(other@),
    {
        let mut i: usize = 0;
        while i < self.ids.len()
            invariant
                other.wf(),
                i <= self.ids@.len(),
                forall|k: int| 0 <= k < i ==> other@.contains(#[trigger] self.ids@[k]),
            decreases self.ids@.len() - i,
        {
            if !other.contains(self.ids[i]) {
                assert(self@.contains(self.ids@[i as int]));
                return false;
            }
            i += 1;
        }
        assert forall|x: i64| self@.contains(x) implies other@.contains(x) by {
            let k = choose|k: int| 0 <= k < self.ids@.len() && self.ids@[k] == x;
            assert(other@.contains(self.ids@[k]));
        }
        true
    }

    /// Do both sets hold the same ids?
    pub fn same_as(&self, other: &IdSet) -> (same: bool)
        requires
            self.wf(),
            other.wf(),
        ensures
            same == (self@ == other@),
    {
        let same: bool = self.is_subset_of(other) && other.is_subset_of(self);
        assert(same ==> self@ =~= other@);
        same
    }
}

/// The selection of a grid.
pub struct Selection {
    pub ids: IdSet,
    pub multi_select: bool,
}

/// How the section boxes react to selection.
#[derive(Clone, Copy, Debug, PartialEq, Eq, Structural)]
pub enum SelectionMode {
    Disabled,
    Multiple,
}

impl Selection {
    pub open spec fn wf(self) -> bool {
        self.ids.wf()
    }

    /// The selected ids.
    pub open spec fn selected(self) -> Set<i64> {
        self.ids@
    }

    /// Outside multi-select mode nothing is selected.
    pub open spec fn settled(self) -> bool {
        self.multi_select || self.selected() == Set::<i64>::empty()
    }

    /// Nothing selected, multi-select off.
    pub fn new() -> (selection: Selection)
        ensures
            selection.wf(),
            selection.settled(),
            selection.selected() == Set::<i64>::empty(),
            !selection.multi_select,
    {
        Selection { ids: IdSet::new(), multi_select: false }
    }

    /// Sections track a selection of their own only in multi-select mode, so
    /// that no tile shows a checkmark outside it.
    pub fn section_selection_mode(&self) -> (mode: SelectionMode)
        ensures
            mode == SelectionMode::Multiple <==> self.multi_select,
    {
        if self.multi_select {
            SelectionMode::Multiple
        } else {
            SelectionMode::Disabled
        }
    }

    /// Replace the selected ids; `true` when that changed them.
    fn replace(&mut self, next: IdSet) -> (changed: bool)
        requires
            old(self).wf(),
            next.wf(),
        ensures
            final(self).wf(),
            final(self).selected() == next@,
            final(self).multi_select == old(self).multi_select,
            changed == (old(self).selected() != next@),
    {
        if self.ids.same_as(&next) {
            false
        } else {
            self.ids = next;
            true
        }
    }

    /// Enter multi-select mode with every displayed photo selected. Returns
    /// whether the selection changed.
    pub fn select_all(&mut self, displayed: &Vec<i64>) -> (changed: bool)
        requires
            old(self).wf(),
        ensures
            final(self).wf(),
            final(self).settled(),
            final(self).multi_select,
            final(self).selected() == displayed@.to_set(),
            changed == (old(self).selected() != displayed@.to_set()),
    {
        self.multi_select = true;
        let next: IdSet = IdSet::from_ids(displayed);
        self.replace(next)
    }

    /// Select exactly `ids`, displayed or not; multi-select mode is on exactly
    /// when there are any. Returns whether the selection changed.
    pub fn select_ids(&mut self, ids: &Vec<i64>) -> (changed: bool)
        requires
            old(self).wf(),
        ensures
            final(self).wf(),
            final(self).settled(),
            final(self).multi_select == (ids@.len() > 0),
            final(self).selected() == ids@.to_set(),
            changed == (old(self).selected() != ids@.to_set()),
    {
        self.multi_select = !ids.is_empty();
        let next: IdSet = IdSet::from_ids(ids);
        assert(ids@.len() == 0 ==> ids@.to_set() =~= Set::<i64>::empty());
        self.replace(next)
    }

    /// Turn multi-select mode on or off. Turning it off clears the selection.
    /// Returns whether the selection changed.
    pub fn set_multi_select_mode(&mut self, enabled: bool) -> (changed: bool)
        requires
            old(self).wf(),
        ensures
            final(self).wf(),
            final(self).settled(),
            final(self).multi_select == enabled,
            final(self).selected() == if enabled {
                old(self).selected()
            } else {
                Set::<i64>::empty()
            },
            changed == (final(self).selected() != old(self).selected()),
    {
        self.multi_select = enabled;
        if enabled {
            false
        } else {
            self.clear_selection()
        }
    }

    /// Whether multi-select mode is on.
    pub fn is_multi_select_mode(&self) -> (enabled: bool)
        ensures
            enabled == self.multi_select,
    {
        self.multi_select
    }

    /// Select nothing and leave multi-select mode. Returns whether the
    /// selection changed.
    pub fn clear_selection(&mut self) -> (changed: bool)
        requires
            old(self).wf(),
        ensures
            final(self).wf(),
            final(self).settled(),
            !final(self).multi_select,
            final(self).selected() == Set::<i64>::empty(),
            changed == (old(self).selected() != Set::<i64>::empty()),
    {
        self.multi_select = false;
        if self.ids.is_empty() {
            false
        } else {
            self.ids = IdSet::new();
            true
        }
    }

    /// Are all displayed photos selected? Never so when none is displayed.
    pub fn is_all_displayed_selected(&self, displayed: &Vec<i64>) -> (all: bool)
        requires
            self.wf(),
        ensures
            all == (displayed@.len() > 0 && displayed@.to_set().subset_of(self.selected())),
    {
        if displayed.is_empty() {
            return false;
        }
        let mut i: usize = 0;
        while i < displayed.len()
            invariant
                self.wf(),
                i <= displayed@.len(),
                forall|k: int| 0 <= k < i ==> self.selected().contains(#[trigger] displayed@[k]),
            decreases displayed@.len() - i,
        {
            if !self.ids.contains(displayed[i]) {
                assert(displayed@.to_set().contains(displayed@[i as int]));
                return false;
            }
            i += 1;
        }
        assert forall|x: i64| displayed@.to_set().contains(x) implies self.selected().contains(
            x,
        ) by {
            let k = choose|k: int| 0 <= k < displayed@.len() && displayed@[k] == x;
            assert(self.selected().contains(displayed@[k]));
        }
        true
    }

    /// The selected ids.
    pub fn selected_ids(&self) -> (ids: Vec<i64>)
        requires
            self.wf(),
        ensures
            ids@.to_set() == self.selected(),
            increasing(ids@),
    {
        self.ids.sorted()
    }

    /// Prepare a context menu on the photo `media_id`: a click inside the
    /// selection keeps it, a click outside selects that photo alone. Returns
    /// the ids the menu acts on, and whether the selection changed.
    pub fn ensure_context_selection(&mut self, media_id: i64) -> (targets: (Vec<i64>, bool))
        requires
            old(self).wf(),
        ensures
            final(self).wf(),
            final(self).multi_select == old(self).multi_select,
            final(self).selected() == if old(self).selected().contains(media_id) {
                old(self).selected()
            } else {
                Set::<i64>::empty().insert(media_id)
            },
            targets.0@.to_set() == final(self).selected(),
            increasing(targets.0@),
            targets.1 == !old(self).selected().contains(media_id),
            old(self).multi_select ==> final(self).settled(),
    {
        let mut changed: bool = false;
        if !self.ids.contains(media_id) {
            let mut alone: IdSet = IdSet::new();
            let _ = alone.insert(media_id);
            self.ids = alone;
            changed = true;
        }
        (self.ids.sorted(), changed)
    }

    /// Flip whether `media_id` is selected. Returns whether it is now.
    pub fn toggle_selection(&mut self, media_id: i64) -> (now_selected: bool)
        requires
            old(self).wf(),
        ensures
            final(self).wf(),
            final(self).multi_select == old(self).multi_select,
            now_selected == !old(self).selected().contains(media_id),
            final(self).selected() == toggled(old(self).selected(), media_id),
            old(self).multi_select ==> final(self).settled(),
    {
        if self.ids.contains(media_id) {
            let _ = self.ids.remove(media_id);
            false
        } else {
            let _ = self.ids.insert(media_id);
            true
        }
    }

    /// Forget `media_id`; `true` when it was selected.
    pub fn deselect(&mut self, media_id: i64) -> (changed: bool)
        requires
            old(self).wf(),
        ensures
            final(self).wf(),
            final(self).multi_select == old(self).multi_select,
            final(self).selected() == old(self).selected().remove(media_id),
            changed == old(self).selected().contains(media_id),
            old(self).settled() ==> final(self).settled(),
    {
        let changed: bool = self.ids.remove(media_id);
        assert(Set::<i64>::empty().remove(media_id) =~= Set::<i64>::empty());
        changed
    }
}

/// The selection after a toggle of `id`.
pub open spec fn toggled(selected: Set<i64>, id: i64) -> Set<i64> {
    if selected.contains(id) { selected.remove(id) } else { selected.insert(id) }
}

/// Toggling a photo twice leaves the selection as it was.
pub proof fn toggling_twice_changes_nothing(selected: Set<i64>, id: i64)
    ensures
        toggled(toggled(selected, id), id) == selected,
{
    assert(toggled(toggled(selected, id), id) =~= selected);
}

/// A toggle changes whether that photo is selected, and nothing else.
pub proof fn toggles_change_one_photo(selected: Set<i64>, id: i64, other: i64)
    ensures
        toggled(selected, id).contains(id) == !selected.contains(id),
        other != id ==> toggled(selected, id).contains(other) == selected.contains(other),
{
}

} // verus!
