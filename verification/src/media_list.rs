//! The list of media items that the grids, the viewer and the albums share,
//! together with the record of every change made to it.
//!
//! A widget-side list store mirrors the list by replaying the recorded edits.

use crate::media::MediaItem;
use vstd::prelude::*;

verus! {

/// One change of the list: at `position`, `removed` items went away and the
/// items of `added` took their place.
pub struct ListEdit {
    pub position: u32,
    pub removed: u32,
    pub added: Vec<MediaItem>,
}

/// The meaning of a `ListEdit`.
pub struct EditView {
    pub position: int,
    pub removed: int,
    pub added: Seq<MediaItem>,
}

impl View for ListEdit {
    type V = EditView;

    open spec fn view(&self) -> EditView {
        EditView {
            position: self.position as int,
            removed: self.removed as int,
            added: self.added@,
        }
    }
}

/// The items of a list and the edits made to it so far, oldest first.
#[verifier::ext_equal]
pub struct ListState {
    pub items: Seq<MediaItem>,
    pub log: Seq<EditView>,
}

/// The items after one edit.
pub open spec fn edited(items: Seq<MediaItem>, edit: EditView) -> Seq<MediaItem> {
    items.subrange(0, edit.position) + edit.added + items.subrange(
        edit.position + edit.removed,
        items.len() as int,
    )
}

/// Does an edit stay inside a list of `items`?
pub open spec fn edit_fits(items: Seq<MediaItem>, edit: EditView) -> bool {
    0 <= edit.position && 0 <= edit.removed && edit.position + edit.removed <= items.len()
}

impl ListState {
    /// The list after one more edit.
    pub open spec fn splice(self, position: int, removed: int, added: Seq<MediaItem>) -> ListState {
        let edit = EditView { position, removed, added };
        ListState { items: edited(self.items, edit), log: self.log.push(edit) }
    }

    /// The list after inserting one item.
    pub open spec fn insert(self, position: int, item: MediaItem) -> ListState {
        self.splice(position, 0, seq![item])
    }

    /// The list after removing one item.
    pub open spec fn remove(self, position: int) -> ListState {
        self.splice(position, 1, Seq::<MediaItem>::empty())
    }
}

/// The items after a sequence of edits.
pub open spec fn replay(items: Seq<MediaItem>, edits: Seq<EditView>) -> Seq<MediaItem>
    decreases edits.len(),
{
    if edits.len() == 0 {
        items
    } else {
        edited(replay(items, edits.drop_last()), edits.last())
    }
}

/// Did the list go from `before` to `after` by exactly the edits it recorded
/// since?
pub open spec fn recorded(before: ListState, after: ListState) -> bool {
    &&& before.log.len() <= after.log.len()
    &&& after.log.subrange(0, before.log.len() as int) == before.log
    &&& after.items == replay(
        before.items,
        after.log.subrange(before.log.len() as int, after.log.len() as int),
    )
}

/// The media list.
pub struct MediaList {
    items: Vec<MediaItem>,
    edits: Vec<ListEdit>,
}

impl View for MediaList {
    type V = ListState;

    closed spec fn view(&self) -> ListState {
        ListState {
            items: self.items@,
            log: Seq::new(self.edits@.len(), |i: int| self.edits@[i]@),
        }
    }
}

impl MediaList {
    /// Positions in the list are 32 bit numbers.
    pub open spec fn wf(self) -> bool {
        self@.items.len() <= u32::MAX
    }

    /// An empty list without history.
    pub fn new() -> (list: MediaList)
        ensures
            list.wf(),
            list@.items == Seq::<MediaItem>::empty(),
            list@.log == Seq::<EditView>::empty(),
    {
        let list = MediaList { items: Vec::new(), edits: Vec::new() };
        assert(list@.log =~= Seq::<EditView>::empty());
        list
    }

    /// A list that starts out holding `items`, without history.
    pub fn with_items(items: Vec<MediaItem>) -> (list: MediaList)
        requires
            items@.len() <= u32::MAX,
        ensures
            list.wf(),
            list@.items == items@,
            list@.log == Seq::<EditView>::empty(),
    {
        let list = MediaList { items, edits: Vec::new() };
        assert(list@.log =~= Seq::<EditView>::empty());
        list
    }

    /// Number of items.
    pub fn n_items(&self) -> (count: u32)
        requires
            self.wf(),
        ensures
            count == self@.items.len(),
    {
        self.items.len() as u32
    }

    /// The item at `index`, borrowed.
    pub fn item(&self, index: u32) -> (item: Option<&MediaItem>)
        ensures
            item is Some <==> index < self@.items.len(),
            item matches Some(found) ==> *found == self@.items[index as int],
    {
        if (index as usize) < self.items.len() {
            Some(&self.items[index as usize])
        } else {
            None
        }
    }

    /// All items, borrowed.
    pub fn items(&self) -> (items: &Vec<MediaItem>)
        ensures
            items@ == self@.items,
    {
        &self.items
    }

    /// The edits recorded so far, oldest first, as position, number of items
    /// removed and number of items added.
    pub fn signals(&self) -> (signals: Vec<(u32, u32, u32)>)
        requires
            forall|i: int|
                0 <= i < self@.log.len() ==> (#[trigger] self@.log[i]).added.len() <= u32::MAX,
        ensures
            signals@.len() == self@.log.len(),
            forall|i: int|
                0 <= i < signals@.len() ==> {
                    let (position, removed, added) = #[trigger] signals@[i];
                    &&& position == self@.log[i].position
                    &&& removed == self@.log[i].removed
                    &&& added == self@.log[i].added.len()
                },
    {
        let mut signals: Vec<(u32, u32, u32)> = Vec::new();
        let mut i: usize = 0;
        while i < self.edits.len()
            invariant
                i <= self.edits@.len(),
                signals@.len() == i,
                self.edits@.len() == self@.log.len(),
                forall|k: int|
                    0 <= k < self@.log.len() ==> (#[trigger] self@.log[k]).added.len() <= u32::MAX,
                forall|k: int|
                    0 <= k < i ==> {
                        let (position, removed, added) = #[trigger] signals@[k];
                        &&& position == self@.log[k].position
                        &&& removed == self@.log[k].removed
                        &&& added == self@.log[k].added.len()
                    },
            decreases self.edits@.len() - i,
        {
            let edit: &ListEdit = &self.edits[i];
            assert(self@.log[i as int] == edit@);
            signals.push((edit.position, edit.removed, edit.added.len() as u32));
            i += 1;
        }
        signals
    }

    /// The edits recorded so far, oldest first.
    pub fn edits(&self) -> (edits: &Vec<ListEdit>)
        ensures
            edits@.len() == self@.log.len(),
            forall|i: int| 0 <= i < edits@.len() ==> (#[trigger] edits@[i])@ == self@.log[i],
    {
        &self.edits
    }

    /// Forget the edits recorded so far; the items stay.
    pub fn clear_edits(&mut self)
        ensures
            final(self)@.items == old(self)@.items,
            final(self)@.log == Seq::<EditView>::empty(),
    {
        self.edits = Vec::new();
        assert(self@.log =~= Seq::<EditView>::empty());
    }

    /// Replace `removed` items at `position` by `added`, as one edit.
    pub fn splice(&mut self, position: u32, removed: u32, added: Vec<MediaItem>)
        requires
            old(self).wf(),
            position + removed <= old(self)@.items.len(),
            old(self)@.items.len() - removed + added@.len() <= u32::MAX,
        ensures
            final(self).wf(),
            final(self)@ == old(self)@.splice(position as int, removed as int, added@),
    {
        let ghost before = *self;
        let start: usize = position as usize;
        let mut tail: Vec<MediaItem> = self.items.split_off(start);
        let mut rest: Vec<MediaItem> = tail.split_off(removed as usize);
        let mut middle: Vec<MediaItem> = clone_items(&added);
        self.items.append(&mut middle);
        self.items.append(&mut rest);
        proof {
            let edit = EditView {
                position: position as int,
                removed: removed as int,
                added: added@,
            };
            assert(self.items@ =~= edited(before.items@, edit));
        }
        self.record(position, removed, added);
    }

    /// Insert `item` at `position`, as one edit.
    pub fn insert(&mut self, position: u32, item: MediaItem)
        requires
            old(self).wf(),
            position <= old(self)@.items.len() < u32::MAX,
        ensures
            final(self).wf(),
            final(self)@ == old(self)@.insert(position as int, item),
    {
        let ghost before = *self;
        let mut added: Vec<MediaItem> = Vec::new();
        added.push(item.clone());
        self.items.insert(position as usize, item);
        proof {
            let edit = EditView { position: position as int, removed: 0, added: added@ };
            assert(added@ =~= seq![item]);
            assert(self.items@ =~= edited(before.items@, edit));
        }
        self.record(position, 0, added);
    }

    /// Remove the item at `position`, as one edit.
    pub fn remove(&mut self, position: u32)
        requires
            old(self).wf(),
            position < old(self)@.items.len(),
        ensures
            final(self).wf(),
            final(self)@ == old(self)@.remove(position as int),
    {
        let ghost before = *self;
        let added: Vec<MediaItem> = Vec::new();
        let _ = self.items.remove(position as usize);
        proof {
            let edit = EditView { position: position as int, removed: 1, added: added@ };
            assert(added@ =~= Seq::<MediaItem>::empty());
            assert(self.items@ =~= edited(before.items@, edit));
        }
        self.record(position, 1, added);
    }

    /// Append `item`, as one edit.
    pub fn append(&mut self, item: MediaItem)
        requires
            old(self).wf(),
            old(self)@.items.len() < u32::MAX,
        ensures
            final(self).wf(),
            final(self)@ == old(self)@.insert(old(self)@.items.len() as int, item),
    {
        let end: u32 = self.n_items();
        self.insert(end, item);
    }

    fn record(&mut self, position: u32, removed: u32, added: Vec<MediaItem>)
        ensures
            final(self)@.items == old(self)@.items,
            final(self)@.log == old(self)@.log.push(
                EditView { position: position as int, removed: removed as int, added: added@ },
            ),
    {
        let ghost before = *self;
        self.edits.push(ListEdit { position, removed, added });
        assert(self@.log =~= before@.log.push(self.edits@.last()@));
    }
}

/// A copy of `items`.
pub fn clone_items(items: &Vec<MediaItem>) -> (copies: Vec<MediaItem>)
    ensures
        copies@ == items@,
{
    let mut copies: Vec<MediaItem> = Vec::new();
    let mut i: usize = 0;
    while i < items.len()
        invariant
            i <= items@.len(),
            copies@ =~= items@.subrange(0, i as int),
        decreases items@.len() - i,
    {
        copies.push(items[i].clone());
        i += 1;
    }
    copies
}

/// Read a media item by position; `None` past the end.
pub fn media_item_at(list: &MediaList, index: u32) -> (item: Option<MediaItem>)
    ensures
        item is Some <==> index < list@.items.len(),
        item matches Some(found) ==> found == list@.items[index as int],
{
    match list.item(index) {
        Some(item) => Some(item.clone()),
        None => None,
    }
}

/// Recording one more edit keeps the record exact.
pub proof fn splice_is_recorded(
    before: ListState,
    after: ListState,
    position: int,
    removed: int,
    added: Seq<MediaItem>,
)
    requires
        recorded(before, after),
    ensures
        recorded(before, after.splice(position, removed, added)),
{
    let next = after.splice(position, removed, added);
    let n = before.log.len() as int;
    let new = next.log.subrange(n, next.log.len() as int);
    assert(new.drop_last() =~= after.log.subrange(n, after.log.len() as int));
    assert(new.last() == next.log.last());
    assert(next.log.subrange(0, n) =~= before.log);
}

/// A list that nothing happened to is recorded exactly.
pub proof fn unchanged_is_recorded(state: ListState)
    ensures
        recorded(state, state),
{
    assert(state.log.subrange(0, state.log.len() as int) =~= state.log);
    assert(state.log.subrange(state.log.len() as int, state.log.len() as int).len() == 0);
}

/// An edit touches nothing but its range: what stands in front of it stays, the
/// added items take the place of the removed ones, and what stands behind them
/// moves up or down together.
pub proof fn edits_touch_only_their_range(items: Seq<MediaItem>, edit: EditView)
    requires
        edit_fits(items, edit),
    ensures
        edited(items, edit).len() == items.len() - edit.removed + edit.added.len(),
        forall|i: int| 0 <= i < edit.position ==> #[trigger] edited(items, edit)[i] == items[i],
        forall|i: int|
            0 <= i < edit.added.len() ==> edited(items, edit)[edit.position + i]
                == #[trigger] edit.added[i],
        forall|i: int|
            edit.position + edit.removed <= i < items.len() ==> edited(
                items,
                edit,
            )[i - edit.removed + edit.added.len()] == #[trigger] items[i],
{
}

/// Inserting an item puts it at its position, in front of what stood there.
/// Removing it again restores the items.
pub proof fn inserting_and_removing_restores_the_items(
    state: ListState,
    position: int,
    item: MediaItem,
)
    requires
        0 <= position <= state.items.len(),
    ensures
        state.insert(position, item).items.len() == state.items.len() + 1,
        state.insert(position, item).items[position] == item,
        position < state.items.len() ==> state.insert(position, item).items[position + 1]
            == state.items[position],
        state.insert(position, item).remove(position).items == state.items,
{
    assert(state.insert(position, item).remove(position).items =~= state.items);
}

} // verus!
