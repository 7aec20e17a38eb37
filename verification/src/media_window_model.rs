//! A window onto the photos that answer a query: one page of them at a time.

use crate::albums::album::MediaQuery;
use crate::media::MediaItem;
use crate::media_grid::selection::IdSet;
use crate::media_list::MediaList;
#[allow(unused_imports)]
use crate::media_list::ListState;
use vstd::prelude::*;

verus! {

/// A page of photos, as the library hands it out.
pub struct MediaPage {
    pub start: u32,
    pub total: u32,
    pub items: Vec<MediaItem>,
}

/// The ids of a list of photos.
pub open spec fn ids_of(items: Seq<MediaItem>) -> Seq<i64> {
    items.map_values(|item: MediaItem| item.id)
}

/// A window onto the photos that answer a query.
pub struct MediaWindowModel {
    query: MediaQuery,
    page_size: u32,
    window_start: u32,
    total: u32,
    generation: u64,
    ids_in_window: Vec<i64>,
    selected: IdSet,
    store: MediaList,
}

/// What a window holds.
#[verifier::ext_equal]
pub struct WindowView {
    pub query: MediaQuery,
    pub page_size: u32,
    pub window_start: u32,
    pub total: u32,
    pub generation: u64,
    pub selected: Set<i64>,
    pub store: ListState,
}

impl View for MediaWindowModel {
    type V = WindowView;

    closed spec fn view(&self) -> WindowView {
        WindowView {
            query: self.query,
            page_size: self.page_size,
            window_start: self.window_start,
            total: self.total,
            generation: self.generation,
            selected: self.selected@,
            store: self.store@,
        }
    }
}

impl WindowView {
    /// The window after a page was read.
    pub open spec fn turned_to(self, page: MediaPage) -> WindowView {
        WindowView {
            window_start: page.start,
            total: page.total,
            generation: next_generation(self.generation),
            store: self.store.splice(0, self.store.items.len() as int, page.items@),
            ..self
        }
    }
}

/// The generation after another one.
pub open spec fn next_generation(generation: u64) -> u64 {
    if generation == u64::MAX {
        generation
    } else {
        (generation + 1) as u64
    }
}

impl MediaWindowModel {
    /// The ids kept are those of the photos in the store.
    pub closed spec fn wf(self) -> bool {
        &&& self.selected.wf()
        &&& self.store.wf()
        &&& self.ids_in_window@ == ids_of(self.store@.items)
    }

    /// A window that holds nothing yet.
    pub fn new(query: MediaQuery, page_size: u32) -> (model: MediaWindowModel)
        ensures
            model.wf(),
            model@.query == query,
            model@.page_size == page_size,
            model@.window_start == 0,
            model@.total == 0,
            model@.generation == 0,
            model@.selected == Set::<i64>::empty(),
            model@.store.items == Seq::<MediaItem>::empty(),
    {
        let model = MediaWindowModel {
            query,
            page_size,
            window_start: 0,
            total: 0,
            generation: 0,
            ids_in_window: Vec::new(),
            selected: IdSet::new(),
            store: MediaList::new(),
        };
        assert(model.ids_in_window@ =~= ids_of(model.store@.items));
        model
    }

    /// What a page is read with: the query and the size of a page.
    pub fn page_query(&self) -> (question: (MediaQuery, u32))
        ensures
            question.0 == self@.query,
            question.1 == self@.page_size,
    {
        (self.query.clone(), self.page_size)
    }

    fn advance_generation(&mut self)
        ensures
            *final(self) == (MediaWindowModel {
                generation: next_generation(old(self).generation),
                ..*old(self)
            }),
    {
        if self.generation < u64::MAX {
            self.generation = self.generation + 1;
        }
    }

    /// Show the page that was read; when it could not be read, the window stays
    /// as it is and the reason is handed back.
    pub fn load_sync(&mut self, page: Result<MediaPage, String>) -> (loaded: Result<(), String>)
        requires
            old(self).wf(),
            page matches Ok(found) ==> found.items@.len() <= u32::MAX,
        ensures
            final(self).wf(),
            match page {
                Ok(found) => loaded is Ok && final(self)@ == (WindowView {
                    window_start: found.start,
                    total: found.total,
                    generation: next_generation(old(self)@.generation),
                    store: old(self)@.store.splice(
                        0,
                        old(self)@.store.items.len() as int,
                        found.items@,
                    ),
                    ..old(self)@
                }),
                Err(reason) => loaded == Err::<(), String>(reason) && final(self)@ == old(self)@,
            },
            page matches Ok(found) ==> final(self)@ == old(self)@.turned_to(found),
    {
        match page {
            Err(reason) => Err(reason),
            Ok(found) => {
                self.window_start = found.start;
                self.total = found.total;
                self.advance_generation();
                let mut ids: Vec<i64> = Vec::new();
                let mut i: usize = 0;
                while i < found.items.len()
                    invariant
                        i <= found.items@.len(),
                        ids@ =~= ids_of(found.items@.subrange(0, i as int)),
                    decreases found.items@.len() - i,
                {
                    ids.push(found.items[i].id);
                    i += 1;
                }
                assert(found.items@.subrange(0, i as int) =~= found.items@);
                self.ids_in_window = ids;
                let n: u32 = self.store.n_items();
                self.store.splice(0, n, found.items);
                assert(self.store@.items =~= found.items@);
                Ok(())
            },
        }
    }

    /// The list behind the window.
    pub fn store(&self) -> (store: &MediaList)
        requires
            self.wf(),
        ensures
            store.wf(),
            store@ == self@.store,
    {
        &self.store
    }

    pub fn window_start(&self) -> (start: u32)
        ensures
            start == self@.window_start,
    {
        self.window_start
    }

    pub fn total(&self) -> (total: u32)
        ensures
            total == self@.total,
    {
        self.total
    }

    /// Select a photo, in the window or not.
    pub fn select(&mut self, id: i64)
        requires
            old(self).wf(),
        ensures
            final(self).wf(),
            final(self)@ == (WindowView {
                selected: old(self)@.selected.insert(id),
                ..old(self)@
            }),
    {
        self.selected.insert(id);
    }

    pub fn is_selected(&self, id: i64) -> (selected: bool)
        requires
            self.wf(),
        ensures
            selected == self@.selected.contains(id),
    {
        self.selected.contains(id)
    }

    /// The id of a photo in the window.
    pub fn id_at_window_index(&self, index: u32) -> (id: Option<i64>)
        requires
            self.wf(),
        ensures
            id == if index < self@.store.items.len() {
                Some(self@.store.items[index as int].id)
            } else {
                None
            },
    {
        if (index as usize) < self.ids_in_window.len() {
            Some(self.ids_in_window[index as usize])
        } else {
            None
        }
    }

    /// Begin a new generation.
    pub fn next_generation_for_tests(&mut self) -> (generation: u64)
        ensures
            old(self).wf() ==> final(self).wf(),
            generation == next_generation(old(self)@.generation),
            final(self)@ == (WindowView { generation, ..old(self)@ }),
    {
        self.advance_generation();
        self.generation
    }

    /// Whether what belongs to a generation is still wanted.
    pub fn generation_is_current_for_tests(&self, generation: u64) -> (current: bool)
        ensures
            current == (self@.generation == generation),
    {
        self.generation == generation
    }
}

/// A window shows the page that was read last, and nothing of the pages before.
/// What is selected stays selected, and so do the query and the size of a page;
/// what belongs to an earlier generation is wanted no longer.
pub proof fn pages_replace_each_other(window: WindowView, first: MediaPage, last: MediaPage)
    ensures
        ({
            let now = window.turned_to(first).turned_to(last);
            &&& now.store.items == last.items@
            &&& now.window_start == last.start
            &&& now.total == last.total
            &&& now.selected == window.selected
            &&& now.query == window.query
            &&& now.page_size == window.page_size
            &&& window.generation < u64::MAX ==> window.generation < window.turned_to(
                first,
            ).generation
        }),
{
    let before = window.turned_to(first);
    assert(before.turned_to(last).store.items =~= last.items@);
}

} // verus!
