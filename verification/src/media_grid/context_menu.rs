//! The context menu of a photo: what it offers, and for which photos.

#[allow(unused_imports)]
use super::selection::increasing;
#[allow(unused_imports)]
use super::state::GridView;
use super::state::MediaGrid;
use crate::glass_context_menu::GlassMenuItemKind;
use vstd::prelude::*;

verus! {

/// Whether photos can be marked as favorites, and whether they can be unmarked.
#[derive(Clone, Copy, Debug, PartialEq, Eq, Structural)]
pub struct FavoriteMenuState {
    pub can_favorite: bool,
    pub can_unfavorite: bool,
}

impl Default for FavoriteMenuState {
    fn default() -> (state: Self)
        ensures
            !state.can_favorite,
            !state.can_unfavorite,
    {
        FavoriteMenuState { can_favorite: false, can_unfavorite: false }
    }
}

/// What an entry of the menu does.
#[derive(Clone, Copy, Debug, PartialEq, Eq, Structural)]
pub enum MenuEntry {
    ExitMultiSelect,
    EnterMultiSelect,
    Favorite,
    Unfavorite,
    SetAlbumCover,
    MoveToAlbum,
    MoveToTrash,
}

/// How an entry is emphasised.
pub open spec fn entry_kind(entry: MenuEntry) -> GlassMenuItemKind {
    match entry {
        MenuEntry::ExitMultiSelect => GlassMenuItemKind::Danger,
        MenuEntry::EnterMultiSelect => GlassMenuItemKind::Suggested,
        MenuEntry::MoveToTrash => GlassMenuItemKind::Danger,
        _ => GlassMenuItemKind::Normal,
    }
}

/// How an entry is emphasised.
pub fn kind_of_entry(entry: MenuEntry) -> (kind: GlassMenuItemKind)
    ensures
        kind == entry_kind(entry),
{
    match entry {
        MenuEntry::ExitMultiSelect => GlassMenuItemKind::Danger,
        MenuEntry::EnterMultiSelect => GlassMenuItemKind::Suggested,
        MenuEntry::MoveToTrash => GlassMenuItemKind::Danger,
        _ => GlassMenuItemKind::Normal,
    }
}

/// `entry` alone where it is offered, else nothing.
pub open spec fn offered(entry: MenuEntry, when: bool) -> Seq<MenuEntry> {
    if when {
        seq![entry]
    } else {
        Seq::empty()
    }
}

/// The entries of the menu, from top to bottom. An album cover can be set for a
/// single photo only, and only where the page offers it.
pub open spec fn menu_entries(
    multi_select: bool,
    state: FavoriteMenuState,
    has_targets: bool,
    offers_cover: bool,
) -> Seq<MenuEntry> {
    offered(MenuEntry::ExitMultiSelect, multi_select) + offered(
        MenuEntry::EnterMultiSelect,
        !multi_select,
    ) + offered(MenuEntry::Favorite, state.can_favorite) + offered(
        MenuEntry::Unfavorite,
        state.can_unfavorite,
    ) + offered(MenuEntry::SetAlbumCover, has_targets && !multi_select && offers_cover) + offered(
        MenuEntry::MoveToAlbum,
        has_targets,
    ) + offered(MenuEntry::MoveToTrash, has_targets)
}

/// The entries of the menu, from top to bottom.
pub fn context_menu_entries(
    multi_select: bool,
    state: FavoriteMenuState,
    has_targets: bool,
    offers_cover: bool,
) -> (entries: Vec<MenuEntry>)
    ensures
        entries@ == menu_entries(multi_select, state, has_targets, offers_cover),
{
    let mut entries: Vec<MenuEntry> = Vec::new();
    if multi_select {
        entries.push(MenuEntry::ExitMultiSelect);
    } else {
        entries.push(MenuEntry::EnterMultiSelect);
    }
    if state.can_favorite {
        entries.push(MenuEntry::Favorite);
    }
    if state.can_unfavorite {
        entries.push(MenuEntry::Unfavorite);
    }
    if has_targets {
        if !multi_select && offers_cover {
            entries.push(MenuEntry::SetAlbumCover);
        }
        entries.push(MenuEntry::MoveToAlbum);
        entries.push(MenuEntry::MoveToTrash);
    }
    assert(entries@ =~= menu_entries(multi_select, state, has_targets, offers_cover));
    entries
}

/// The question asked before photos go to the trash.
#[derive(Clone, Copy, Debug, PartialEq, Eq, Structural)]
pub enum TrashQuestion {
    One,
    Many(usize),
}

/// The question asked before `count` photos go to the trash.
pub fn trash_question(count: usize) -> (question: TrashQuestion)
    ensures
        question == if count == 1 {
            TrashQuestion::One
        } else {
            TrashQuestion::Many(count)
        },
{
    if count == 1 {
        TrashQuestion::One
    } else {
        TrashQuestion::Many(count)
    }
}

/// The photos that a menu acts on, and whether opening it changed the selection.
pub struct MenuTargets {
    pub ids: Vec<i64>,
    pub selection_changed: bool,
}

/// The selection after a click with the menu button on the photo `id`: a click
/// inside the selection keeps it, one outside selects that photo alone.
pub open spec fn clicked_selection(selected: Set<i64>, id: i64) -> Set<i64> {
    if selected.contains(id) {
        selected
    } else {
        Set::empty().insert(id)
    }
}

impl GridView {
    /// The photo that the tile `child` shows.
    pub open spec fn photo_of(self, child: u64) -> Option<i64> {
        if exists|k: int|
            0 <= k < self.board.displayed.len() && (#[trigger] self.board.displayed[k]).flow_child
                == child {
            let k = choose|k: int|
                0 <= k < self.board.displayed.len() && (
                #[trigger] self.board.displayed[k]).flow_child == child;
            Some(self.board.displayed[k].media_id)
        } else {
            None
        }
    }
}

impl GridView {
    /// Is there a menu on the tile `child`?
    pub open spec fn has_menu(self, child: u64) -> bool {
        self.flags.enable_context_menu && self.photo_of(child) is Some
    }

    /// The grid after the menu of the tile `child` was opened.
    pub open spec fn after_menu(self, child: u64) -> GridView {
        if self.has_menu(child) && self.multi_select {
            self.with_selection(clicked_selection(self.selected, self.photo_of(child)->0), true)
        } else {
            self
        }
    }

    /// The photos that the menu of the tile `child` acts on.
    pub open spec fn menu_targets(self, child: u64) -> Set<i64> {
        if self.multi_select {
            self.after_menu(child).selected
        } else {
            Set::empty().insert(self.photo_of(child)->0)
        }
    }
}

impl MediaGrid {
    /// The photo that the tile `child` shows.
    pub fn photo_for_child(&self, child: u64) -> (id: Option<i64>)
        requires
            self.wf(),
        ensures
            id == self@.photo_of(child),
    {
        match self.board.displayed_item_for_child(child) {
            Some(item) => {
                proof {
                    let d = self@.board.displayed;
                    let m = choose|m: int| 0 <= m < d.len() && d[m] == item;
                    assert(d[m].flow_child == child);
                    let k = choose|k: int|
                        0 <= k < d.len() && (#[trigger] d[k]).flow_child == child;
                    if k < m {
                        assert(d[k].flow_child != d[m].flow_child);
                    } else if m < k {
                        assert(d[m].flow_child != d[k].flow_child);
                    }
                }
                Some(item.media_id)
            },
            None => None,
        }
    }

    /// Prepare the menu of the tile `child`. In multi-select mode it acts on the
    /// selection, else on the photo clicked. `None` where there is no menu.
    pub fn context_menu_targets(&mut self, child: u64) -> (targets: Option<MenuTargets>)
        requires
            old(self).wf(),
        ensures
            final(self).wf(),
            targets is Some <==> old(self)@.flags.enable_context_menu && old(self)@.photo_of(child)
                is Some,
            final(self)@ == if targets is Some && old(self)@.multi_select {
                old(self)@.with_selection(
                    clicked_selection(old(self)@.selected, old(self)@.photo_of(child)->0),
                    true,
                )
            } else {
                old(self)@
            },
            targets matches Some(found) ==> {
                &&& increasing(found.ids@)
                &&& found.ids@.to_set() == if old(self)@.multi_select {
                    final(self)@.selected
                } else {
                    Set::empty().insert(old(self)@.photo_of(child)->0)
                }
                &&& found.selection_changed == (old(self)@.multi_select && !old(
                    self,
                )@.selected.contains(old(self)@.photo_of(child)->0))
            },
            targets is Some <==> old(self)@.has_menu(child),
            final(self)@ == old(self)@.after_menu(child),
            targets matches Some(found) ==> found.ids@.to_set() == old(self)@.menu_targets(child),
    {
        if !self.flags.enable_context_menu {
            return None;
        }
        match self.photo_for_child(child) {
            Some(id) => {
                if self.selection.is_multi_select_mode() {
                    let (ids, selection_changed): (Vec<i64>, bool) =
                        self.selection.ensure_context_selection(id);
                    Some(MenuTargets { ids, selection_changed })
                } else {
                    let mut ids: Vec<i64> = Vec::new();
                    ids.push(id);
                    assert(ids@.to_set() =~= Set::<i64>::empty().insert(id)) by {
                        assert(ids@[0] == id);
                    }
                    Some(MenuTargets { ids, selection_changed: false })
                }
            },
            None => None,
        }
    }

    /// Enter multi-select mode from the menu of the photo `id`, with that photo
    /// selected. Returns whether the selection changed.
    pub fn enter_multi_select(&mut self, id: i64) -> (changed: bool)
        requires
            old(self).wf(),
        ensures
            final(self).wf(),
            final(self)@ == old(self)@.with_selection(
                clicked_selection(old(self)@.selected, id),
                true,
            ),
            changed == !old(self)@.selected.contains(id),
    {
        let _ = self.selection.set_multi_select_mode(true);
        let (_, changed): (Vec<i64>, bool) = self.selection.ensure_context_selection(id);
        changed
    }
}

/// Every menu begins with the way into or out of multi-select mode, and offers
/// the trash last, wherever there are photos to act on.
pub proof fn menus_begin_and_end_alike(
    multi_select: bool,
    state: FavoriteMenuState,
    has_targets: bool,
    offers_cover: bool,
)
    ensures
        menu_entries(multi_select, state, has_targets, offers_cover).first() == if multi_select {
            MenuEntry::ExitMultiSelect
        } else {
            MenuEntry::EnterMultiSelect
        },
        has_targets ==> menu_entries(multi_select, state, has_targets, offers_cover).last()
            == MenuEntry::MoveToTrash,
{
}

/// Every entry is offered where it can be used and nowhere else, and none twice.
pub proof fn menus_offer_what_can_be_done(
    multi_select: bool,
    state: FavoriteMenuState,
    has_targets: bool,
    offers_cover: bool,
    entry: MenuEntry,
)
    ensures
        ({
            let entries = menu_entries(multi_select, state, has_targets, offers_cover);
            &&& entries.contains(entry) <==> match entry {
                MenuEntry::ExitMultiSelect => multi_select,
                MenuEntry::EnterMultiSelect => !multi_select,
                MenuEntry::Favorite => state.can_favorite,
                MenuEntry::Unfavorite => state.can_unfavorite,
                MenuEntry::SetAlbumCover => offers_cover && has_targets && !multi_select,
                MenuEntry::MoveToAlbum => has_targets,
                MenuEntry::MoveToTrash => has_targets,
            }
            &&& entries.no_duplicates()
        }),
{
    let a = offered(MenuEntry::ExitMultiSelect, multi_select);
    let b = a + offered(MenuEntry::EnterMultiSelect, !multi_select);
    let c = b + offered(MenuEntry::Favorite, state.can_favorite);
    let d = c + offered(MenuEntry::Unfavorite, state.can_unfavorite);
    let e = d + offered(
        MenuEntry::SetAlbumCover,
        has_targets && !multi_select && offers_cover,
    );
    let f = e + offered(MenuEntry::MoveToAlbum, has_targets);
    let g = f + offered(MenuEntry::MoveToTrash, has_targets);
    lemma_offered(Seq::empty(), MenuEntry::ExitMultiSelect, multi_select, entry);
    assert(Seq::<MenuEntry>::empty() + a =~= a);
    lemma_offered(a, MenuEntry::EnterMultiSelect, !multi_select, entry);
    lemma_offered(b, MenuEntry::Favorite, state.can_favorite, entry);
    lemma_offered(c, MenuEntry::Unfavorite, state.can_unfavorite, entry);
    lemma_offered(
        d,
        MenuEntry::SetAlbumCover,
        has_targets && !multi_select && offers_cover,
        entry,
    );
    lemma_offered(e, MenuEntry::MoveToAlbum, has_targets, entry);
    lemma_offered(f, MenuEntry::MoveToTrash, has_targets, entry);
    assert(g == menu_entries(multi_select, state, has_targets, offers_cover));
}

proof fn lemma_offered(front: Seq<MenuEntry>, last: MenuEntry, when: bool, entry: MenuEntry)
    requires
        front.no_duplicates(),
        !front.contains(last),
    ensures
        (front + offered(last, when)).contains(entry) <==> front.contains(entry) || when && entry
            == last,
        (front + offered(last, when)).no_duplicates(),
{
    let all = front + offered(last, when);
    if all.contains(entry) {
        let k = choose|k: int| 0 <= k < all.len() && all[k] == entry;
        if k < front.len() {
            assert(front[k] == entry);
        }
    }
    if front.contains(entry) {
        let k = choose|k: int| 0 <= k < front.len() && front[k] == entry;
        assert(all[k] == entry);
    }
    if when {
        assert(all[front.len() as int] == last);
    }
    assert forall|i: int, j: int| 0 <= i < all.len() && 0 <= j < all.len() && i != j implies all[i]
        != all[j] by {
        if i < front.len() {
            assert(front.contains(front[i]));
        }
        if j < front.len() {
            assert(front.contains(front[j]));
        }
    }
}

/// A click with the menu button always reaches the photo under it: with the rest
/// of the selection where it was selected, alone where it was not.
pub proof fn menu_clicks_reach_the_photo(selected: Set<i64>, id: i64, other: i64)
    ensures
        clicked_selection(selected, id).contains(id),
        other != id && clicked_selection(selected, id).contains(other) <==> other != id
            && selected.contains(other) && selected.contains(id),
        clicked_selection(clicked_selection(selected, id), id) == clicked_selection(selected, id),
{
}

/// A menu acts on the photo that was clicked. Outside multi-select mode it acts on
/// that photo alone and leaves the selection as it is; in multi-select mode it acts
/// on what is selected then.
pub proof fn menus_act_on_the_photo_clicked(grid: GridView, child: u64, other: i64)
    requires
        grid.has_menu(child),
    ensures
        ({
            let id = grid.photo_of(child)->0;
            let now = grid.after_menu(child);
            &&& grid.menu_targets(child).contains(id)
            &&& !grid.multi_select && other != id ==> !grid.menu_targets(child).contains(other)
            &&& !grid.multi_select ==> now == grid
            &&& grid.multi_select ==> grid.menu_targets(child) == now.selected
            &&& grid.multi_select && grid.selected.contains(id) ==> now.selected == grid.selected
            &&& grid.multi_select && !grid.selected.contains(id) && other != id
                ==> !now.selected.contains(other)
            &&& now.multi_select == grid.multi_select
        }),
{
}

/// The ways into and out of multi-select mode stand out, and so does the trash;
/// only the trash and the way out are marked as dangerous.
pub proof fn dangerous_entries_are_marked(entry: MenuEntry)
    ensures
        entry_kind(entry) == GlassMenuItemKind::Danger <==> entry == MenuEntry::MoveToTrash || entry
            == MenuEntry::ExitMultiSelect,
        entry_kind(entry) == GlassMenuItemKind::Suggested <==> entry == MenuEntry::EnterMultiSelect,
{
}

} // verus!
