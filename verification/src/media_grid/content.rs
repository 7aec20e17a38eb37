//! What a grid shows, from top to bottom.

#[allow(unused_imports)]
use super::board::SectionTiles;
use super::board::{GridSection, HeaderLabel};
use super::state::MediaGrid;
#[allow(unused_imports)]
use super::state::GridView;
use crate::media::LibraryStats;
#[allow(unused_imports)]
use crate::media::{GroupBy, MediaItem};
use vstd::prelude::*;

verus! {

/// One of the things that stand below each other in a grid.
#[derive(Clone, Copy, Debug, PartialEq, Eq, Structural)]
pub enum ContentChild {
    /// Room for the photos above the window, this high.
    TopSpacer(i32),
    /// The thumbnail progress.
    Stats(LibraryStats),
    /// A box of this many placeholders.
    Placeholders(u32),
    /// The header of a section.
    Header(HeaderLabel),
    /// The box with the tiles of the section at this place.
    Tiles(usize),
    /// Room for the photos below the window, this high.
    BottomSpacer(i32),
}

/// `child` if it is shown.
pub open spec fn shown_child(shown: bool, child: ContentChild) -> Seq<ContentChild> {
    if shown {
        seq![child]
    } else {
        Seq::empty()
    }
}

/// The headers and boxes of the sections.
pub open spec fn section_children(sections: Seq<SectionTiles>) -> Seq<ContentChild>
    decreases sections.len(),
{
    if sections.len() == 0 {
        Seq::empty()
    } else {
        let place = (sections.len() - 1) as usize;
        section_children(sections.drop_last()) + (match sections.last().header {
            Some(label) => seq![ContentChild::Header(label)],
            None => Seq::empty(),
        }) + seq![ContentChild::Tiles(place)]
    }
}

impl GridView {
    /// What stands above the sections: the upper spacer, then the thumbnail
    /// progress.
    pub open spec fn content_top(self) -> Seq<ContentChild> {
        shown_child(
            self.layout.top_spacer > 0,
            ContentChild::TopSpacer(self.layout.top_spacer),
        ) + (match self.stats.shown {
            Some(stats) => seq![ContentChild::Stats(stats)],
            None => Seq::empty(),
        })
    }

    /// What the grid shows, from top to bottom.
    pub open spec fn content(self) -> Seq<ContentChild> {
        self.content_top() + shown_child(
            self.layout.placeholders > 0,
            ContentChild::Placeholders(self.layout.placeholders),
        ) + section_children(self.board.sections) + shown_child(
            self.layout.bottom_spacer > 0,
            ContentChild::BottomSpacer(self.layout.bottom_spacer),
        )
    }
}

impl MediaGrid {
    /// What the grid shows, from top to bottom.
    pub fn content(&self) -> (children: Vec<ContentChild>)
        ensures
            children@ == self@.content(),
    {
        let mut children: Vec<ContentChild> = Vec::new();
        if self.layout.top_spacer > 0 {
            children.push(ContentChild::TopSpacer(self.layout.top_spacer));
        }
        if let Some(stats) = self.stats.shown {
            children.push(ContentChild::Stats(stats));
        }
        assert(children@ =~= self@.content_top());
        if self.layout.placeholders > 0 {
            children.push(ContentChild::Placeholders(self.layout.placeholders));
        }
        let ghost above = children@;
        let ghost sections = self@.board.sections;
        let mut i: usize = 0;
        while i < self.board.sections.len()
            invariant
                i <= self.board.sections@.len(),
                sections == self@.board.sections,
                sections.len() == self.board.sections@.len(),
                children@ =~= above + section_children(sections.subrange(0, i as int)),
            decreases self.board.sections@.len() - i,
        {
            let section: &GridSection = &self.board.sections[i];
            proof {
                let now = sections.subrange(0, i + 1);
                assert(now.drop_last() =~= sections.subrange(0, i as int));
                assert(now.last() == sections[i as int]);
                assert(sections[i as int].header == section.header);
            }
            if let Some(label) = section.header {
                children.push(ContentChild::Header(label));
            }
            children.push(ContentChild::Tiles(i));
            i += 1;
        }
        assert(sections.subrange(0, i as int) =~= sections);
        if self.layout.bottom_spacer > 0 {
            children.push(ContentChild::BottomSpacer(self.layout.bottom_spacer));
        }
        assert(children@ =~= self@.content());
        children
    }
}

/// The thumbnail progress stands above everything but the upper spacer, and so
/// above every section header.
pub proof fn the_progress_stands_above_the_sections(grid: GridView, k: int)
    requires
        grid.stats.shown is Some,
        0 <= k < grid.content().len(),
        !(grid.content()[k] is TopSpacer),
    ensures
        ({
            let place: int = if grid.layout.top_spacer > 0 { 1 } else { 0 };
            &&& grid.content()[place] == ContentChild::Stats(grid.stats.shown->0)
            &&& place <= k
        }),
{
}

/// In a rebuilt grid that starts with the first photo of the library the
/// thumbnail progress comes first of all.
pub proof fn the_progress_comes_first(
    grid: GridView,
    items: Seq<MediaItem>,
    viewport_width: u32,
)
    requires
        items.len() <= u32::MAX,
        grid.rebuilt(items, viewport_width).paging.window_start == 0,
        grid.rebuilt(items, viewport_width).stats.shown is Some,
    ensures
        ({
            let rebuilt = grid.rebuilt(items, viewport_width);
            &&& rebuilt.content().len() > 0
            &&& rebuilt.content()[0] == ContentChild::Stats(rebuilt.stats.shown->0)
        }),
{
}

/// A rebuilt grid shows the thumbnail progress exactly in the day view of the
/// whole library, with photos in it, while thumbnails are missing.
pub proof fn the_progress_shows_missing_thumbnails(
    grid: GridView,
    items: Seq<MediaItem>,
    viewport_width: u32,
)
    requires
        items.len() <= u32::MAX,
        !grid.paging.page_loading,
    ensures
        grid.rebuilt(items, viewport_width).stats.shown is Some <==> {
            &&& grid.flags.full_library_context
            &&& grid.flags.mode == GroupBy::Day
            &&& grid.rendered(items.len() as int) > 0
            &&& grid.metadata.stats matches Some(stats) && stats.live_total > 0
                && stats.thumbnails_generated < stats.live_total
        },
{
}

} // verus!
