//! Library-wide numbers behind the grid: the photo total, the thumbnail
//! progress and the photo count of every section. They are loaded in the
//! background, kept current by small changes, and dropped by larger ones.

#[allow(unused_imports)]
use super::board::counts_view;
use super::board::DisplayedItem;
use super::sections::SectionCounts;
use crate::media::{GroupBy, LibraryStats, SectionKey};
use vstd::prelude::*;

verus! {

/// What a background load brought back; what could not be read is `None`.
pub struct GridMetadataSnapshot {
    pub mode: GroupBy,
    pub live_total: Option<u32>,
    pub library_stats: Option<LibraryStats>,
    pub section_counts: Option<SectionCounts>,
}

/// The library-wide numbers that are known.
pub struct LibraryMetadata {
    pub loading: bool,
    pub dirty_pending: bool,
    pub total: Option<u32>,
    pub stats: Option<LibraryStats>,
    pub year_counts: Option<SectionCounts>,
    pub month_counts: Option<SectionCounts>,
    pub day_counts: Option<SectionCounts>,
}

/// The meaning of a `LibraryMetadata`.
#[verifier::ext_equal]
pub struct MetadataView {
    pub loading: bool,
    pub dirty_pending: bool,
    pub total: Option<u32>,
    pub stats: Option<LibraryStats>,
    pub counts: Map<GroupBy, Map<SectionKey, u32>>,
}

impl View for LibraryMetadata {
    type V = MetadataView;

    open spec fn view(&self) -> MetadataView {
        MetadataView {
            loading: self.loading,
            dirty_pending: self.dirty_pending,
            total: self.total,
            stats: self.stats,
            counts: Map::new(
                |mode: GroupBy| self.counts_of(mode) is Some,
                |mode: GroupBy| self.counts_of(mode)->0@,
            ),
        }
    }
}

/// Is thumbnail progress worth showing? Only while thumbnails are missing.
pub open spec fn stats_unfinished(stats: LibraryStats) -> bool {
    stats.live_total > 0 && stats.thumbnails_generated < stats.live_total
}

/// Is thumbnail progress worth showing?
pub fn should_show_library_stats(stats: &LibraryStats) -> (show: bool)
    ensures
        show == stats_unfinished(*stats),
{
    stats.live_total > 0 && stats.thumbnails_generated < stats.live_total
}

/// One photo fewer in a section; a section without photos leaves the counts.
pub open spec fn lowered(counts: Map<SectionKey, u32>, key: SectionKey) -> Map<SectionKey, u32> {
    if counts.dom().contains(key) && counts[key] > 1 {
        counts.insert(key, (counts[key] - 1) as u32)
    } else {
        counts.remove(key)
    }
}

/// The counts after the photos `lost` went away one by one.
pub open spec fn lowered_by(
    counts: Map<SectionKey, u32>,
    lost: Seq<DisplayedItem>,
) -> Map<SectionKey, u32>
    decreases lost.len(),
{
    if lost.len() == 0 {
        counts
    } else {
        lowered(lowered_by(counts, lost.drop_last()), lost.last().section_key)
    }
}

/// `added` photos more in a section.
pub open spec fn raised(
    counts: Map<SectionKey, u32>,
    key: SectionKey,
    added: u32,
) -> Map<SectionKey, u32> {
    let before: u32 = if counts.dom().contains(key) { counts[key] } else { 0 };
    counts.insert(key, before.saturating_add(added))
}

impl MetadataView {
    /// The section counts of a view, where they are known.
    pub open spec fn known_counts(self, mode: GroupBy) -> Option<Map<SectionKey, u32>> {
        if self.counts.dom().contains(mode) {
            Some(self.counts[mode])
        } else {
            None
        }
    }

    /// Is everything known that the view `mode` shows?
    pub open spec fn complete_for(self, mode: GroupBy) -> bool {
        self.total is Some && self.stats is Some && self.counts.dom().contains(mode)
    }

    /// The numbers after `added` photos of one section came in.
    pub open spec fn after_addition(
        self,
        mode: GroupBy,
        added: u32,
        key: SectionKey,
    ) -> MetadataView {
        MetadataView {
            total: match self.total {
                Some(total) => Some(total.saturating_add(added)),
                None => None,
            },
            stats: match self.stats {
                Some(stats) => Some(
                    LibraryStats {
                        live_total: stats.live_total.saturating_add(added as usize),
                        ..stats
                    },
                ),
                None => None,
            },
            counts: if self.counts.dom().contains(mode) {
                self.counts.insert(mode, raised(self.counts[mode], key, added))
            } else {
                self.counts
            },
            ..self
        }
    }

    /// The numbers after `removed` photos went away, of which those in `lost`
    /// were displayed.
    pub open spec fn after_removal(
        self,
        mode: GroupBy,
        removed: u32,
        lost: Seq<DisplayedItem>,
    ) -> MetadataView {
        MetadataView {
            total: match self.total {
                Some(total) => Some(total.saturating_sub(removed)),
                None => None,
            },
            stats: match self.stats {
                Some(stats) => {
                    let live: usize = stats.live_total.saturating_sub(removed as usize);
                    Some(
                        LibraryStats {
                            live_total: live,
                            thumbnails_generated: if stats.thumbnails_generated < live {
                                stats.thumbnails_generated
                            } else {
                                live
                            },
                        },
                    )
                },
                None => None,
            },
            counts: if self.counts.dom().contains(mode) {
                self.counts.insert(mode, lowered_by(self.counts[mode], lost))
            } else {
                self.counts
            },
            ..self
        }
    }

    /// Forget what the library no longer warrants. Unfinished thumbnail
    /// progress that is on screen stays, so that it does not flicker; a load
    /// under way is marked as out of date.
    pub open spec fn invalidated(self, stats_on_screen: bool) -> MetadataView {
        MetadataView {
            loading: self.loading,
            dirty_pending: self.loading,
            total: None,
            stats: match self.stats {
                Some(stats) => if stats_on_screen && stats_unfinished(stats) {
                    Some(stats)
                } else {
                    None
                },
                None => None,
            },
            counts: Map::empty(),
        }
    }

    /// Take over what a load brought back.
    pub open spec fn filled(
        self,
        mode: GroupBy,
        total: Option<u32>,
        stats: Option<LibraryStats>,
        counts: Option<Map<SectionKey, u32>>,
    ) -> MetadataView {
        MetadataView {
            total: if total is Some { total } else { self.total },
            stats: if stats is Some { stats } else { self.stats },
            counts: match counts {
                Some(found) => self.counts.insert(mode, found),
                None => self.counts,
            },
            ..self
        }
    }
}

impl LibraryMetadata {
    /// The section counts of a view.
    pub open spec fn counts_of(&self, mode: GroupBy) -> Option<SectionCounts> {
        match mode {
            GroupBy::Year => self.year_counts,
            GroupBy::Month => self.month_counts,
            GroupBy::Day => self.day_counts,
        }
    }

    pub open spec fn wf(self) -> bool {
        forall|mode: GroupBy|
            (#[trigger] self.counts_of(mode)) is Some ==> self.counts_of(mode)->0.wf()
    }

    /// Nothing known, nothing loading.
    pub fn new() -> (metadata: LibraryMetadata)
        ensures
            metadata.wf(),
            metadata@ == (MetadataView {
                loading: false,
                dirty_pending: false,
                total: None,
                stats: None,
                counts: Map::empty(),
            }),
    {
        let metadata = LibraryMetadata {
            loading: false,
            dirty_pending: false,
            total: None,
            stats: None,
            year_counts: None,
            month_counts: None,
            day_counts: None,
        };
        assert(metadata@.counts =~= Map::<GroupBy, Map<SectionKey, u32>>::empty());
        metadata
    }

    /// The section counts of a view.
    pub fn counts(&self, mode: GroupBy) -> (counts: Option<&SectionCounts>)
        requires
            self.wf(),
        ensures
            counts_view(counts) == self@.known_counts(mode),
            counts is Some <==> self@.counts.dom().contains(mode),
            counts matches Some(known) ==> known.wf(),
    {
        let field: &Option<SectionCounts> = match mode {
            GroupBy::Year => &self.year_counts,
            GroupBy::Month => &self.month_counts,
            GroupBy::Day => &self.day_counts,
        };
        assert(*field == self.counts_of(mode));
        match field {
            Some(known) => Some(known),
            None => None,
        }
    }

    fn take_counts(&mut self, mode: GroupBy) -> (counts: Option<SectionCounts>)
        requires
            old(self).wf(),
        ensures
            final(self).wf(),
            counts is Some <==> old(self)@.counts.dom().contains(mode),
            counts matches Some(known) ==> known.wf() && known@ == old(self)@.counts[mode],
            final(self)@ == (MetadataView {
                counts: old(self)@.counts.remove(mode),
                ..old(self)@
            }),
    {
        let ghost before = *self;
        assert(before.counts_of(mode) is Some ==> before.counts_of(mode)->0.wf());
        let counts: Option<SectionCounts> = match mode {
            GroupBy::Year => self.year_counts.take(),
            GroupBy::Month => self.month_counts.take(),
            GroupBy::Day => self.day_counts.take(),
        };
        proof {
            assert(counts == before.counts_of(mode));
            assert forall|other: GroupBy| (#[trigger] self.counts_of(other)) is Some implies (
            self.counts_of(other)->0).wf() && other != mode && self.counts_of(other)
                == before.counts_of(other) by {
                assert(before.counts_of(other) == self.counts_of(other));
            }
            assert forall|other: GroupBy| other != mode implies #[trigger] self.counts_of(other)
                == before.counts_of(other) by {}
            assert(self@.counts =~= before@.counts.remove(mode));
        }
        counts
    }

    /// Set the section counts of a view.
    pub fn set_counts(&mut self, mode: GroupBy, counts: SectionCounts)
        requires
            old(self).wf(),
            counts.wf(),
        ensures
            final(self).wf(),
            final(self)@ == (MetadataView {
                counts: old(self)@.counts.insert(mode, counts@),
                ..old(self)@
            }),
    {
        let ghost before = *self;
        match mode {
            GroupBy::Year => {
                self.year_counts = Some(counts);
            },
            GroupBy::Month => {
                self.month_counts = Some(counts);
            },
            GroupBy::Day => {
                self.day_counts = Some(counts);
            },
        }
        proof {
            assert(self.counts_of(mode) == Some(counts));
            assert forall|other: GroupBy| other != mode implies #[trigger] self.counts_of(other)
                == before.counts_of(other) by {}
            assert forall|other: GroupBy| (#[trigger] self.counts_of(other)) is Some implies (
            self.counts_of(other)->0).wf() by {
                if other != mode {
                    assert(before.counts_of(other) is Some);
                }
            }
            assert(self@.counts =~= before@.counts.insert(mode, counts@));
        }
    }

    proof fn lemma_same_counts(before: LibraryMetadata, now: LibraryMetadata)
        requires
            before.wf(),
            before.year_counts == now.year_counts,
            before.month_counts == now.month_counts,
            before.day_counts == now.day_counts,
        ensures
            now.wf(),
            now@.counts == before@.counts,
    {
        assert forall|mode: GroupBy| #[trigger] now.counts_of(mode) == before.counts_of(mode) by {}
        assert forall|mode: GroupBy| (#[trigger] now.counts_of(mode)) is Some implies (
        now.counts_of(mode)->0).wf() by {
            assert(before.counts_of(mode) is Some);
        }
        assert(now@.counts =~= before@.counts);
    }

    /// Note whether a load is under way, and whether it is out of date.
    pub fn set_loading(&mut self, loading: bool, dirty_pending: bool)
        requires
            old(self).wf(),
        ensures
            final(self).wf(),
            final(self)@ == (MetadataView { loading, dirty_pending, ..old(self)@ }),
    {
        let ghost before = *self;
        self.loading = loading;
        self.dirty_pending = dirty_pending;
        proof {
            Self::lemma_same_counts(before, *self);
        }
    }

    /// Note the thumbnail progress.
    pub fn set_stats(&mut self, stats: LibraryStats)
        requires
            old(self).wf(),
        ensures
            final(self).wf(),
            final(self)@ == (MetadataView { stats: Some(stats), ..old(self)@ }),
    {
        let ghost before = *self;
        self.stats = Some(stats);
        proof {
            Self::lemma_same_counts(before, *self);
        }
    }

    /// Count `added` photos of the section `key` in.
    pub fn increment_cached_metadata_after_addition(
        &mut self,
        mode: GroupBy,
        added: u32,
        key: SectionKey,
    )
        requires
            old(self).wf(),
        ensures
            final(self).wf(),
            final(self)@ == old(self)@.after_addition(mode, added, key),
    {
        let ghost before = self@;
        match self.total {
            Some(total) => {
                self.total = Some(total.saturating_add(added));
            },
            None => {},
        }
        match self.stats {
            Some(stats) => {
                self.stats = Some(
                    LibraryStats {
                        live_total: stats.live_total.saturating_add(added as usize),
                        thumbnails_generated: stats.thumbnails_generated,
                    },
                );
            },
            None => {},
        }
        proof {
            Self::lemma_same_counts(*old(self), *self);
        }
        match self.take_counts(mode) {
            Some(known) => {
                let mut counts: SectionCounts = known;
                let held: u32 = match counts.get(key) {
                    Some(count) => count,
                    None => 0,
                };
                counts.insert(key, held.saturating_add(added));
                self.set_counts(mode, counts);
                assert(self@.counts =~= before.after_addition(mode, added, key).counts);
            },
            None => {
                assert(self@.counts =~= before.counts);
            },
        }
    }

    /// Count `removed` photos out, of which those in `lost` were displayed.
    pub fn decrement_cached_metadata_after_removal(
        &mut self,
        mode: GroupBy,
        removed: u32,
        lost: &Vec<DisplayedItem>,
    )
        requires
            old(self).wf(),
        ensures
            final(self).wf(),
            final(self)@ == old(self)@.after_removal(mode, removed, lost@),
    {
        let ghost before = self@;
        match self.total {
            Some(total) => {
                self.total = Some(total.saturating_sub(removed));
            },
            None => {},
        }
        match self.stats {
            Some(stats) => {
                let live: usize = stats.live_total.saturating_sub(removed as usize);
                let generated: usize = if stats.thumbnails_generated < live {
                    stats.thumbnails_generated
                } else {
                    live
                };
                self.stats = Some(
                    LibraryStats { live_total: live, thumbnails_generated: generated },
                );
            },
            None => {},
        }
        proof {
            Self::lemma_same_counts(*old(self), *self);
        }
        match self.take_counts(mode) {
            Some(known) => {
                let counts: SectionCounts = lower_counts(known, lost);
                self.set_counts(mode, counts);
                assert(self@.counts =~= before.after_removal(mode, removed, lost@).counts);
            },
            None => {
                assert(self@.counts =~= before.counts);
            },
        }
    }

    /// Forget what the library no longer warrants.
    pub fn invalidate(&mut self, stats_on_screen: bool)
        ensures
            final(self).wf(),
            final(self)@ == old(self)@.invalidated(stats_on_screen),
    {
        let stats: Option<LibraryStats> = match self.stats {
            Some(stats) => if stats_on_screen && should_show_library_stats(&stats) {
                Some(stats)
            } else {
                None
            },
            None => None,
        };
        self.dirty_pending = self.loading;
        self.total = None;
        self.stats = stats;
        self.year_counts = None;
        self.month_counts = None;
        self.day_counts = None;
        assert(self@.counts =~= Map::<GroupBy, Map<SectionKey, u32>>::empty());
    }

    /// Take over what a load brought back.
    pub fn fill(&mut self, snapshot: GridMetadataSnapshot)
        requires
            old(self).wf(),
            snapshot.section_counts matches Some(counts) ==> counts.wf(),
        ensures
            final(self).wf(),
            final(self)@ == old(self)@.filled(
                snapshot.mode,
                snapshot.live_total,
                snapshot.library_stats,
                match snapshot.section_counts {
                    Some(counts) => Some(counts@),
                    None => None,
                },
            ),
    {
        let ghost before = *self;
        if snapshot.live_total.is_some() {
            self.total = snapshot.live_total;
        }
        if snapshot.library_stats.is_some() {
            self.stats = snapshot.library_stats;
        }
        proof {
            Self::lemma_same_counts(before, *self);
        }
        match snapshot.section_counts {
            Some(counts) => {
                self.set_counts(snapshot.mode, counts);
            },
            None => {},
        }
    }
}

fn lower_counts(counts: SectionCounts, lost: &Vec<DisplayedItem>) -> (left: SectionCounts)
    requires
        counts.wf(),
    ensures
        left.wf(),
        left@ == lowered_by(counts@, lost@),
{
    let ghost start = counts@;
    let mut left: SectionCounts = counts;
    let mut i: usize = 0;
    assert(lost@.subrange(0, 0) =~= Seq::<DisplayedItem>::empty());
    while i < lost.len()
        invariant
            i <= lost@.len(),
            left.wf(),
            left@ == lowered_by(start, lost@.subrange(0, i as int)),
        decreases lost@.len() - i,
    {
        let key: SectionKey = lost[i].section_key;
        proof {
            assert(lost@.subrange(0, i + 1).drop_last() =~= lost@.subrange(0, i as int));
            assert(lost@.subrange(0, i + 1).last() == lost@[i as int]);
        }
        let held: u32 = match left.get(key) {
            Some(count) => count,
            None => 0,
        };
        let next: u32 = held.saturating_sub(1);
        if next == 0 {
            left.remove(key);
        } else {
            left.insert(key, next);
        }
        i += 1;
    }
    assert(lost@.subrange(0, lost@.len() as int) =~= lost@);
    left
}

/// Photos that come into a section that is known and go again leave its count
/// as it was.
pub proof fn coming_and_going_keeps_the_count(
    counts: Map<SectionKey, u32>,
    key: SectionKey,
)
    requires
        counts.dom().contains(key),
        0 < counts[key] < u32::MAX,
    ensures
        lowered(raised(counts, key, 1), key) == counts,
{
    assert(lowered(raised(counts, key, 1), key) =~= counts);
}

/// Counting photos out never leaves a section with a count of zero.
pub proof fn no_section_counts_zero(counts: Map<SectionKey, u32>, lost: Seq<DisplayedItem>)
    requires
        forall|key: SectionKey| counts.dom().contains(key) ==> #[trigger] counts[key] > 0,
    ensures
        forall|key: SectionKey|
            lowered_by(counts, lost).dom().contains(key) ==> #[trigger] lowered_by(counts, lost)[key]
                > 0,
    decreases lost.len(),
{
    if lost.len() > 0 {
        no_section_counts_zero(counts, lost.drop_last());
        let before = lowered_by(counts, lost.drop_last());
        let after = lowered_by(counts, lost);
        assert forall|key: SectionKey| after.dom().contains(key) implies #[trigger] after[key]
            > 0 by {
            if before.dom().contains(key) {
                assert(before[key] > 0);
            }
        }
    }
}

/// The number of photos in `lost` that were in the section `key`.
pub open spec fn lost_from(lost: Seq<DisplayedItem>, key: SectionKey) -> nat {
    lost.filter(|item: DisplayedItem| item.section_key == key).len()
}

/// Every section counts as many photos fewer as it lost, and leaves the counts
/// when none is left. Sections that lost none keep their count.
pub proof fn counts_fall_by_what_was_lost(
    counts: Map<SectionKey, u32>,
    lost: Seq<DisplayedItem>,
    key: SectionKey,
)
    ensures
        counts.dom().contains(key) && lost_from(lost, key) < counts[key] ==> lowered_by(
            counts,
            lost,
        ).dom().contains(key) && lowered_by(counts, lost)[key] == counts[key] - lost_from(
            lost,
            key,
        ),
        counts.dom().contains(key) && 0 < lost_from(lost, key) && counts[key] <= lost_from(
            lost,
            key,
        ) ==> !lowered_by(counts, lost).dom().contains(key),
        !counts.dom().contains(key) ==> !lowered_by(counts, lost).dom().contains(key),
        lost_from(lost, key) == 0 && counts.dom().contains(key) ==> lowered_by(
            counts,
            lost,
        ).dom().contains(key) && lowered_by(counts, lost)[key] == counts[key],
    decreases lost.len(),
{
    reveal(Seq::filter);
    if lost.len() > 0 {
        counts_fall_by_what_was_lost(counts, lost.drop_last(), key);
    }
}

/// Photos that come into a section are counted in that section and in the
/// totals, and nowhere else.
pub proof fn additions_are_counted_once(
    numbers: MetadataView,
    mode: GroupBy,
    added: u32,
    key: SectionKey,
    other: SectionKey,
)
    requires
        numbers.total is Some ==> numbers.total->0 + added <= u32::MAX,
        numbers.stats is Some ==> numbers.stats->0.live_total + added <= usize::MAX,
        numbers.counts.dom().contains(mode) && numbers.counts[mode].dom().contains(key)
            ==> numbers.counts[mode][key] + added <= u32::MAX,
    ensures
        ({
            let now = numbers.after_addition(mode, added, key);
            &&& numbers.total is Some ==> now.total is Some && now.total->0 == numbers.total->0
                + added
            &&& numbers.total is None ==> now.total is None
            &&& numbers.stats is Some ==> now.stats is Some && now.stats->0.live_total
                == numbers.stats->0.live_total + added && now.stats->0.thumbnails_generated
                == numbers.stats->0.thumbnails_generated
            &&& now.counts.dom() == numbers.counts.dom()
            &&& numbers.counts.dom().contains(mode) ==> {
                let (before, after) = (numbers.counts[mode], now.counts[mode]);
                &&& after.dom().contains(key)
                &&& after[key] == added + if before.dom().contains(key) {
                    before[key] as int
                } else {
                    0
                }
                &&& other != key ==> after.dom().contains(other) == before.dom().contains(other)
                    && (before.dom().contains(other) ==> after[other] == before[other])
            }
            &&& now.loading == numbers.loading && now.dirty_pending == numbers.dirty_pending
        }),
{
    let now = numbers.after_addition(mode, added, key);
    assert(now.counts.dom() =~= numbers.counts.dom());
}

/// Photos that go away leave the totals, and no more thumbnails are counted than
/// there are photos.
pub proof fn removals_leave_the_totals(
    numbers: MetadataView,
    mode: GroupBy,
    removed: u32,
    lost: Seq<DisplayedItem>,
)
    requires
        numbers.total is Some ==> removed <= numbers.total->0,
        numbers.stats is Some ==> removed <= numbers.stats->0.live_total,
    ensures
        ({
            let now = numbers.after_removal(mode, removed, lost);
            &&& numbers.total is Some ==> now.total is Some && now.total->0 == numbers.total->0
                - removed
            &&& numbers.stats is Some ==> {
                let (before, after) = (numbers.stats->0, now.stats->0);
                &&& now.stats is Some
                &&& after.live_total == before.live_total - removed
                &&& after.thumbnails_generated <= after.live_total
                &&& before.thumbnails_generated <= after.live_total ==> after.thumbnails_generated
                    == before.thumbnails_generated
                &&& after.thumbnails_generated == before.thumbnails_generated
                    || after.thumbnails_generated == after.live_total
            }
            &&& numbers.counts.dom().contains(mode) ==> now.counts[mode] == lowered_by(
                numbers.counts[mode],
                lost,
            )
            &&& forall|other: GroupBy|
                other != mode && numbers.counts.dom().contains(other)
                    ==> #[trigger] now.counts[other] == numbers.counts[other]
        }),
{
}

/// What is forgotten has to be loaded again, for every view, and a load under way
/// is not taken for the new numbers. Progress stays only while it is on screen
/// and thumbnails are missing.
pub proof fn forgotten_numbers_are_loaded_again(numbers: MetadataView, on_screen: bool)
    ensures
        ({
            let now = numbers.invalidated(on_screen);
            &&& now.total is None
            &&& forall|mode: GroupBy| !#[trigger] now.complete_for(mode)
            &&& forall|mode: GroupBy| (#[trigger] now.known_counts(mode)) is None
            &&& now.loading == numbers.loading
            &&& now.dirty_pending <==> numbers.loading
            &&& now.stats is Some <==> on_screen && numbers.stats is Some
                && numbers.stats->0.thumbnails_generated < numbers.stats->0.live_total
            &&& now.stats is Some ==> now.stats == numbers.stats
        }),
{
}

/// A load brings what it read, and what it could not read stays as it was; views
/// that it did not read keep their counts.
pub proof fn loads_fill_in_what_they_read(
    numbers: MetadataView,
    mode: GroupBy,
    total: Option<u32>,
    stats: Option<LibraryStats>,
    counts: Option<Map<SectionKey, u32>>,
    other: GroupBy,
)
    ensures
        ({
            let now = numbers.filled(mode, total, stats, counts);
            &&& now.total == if total is Some { total } else { numbers.total }
            &&& now.stats == if stats is Some { stats } else { numbers.stats }
            &&& now.known_counts(mode) == if counts is Some {
                counts
            } else {
                numbers.known_counts(mode)
            }
            &&& other != mode ==> now.known_counts(other) == numbers.known_counts(other)
            &&& total is Some && stats is Some && counts is Some ==> now.complete_for(mode)
        }),
{
}

} // verus!
