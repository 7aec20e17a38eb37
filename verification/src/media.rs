//! Media items, their global order and the calendar sections they fall in.

use crate::calendar::Timestamp;
#[allow(unused_imports)]
use crate::calendar::{
    calendar_order_is_day_order, civil_date, every_day_has_a_date, representable, CivilDate,
};
use vstd::prelude::*;

verus! {

/// One photo, video or motion photo of the library.
#[derive(Debug)]
pub struct MediaItem {
    pub id: i64,
    pub uri: String,
    pub path: String,
    pub folder_path: String,
    pub mime_type: String,
    pub media_subkind: String,
    pub media_attributes: String,
    pub width: Option<u32>,
    pub height: Option<u32>,
    /// Length of a video, rounded to whole seconds; `None` when it is unknown
    /// or not a valid length.
    pub video_duration_secs: Option<u64>,
    pub taken_at: Option<Timestamp>,
    pub file_mtime: Timestamp,
    pub file_size: u64,
    pub blake3_hash: String,
    pub is_favorite: bool,
    pub trashed_at: Option<Timestamp>,
}

impl Clone for MediaItem {
    fn clone(&self) -> (copy: Self)
        ensures
            copy == *self,
    {
        MediaItem {
            id: self.id,
            uri: self.uri.clone(),
            path: self.path.clone(),
            folder_path: self.folder_path.clone(),
            mime_type: self.mime_type.clone(),
            media_subkind: self.media_subkind.clone(),
            media_attributes: self.media_attributes.clone(),
            width: self.width,
            height: self.height,
            video_duration_secs: self.video_duration_secs,
            taken_at: self.taken_at,
            file_mtime: self.file_mtime,
            file_size: self.file_size,
            blake3_hash: self.blake3_hash.clone(),
            is_favorite: self.is_favorite,
            trashed_at: self.trashed_at,
        }
    }
}

/// How two items stand in the global photo order.
#[derive(Clone, Copy, Debug, PartialEq, Eq, Structural)]
pub enum MediaOrder {
    Before,
    Same,
    After,
}

/// How the grid groups photos.
#[derive(Clone, Copy, Debug, PartialEq, Eq, Structural, Hash)]
pub enum GroupBy {
    Year,
    Month,
    Day,
}

/// The calendar section a photo belongs to. Coarser groupings leave the finer
/// parts empty; a flat grid leaves all of them empty.
#[derive(Clone, Copy, Debug, PartialEq, Eq, Structural, Hash)]
pub struct SectionKey {
    pub year: Option<i32>,
    pub month: Option<u32>,
    pub day: Option<u32>,
}

/// Disk thumbnail buckets.
#[derive(Clone, Copy, Debug, PartialEq, Eq, Structural, Hash)]
pub enum ThumbnailSize {
    Small,
    Medium,
    Large,
}

/// How urgent a thumbnail request is.
#[derive(Clone, Copy, Debug, PartialEq, Eq, Structural)]
pub enum ThumbnailTier {
    Normal,
    /// Before all normal requests.
    Boost,
}

/// Library-wide counters behind the progress line of the day view.
#[derive(Clone, Copy, Debug, PartialEq, Eq, Structural)]
pub struct LibraryStats {
    pub live_total: usize,
    pub thumbnails_generated: usize,
}

impl MediaItem {
    /// The instant a photo is ordered by: when it was taken, or else when its
    /// file last changed.
    pub open spec fn sort_time(self) -> Timestamp {
        match self.taken_at {
            Some(taken) => taken,
            None => self.file_mtime,
        }
    }

    /// The instant a photo is ordered by.
    pub fn sort_datetime(&self) -> (instant: Timestamp)
        ensures
            instant == self.sort_time(),
    {
        match self.taken_at {
            Some(taken) => taken,
            None => self.file_mtime,
        }
    }
}

/// Does `a` come strictly before `b` in the global photo order: newest first,
/// and among photos of one instant the higher id first?
pub open spec fn precedes(a: MediaItem, b: MediaItem) -> bool {
    ||| a.sort_time().later_than(b.sort_time())
    ||| a.sort_time() == b.sort_time() && a.id > b.id
}

/// Do `a` and `b` share one place in the global photo order?
pub open spec fn same_place(a: MediaItem, b: MediaItem) -> bool {
    a.sort_time() == b.sort_time() && a.id == b.id
}

/// Is `items` in global photo order?
pub open spec fn in_media_order(items: Seq<MediaItem>) -> bool {
    forall|i: int, j: int|
        #![trigger items[i], items[j]]
        0 <= i < j < items.len() ==> !precedes(items[j], items[i])
}

/// No two items share a uri.
pub open spec fn distinct_uris(items: Seq<MediaItem>) -> bool {
    forall|i: int, j: int|
        #![trigger items[i], items[j]]
        0 <= i < j < items.len() ==> items[i].uri@ != items[j].uri@
}

/// How `a` stands to `b` in the global photo order.
pub fn compare_media_order(a: &MediaItem, b: &MediaItem) -> (order: MediaOrder)
    ensures
        order == MediaOrder::Before <==> precedes(*a, *b),
        order == MediaOrder::Same <==> same_place(*a, *b),
        order == MediaOrder::After <==> precedes(*b, *a),
{
    let at: Timestamp = a.sort_datetime();
    let bt: Timestamp = b.sort_datetime();
    if at.is_after(&bt) {
        MediaOrder::Before
    } else if bt.is_after(&at) {
        MediaOrder::After
    } else {
        proof {
            crate::calendar::timestamps_are_their_parts(at, bt);
        }
        if a.id > b.id {
            MediaOrder::Before
        } else if a.id < b.id {
            MediaOrder::After
        } else {
            MediaOrder::Same
        }
    }
}

/// The photo order is transitive, and two items neither of which precedes the
/// other share one place.
pub proof fn media_order_is_total(a: MediaItem, b: MediaItem, c: MediaItem)
    ensures
        precedes(a, b) && precedes(b, c) ==> precedes(a, c),
        !(precedes(a, b) && precedes(b, a)),
        !precedes(a, b) && !precedes(b, a) ==> same_place(a, b),
        !precedes(a, b) && !precedes(b, c) ==> !precedes(a, c),
{
    let (at, bt, ct) = (a.sort_time(), b.sort_time(), c.sort_time());
    if at.unix_seconds() == bt.unix_seconds() && at.subsec_nanos() == bt.subsec_nanos() {
        crate::calendar::timestamps_are_their_parts(at, bt);
    }
    if at.unix_seconds() == ct.unix_seconds() && at.subsec_nanos() == ct.subsec_nanos() {
        crate::calendar::timestamps_are_their_parts(at, ct);
    }
    if bt.unix_seconds() == ct.unix_seconds() && bt.subsec_nanos() == ct.subsec_nanos() {
        crate::calendar::timestamps_are_their_parts(bt, ct);
    }
}

/// The section of a calendar date under a grouping.
pub open spec fn section_of_date(date: CivilDate, mode: GroupBy) -> SectionKey {
    match mode {
        GroupBy::Year => SectionKey { year: Some(date.year), month: None, day: None },
        GroupBy::Month => SectionKey { year: Some(date.year), month: Some(date.month), day: None },
        GroupBy::Day => SectionKey {
            year: Some(date.year),
            month: Some(date.month),
            day: Some(date.day),
        },
    }
}

/// The section an item belongs to: the UTC date of its sort time, as fine as
/// the grouping asks for.
pub open spec fn section_of(item: MediaItem, mode: GroupBy) -> SectionKey {
    section_of_date(civil_date(item.sort_time().day()), mode)
}

/// The section an item belongs to.
pub fn section_key_for_item(item: &MediaItem, mode: GroupBy) -> (key: SectionKey)
    ensures
        key == section_of(*item, mode),
{
    let date: CivilDate = item.sort_datetime().date();
    match mode {
        GroupBy::Year => SectionKey { year: Some(date.year), month: None, day: None },
        GroupBy::Month => SectionKey { year: Some(date.year), month: Some(date.month), day: None },
        GroupBy::Day => SectionKey {
            year: Some(date.year),
            month: Some(date.month),
            day: Some(date.day),
        },
    }
}

/// The modification time a thumbnail request carries: the indexed one, never a
/// fresh look at the file.
pub fn thumbnail_request_mtime(item: &MediaItem) -> (mtime: Timestamp)
    ensures
        mtime == item.file_mtime,
{
    item.file_mtime
}

/// Photos of one UTC day share a section under every grouping.
pub proof fn same_day_same_section(a: MediaItem, b: MediaItem, mode: GroupBy)
    requires
        a.sort_time().day() == b.sort_time().day(),
    ensures
        section_of(a, mode) == section_of(b, mode),
{
}

/// Sections are contiguous: in a list in photo order, all photos between two
/// photos of one section belong to that section too.
pub proof fn sections_are_contiguous(
    items: Seq<MediaItem>,
    mode: GroupBy,
    first: int,
    between: int,
    last: int,
)
    requires
        in_media_order(items),
        0 <= first <= between <= last < items.len(),
        section_of(items[first], mode) == section_of(items[last], mode),
        forall|i: int|
            0 <= i < items.len() ==> representable(
                (#[trigger] items[i]).sort_time().unix_seconds(),
                items[i].sort_time().subsec_nanos(),
            ),
    ensures
        section_of(items[between], mode) == section_of(items[first], mode),
{
    let a = items[first].sort_time().day();
    let b = items[between].sort_time().day();
    let c = items[last].sort_time().day();
    assert(a >= b >= c) by {
        if first < between {
            assert(!precedes(items[between], items[first]));
        }
        if between < last {
            assert(!precedes(items[last], items[between]));
        }
    }
    every_day_has_a_date(a);
    every_day_has_a_date(b);
    every_day_has_a_date(c);
    let (da, db, dc) = (civil_date(a), civil_date(b), civil_date(c));
    if da != db && !date_is_before(db, da) {
        calendar_order_is_day_order(da, db);
    }
    if db != dc && !date_is_before(dc, db) {
        calendar_order_is_day_order(db, dc);
    }
}

/// Is `a` an earlier calendar date than `b`?
pub open spec fn date_is_before(a: CivilDate, b: CivilDate) -> bool {
    ||| a.year < b.year
    ||| a.year == b.year && a.month < b.month
    ||| a.year == b.year && a.month == b.month && a.day < b.day
}

/// Newer photos come first. A photo's instant is the one it was taken at, and
/// only where that is unknown the one its file last changed at; of two photos of
/// one instant the one with the higher id comes first.
pub proof fn newer_photos_come_first(a: MediaItem, b: MediaItem, at: Timestamp, bt: Timestamp)
    requires
        a.taken_at == Some(at) || a.taken_at is None && a.file_mtime == at,
        b.taken_at == Some(bt) || b.taken_at is None && b.file_mtime == bt,
    ensures
        at.unix_seconds() > bt.unix_seconds() ==> precedes(a, b),
        at.unix_seconds() == bt.unix_seconds() && at.subsec_nanos() > bt.subsec_nanos()
            ==> precedes(a, b),
        at == bt ==> (precedes(a, b) <==> a.id > b.id),
{
}

/// Photos share a section exactly where they share the year, the month of a year
/// or the day that the grouping asks for, and the section is named after it.
pub proof fn sections_are_calendar_periods(a: MediaItem, b: MediaItem)
    requires
        representable(a.sort_time().unix_seconds(), a.sort_time().subsec_nanos()),
        representable(b.sort_time().unix_seconds(), b.sort_time().subsec_nanos()),
    ensures
        ({
            let (x, y) = (civil_date(a.sort_time().day()), civil_date(b.sort_time().day()));
            &&& section_of(a, GroupBy::Year) == section_of(b, GroupBy::Year) <==> x.year == y.year
            &&& section_of(a, GroupBy::Month) == section_of(b, GroupBy::Month) <==> x.year
                == y.year && x.month == y.month
            &&& section_of(a, GroupBy::Day) == section_of(b, GroupBy::Day)
                <==> a.sort_time().day() == b.sort_time().day()
            &&& forall|mode: GroupBy| (#[trigger] section_of(a, mode)).year == Some(x.year)
            &&& forall|mode: GroupBy|
                (#[trigger] section_of(a, mode)).month is Some ==> section_of(a, mode).month
                    == Some(x.month)
            &&& forall|mode: GroupBy|
                (#[trigger] section_of(a, mode)).day is Some ==> section_of(a, mode).day == Some(
                    x.day,
                )
        }),
{
    every_day_has_a_date(a.sort_time().day());
    every_day_has_a_date(b.sort_time().day());
}

} // verus!
