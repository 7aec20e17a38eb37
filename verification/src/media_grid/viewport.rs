//! Where the view stands in the library, and which thumbnails it needs first.

use super::sections::SectionCounts;
#[allow(unused_imports)]
use super::state::GridView;
use super::state::MediaGrid;
#[allow(unused_imports)]
use crate::calendar::CivilDate;
use crate::media::SectionKey;
#[allow(unused_imports)]
use crate::media::{date_is_before, section_of_date, GroupBy};
use vstd::prelude::*;

verus! {

// ---------------------------------------------------------------------------
// Thumbnails in view

/// Where a tile lies, seen from the viewport.
#[derive(Clone, Copy, Debug, PartialEq, Eq, Structural)]
pub enum TilePlace {
    /// In the viewport or one page around it.
    Near,
    /// Above that.
    Above,
    /// Below that, and so are all tiles behind it.
    Below,
    /// Not laid out yet.
    Unknown,
}

/// The tiles near the viewport, in order, up to the first tile below it.
pub open spec fn near_tiles(places: Seq<TilePlace>) -> Seq<usize>
    decreases places.len(),
{
    if places.len() == 0 {
        Seq::empty()
    } else {
        let front = near_tiles(places.drop_last());
        let last = (places.len() - 1) as usize;
        if places.last() == TilePlace::Near && !places.contains(TilePlace::Below) {
            front.push(last)
        } else {
            front
        }
    }
}

/// The tiles whose thumbnails are needed first.
pub fn collect_visible_tiles(places: &Vec<TilePlace>) -> (tiles: Vec<usize>)
    ensures
        tiles@ == near_tiles(places@),
{
    let mut tiles: Vec<usize> = Vec::new();
    let mut i: usize = 0;
    let ghost all = places@;
    assert(all.subrange(0, 0) =~= Seq::<TilePlace>::empty());
    while i < places.len()
        invariant
            all == places@,
            i <= all.len(),
            tiles@ == near_tiles(all.subrange(0, i as int)),
            !all.subrange(0, i as int).contains(TilePlace::Below),
        decreases all.len() - i,
    {
        let ghost now = all.subrange(0, i + 1);
        proof {
            assert(now.drop_last() =~= all.subrange(0, i as int));
            assert(now.last() == all[i as int]);
        }
        if places[i] == TilePlace::Below {
            proof {
                assert(all[i as int] == TilePlace::Below);
                lemma_nothing_behind_below(all, i as int, all.len() as int);
                assert(all.subrange(0, all.len() as int) =~= all);
            }
            return tiles;
        }
        proof {
            if now.contains(TilePlace::Below) {
                let k = choose|k: int| 0 <= k < now.len() && now[k] == TilePlace::Below;
                assert(all.subrange(0, i as int)[k] == TilePlace::Below);
            }
        }
        if places[i] == TilePlace::Near {
            tiles.push(i);
        }
        i += 1;
    }
    assert(all.subrange(0, all.len() as int) =~= all);
    tiles
}

proof fn lemma_nothing_behind_below(all: Seq<TilePlace>, at: int, end: int)
    requires
        0 <= at < end <= all.len(),
        all[at] == TilePlace::Below,
    ensures
        near_tiles(all.subrange(0, end)) == near_tiles(all.subrange(0, at)),
    decreases end - at,
{
    let now = all.subrange(0, end);
    assert(now[at] == TilePlace::Below);
    assert(now.contains(TilePlace::Below));
    assert(now.drop_last() =~= all.subrange(0, end - 1));
    if end - 1 > at {
        lemma_nothing_behind_below(all, at, end - 1);
    }
}

/// Work that a burst of events asks for once.
pub struct Debounce {
    pub waiting: bool,
}

impl Debounce {
    pub fn new() -> (debounce: Debounce)
        ensures
            !debounce.waiting,
    {
        Debounce { waiting: false }
    }

    /// Ask for the work; `true` when a timer has to be set up for it.
    pub fn schedule(&mut self) -> (set_up: bool)
        ensures
            set_up == !old(self).waiting,
            final(self).waiting,
    {
        let set_up: bool = !self.waiting;
        self.waiting = true;
        set_up
    }

    /// The timer went off.
    pub fn fire(&mut self)
        ensures
            !final(self).waiting,
    {
        self.waiting = false;
    }
}

// ---------------------------------------------------------------------------
// The section in view

/// Is one optional part of a date later than another? A missing part is the
/// earliest.
pub open spec fn part_is_later(a: Option<int>, b: Option<int>) -> bool {
    match (a, b) {
        (Some(x), Some(y)) => x > y,
        (Some(_), None) => true,
        _ => false,
    }
}

pub open spec fn year_of(key: SectionKey) -> Option<int> {
    match key.year {
        Some(year) => Some(year as int),
        None => None,
    }
}

pub open spec fn month_of(key: SectionKey) -> Option<int> {
    match key.month {
        Some(month) => Some(month as int),
        None => None,
    }
}

pub open spec fn day_of(key: SectionKey) -> Option<int> {
    match key.day {
        Some(day) => Some(day as int),
        None => None,
    }
}

/// Does section `a` come before section `b`, newest first?
pub open spec fn is_newer(a: SectionKey, b: SectionKey) -> bool {
    ||| part_is_later(year_of(a), year_of(b))
    ||| year_of(a) == year_of(b) && part_is_later(month_of(a), month_of(b))
    ||| year_of(a) == year_of(b) && month_of(a) == month_of(b) && part_is_later(
        day_of(a),
        day_of(b),
    )
}

/// Are the sections in order, newest first?
pub open spec fn newest_first(order: Seq<(SectionKey, u32)>) -> bool {
    forall|i: int, j: int|
        #![trigger order[i], order[j]]
        0 <= i < j < order.len() ==> is_newer(order[i].0, order[j].0)
}

/// Does the list hold exactly these counts?
pub open spec fn lists_counts(
    order: Seq<(SectionKey, u32)>,
    counts: Map<SectionKey, u32>,
) -> bool {
    &&& forall|i: int|
        0 <= i < order.len() ==> counts.dom().contains((#[trigger] order[i]).0)
            && counts[order[i].0] == order[i].1
    &&& forall|key: SectionKey| #[trigger]
        counts.dom().contains(key) ==> exists|i: int|
            0 <= i < order.len() && (#[trigger] order[i]).0 == key
}

/// The section of the photo at `offset` of a library whose sections follow one
/// another in `order`; behind the end it is the last section.
pub open spec fn section_at(order: Seq<(SectionKey, u32)>, offset: int) -> Option<SectionKey>
    decreases order.len(),
{
    if order.len() == 0 {
        None
    } else if order.len() == 1 || offset < order[0].1 {
        Some(order[0].0)
    } else {
        section_at(order.subrange(1, order.len() as int), offset - order[0].1)
    }
}

fn later_i32(a: Option<i32>, b: Option<i32>) -> (later: bool)
    ensures
        later == part_is_later(
            match a {
                Some(x) => Some(x as int),
                None => None,
            },
            match b {
                Some(y) => Some(y as int),
                None => None,
            },
        ),
{
    match (a, b) {
        (Some(x), Some(y)) => x > y,
        (Some(_), None) => true,
        _ => false,
    }
}

fn later_u32(a: Option<u32>, b: Option<u32>) -> (later: bool)
    ensures
        later == part_is_later(
            match a {
                Some(x) => Some(x as int),
                None => None,
            },
            match b {
                Some(y) => Some(y as int),
                None => None,
            },
        ),
{
    match (a, b) {
        (Some(x), Some(y)) => x > y,
        (Some(_), None) => true,
        _ => false,
    }
}

fn newer(a: SectionKey, b: SectionKey) -> (is: bool)
    ensures
        is == is_newer(a, b),
{
    later_i32(a.year, b.year) || (a.year == b.year && later_u32(a.month, b.month)) || (a.year
        == b.year && a.month == b.month && later_u32(a.day, b.day))
}

proof fn lemma_newer_is_total(a: SectionKey, b: SectionKey, c: SectionKey)
    ensures
        is_newer(a, b) && is_newer(b, c) ==> is_newer(a, c),
        !is_newer(a, b) && !is_newer(b, a) ==> a == b,
        !(is_newer(a, b) && is_newer(b, a)),
{
}

/// There is only one way to list sections newest first.
pub proof fn section_order_is_unique(
    a: Seq<(SectionKey, u32)>,
    b: Seq<(SectionKey, u32)>,
    counts: Map<SectionKey, u32>,
)
    requires
        newest_first(a),
        newest_first(b),
        lists_counts(a, counts),
        lists_counts(b, counts),
    ensures
        a == b,
{
    assert forall|n: int| 0 <= n <= a.len() && n <= b.len() implies #[trigger] a.subrange(0, n)
        == b.subrange(0, n) by {
        lemma_same_front(a, b, counts, n);
    }
    if a.len() < b.len() {
        lemma_same_front(a, b, counts, a.len() as int);
        let last = b[a.len() as int];
        assert(counts.dom().contains(last.0));
        let i = choose|i: int| 0 <= i < a.len() && (#[trigger] a[i]).0 == last.0;
        assert(a.subrange(0, a.len() as int)[i] == b.subrange(0, a.len() as int)[i]);
        assert(is_newer(b[i].0, last.0));
        lemma_newer_is_total(last.0, last.0, last.0);
    } else if b.len() < a.len() {
        lemma_same_front(a, b, counts, b.len() as int);
        let last = a[b.len() as int];
        assert(counts.dom().contains(last.0));
        let i = choose|i: int| 0 <= i < b.len() && (#[trigger] b[i]).0 == last.0;
        assert(a.subrange(0, b.len() as int)[i] == b.subrange(0, b.len() as int)[i]);
        assert(is_newer(a[i].0, last.0));
        lemma_newer_is_total(last.0, last.0, last.0);
    } else {
        assert(a.subrange(0, a.len() as int) =~= a);
        assert(b.subrange(0, a.len() as int) =~= b);
        lemma_same_front(a, b, counts, a.len() as int);
    }
}

proof fn lemma_same_front(
    a: Seq<(SectionKey, u32)>,
    b: Seq<(SectionKey, u32)>,
    counts: Map<SectionKey, u32>,
    n: int,
)
    requires
        newest_first(a),
        newest_first(b),
        lists_counts(a, counts),
        lists_counts(b, counts),
        0 <= n <= a.len(),
        n <= b.len(),
    ensures
        a.subrange(0, n) == b.subrange(0, n),
    decreases n,
{
    if n > 0 {
        lemma_same_front(a, b, counts, n - 1);
        let (x, y) = (a[n - 1], b[n - 1]);
        assert forall|i: int| 0 <= i < n - 1 implies a[i] == b[i] by {
            assert(a.subrange(0, n - 1)[i] == b.subrange(0, n - 1)[i]);
        }
        assert(counts.dom().contains(x.0));
        assert(counts.dom().contains(y.0));
        let i = choose|i: int| 0 <= i < b.len() && (#[trigger] b[i]).0 == x.0;
        let j = choose|j: int| 0 <= j < a.len() && (#[trigger] a[j]).0 == y.0;
        if i < n - 1 {
            assert(a[i].0 == x.0);
            assert(is_newer(a[i].0, a[n - 1].0));
            lemma_newer_is_total(x.0, x.0, x.0);
        }
        if j < n - 1 {
            assert(b[j].0 == y.0);
            assert(is_newer(b[j].0, b[n - 1].0));
            lemma_newer_is_total(y.0, y.0, y.0);
        }
        if i > n - 1 && j > n - 1 {
            assert(is_newer(b[n - 1].0, b[i].0));
            assert(is_newer(a[n - 1].0, a[j].0));
            lemma_newer_is_total(x.0, y.0, x.0);
        }
        assert(x == y);
        assert(a.subrange(0, n) =~= b.subrange(0, n));
    }
}

/// Is `entry` among the first `n` entries of the counts?
spec fn listed_before(counts: SectionCounts, n: int, entry: (SectionKey, u32)) -> bool {
    exists|k: int| 0 <= k < n && #[trigger] counts.spec_entry(k) == entry
}

fn insert_newest_first(order: &mut Vec<(SectionKey, u32)>, entry: (SectionKey, u32))
    requires
        newest_first(old(order)@),
        forall|i: int| 0 <= i < old(order)@.len() ==> (#[trigger] old(order)@[i]).0 != entry.0,
    ensures
        newest_first(final(order)@),
        forall|x: (SectionKey, u32)|
            #[trigger] final(order)@.contains(x) <==> old(order)@.contains(x) || x == entry,
{
    let ghost before = order@;
    let mut p: usize = 0;
    while p < order.len() && newer(order[p].0, entry.0)
        invariant
            order@ == before,
            p <= before.len(),
            forall|i: int| 0 <= i < p ==> is_newer((#[trigger] before[i]).0, entry.0),
        decreases before.len() - p,
    {
        p += 1;
    }
    order.insert(p, entry);
    proof {
        let now = order@;
        assert forall|i: int| p <= i < before.len() implies is_newer(
            entry.0,
            (#[trigger] before[i]).0,
        ) by {
            assert(before[p as int].0 != entry.0);
            lemma_newer_is_total(before[p as int].0, entry.0, entry.0);
            if i > p {
                assert(is_newer(before[p as int].0, before[i].0));
                lemma_newer_is_total(entry.0, before[p as int].0, before[i].0);
            }
        }
        assert forall|i: int, j: int| 0 <= i < j < now.len() implies is_newer(
            (#[trigger] now[i]).0,
            (#[trigger] now[j]).0,
        ) by {
            let a = if i < p { i } else { i - 1 };
            let b = if j < p { j } else { j - 1 };
            if i != p && j != p {
                assert(is_newer(before[a].0, before[b].0));
            } else if i == p {
                assert(is_newer(entry.0, before[b].0));
            } else {
                assert(is_newer(before[a].0, entry.0));
            }
        }
        assert forall|x: (SectionKey, u32)| #[trigger]
            now.contains(x) <==> before.contains(x) || x == entry by {
            if now.contains(x) {
                let i = choose|i: int| 0 <= i < now.len() && now[i] == x;
                if i != p {
                    assert(before[if i < p { i } else { i - 1 }] == x);
                }
            }
            if before.contains(x) {
                let i = choose|i: int| 0 <= i < before.len() && before[i] == x;
                assert(now[if i < p { i } else { i + 1 }] == x);
            }
            assert(now[p as int] == entry);
        }
    }
}

impl SectionCounts {
    /// The sections and their counts, newest first.
    pub fn newest_first(&self) -> (order: Vec<(SectionKey, u32)>)
        requires
            self.wf(),
        ensures
            newest_first(order@),
            lists_counts(order@, self@),
    {
        let mut order: Vec<(SectionKey, u32)> = Vec::new();
        let mut n: usize = 0;
        while n < self.len()
            invariant
                self.wf(),
                n <= self.spec_len(),
                newest_first(order@),
                forall|x: (SectionKey, u32)|
                    #[trigger] order@.contains(x) <==> listed_before(*self, n as int, x),
            decreases self.spec_len() - n,
        {
            let entry: (SectionKey, u32) = self.entry(n);
            let ghost before = order@;
            proof {
                self.lemma_entries_distinct();
                assert forall|i: int| 0 <= i < before.len() implies (#[trigger] before[i]).0
                    != entry.0 by {
                    assert(before.contains(before[i]));
                    let k = choose|k: int|
                        0 <= k < n && #[trigger] self.spec_entry(k) == before[i];
                    assert(self.spec_entry(k).0 != self.spec_entry(n as int).0);
                }
            }
            insert_newest_first(&mut order, entry);
            proof {
                assert forall|x: (SectionKey, u32)| #[trigger]
                    order@.contains(x) <==> listed_before(*self, n + 1, x) by {
                    assert(before.contains(x) <==> listed_before(*self, n as int, x));
                    assert(self.spec_entry(n as int) == entry);
                    if listed_before(*self, n as int, x) {
                        let k = choose|k: int| 0 <= k < n && #[trigger] self.spec_entry(k) == x;
                        assert(self.spec_entry(k) == x);
                    }
                }
            }
            n += 1;
        }
        proof {
            assert forall|i: int| 0 <= i < order@.len() implies self@.dom().contains(
                (#[trigger] order@[i]).0,
            ) && self@[order@[i].0] == order@[i].1 by {
                assert(order@.contains(order@[i]));
                let k = choose|k: int| 0 <= k < n && #[trigger] self.spec_entry(k) == order@[i];
                self.lemma_entry_counts(k);
            }
            assert forall|key: SectionKey| #[trigger] self@.dom().contains(key) implies exists|i: int|
                0 <= i < order@.len() && (#[trigger] order@[i]).0 == key by {
                self.lemma_every_key_listed(key);
                let k = choose|k: int|
                    0 <= k < self.spec_len() && (#[trigger] self.spec_entry(k)).0 == key;
                assert(listed_before(*self, n as int, self.spec_entry(k)));
                assert(order@.contains(self.spec_entry(k)));
                let i = choose|i: int| 0 <= i < order@.len() && order@[i] == self.spec_entry(k);
                assert(order@[i].0 == key);
            }
        }
        order
    }
}

fn find_section_at(order: &Vec<(SectionKey, u32)>, offset: u32) -> (key: Option<SectionKey>)
    ensures
        key == section_at(order@, offset as int),
{
    if order.is_empty() {
        return None;
    }
    let ghost all = order@;
    let mut left: u32 = offset;
    let mut i: usize = 0;
    assert(all.subrange(0, all.len() as int) =~= all);
    while i < order.len() - 1 && left >= order[i].1
        invariant
            all == order@,
            i < all.len(),
            section_at(all, offset as int) == section_at(
                all.subrange(i as int, all.len() as int),
                left as int,
            ),
        decreases all.len() - i,
    {
        proof {
            let rest = all.subrange(i as int, all.len() as int);
            assert(rest[0] == all[i as int]);
            assert(rest.subrange(1, rest.len() as int) =~= all.subrange(
                i + 1,
                all.len() as int,
            ));
        }
        left = left - order[i].1;
        i += 1;
    }
    assert(all.subrange(i as int, all.len() as int)[0] == all[i as int]);
    Some(order[i].0)
}

impl GridView {
    /// The section in view when the view stands at `offset` of the library.
    pub open spec fn is_section_in_view(self, offset: u32, key: Option<SectionKey>) -> bool {
        match self.metadata.known_counts(self.flags.mode) {
            Some(counts) => exists|order: Seq<(SectionKey, u32)>|
                newest_first(order) && lists_counts(order, counts) && key == #[trigger] section_at(
                    order,
                    offset as int,
                ),
            None => key is None,
        }
    }
}

impl MediaGrid {
    /// The section in view when the view stands at `offset` of the library: the
    /// newest section at its top, the oldest at its end. `None` while the
    /// sections of the library are not known.
    pub fn current_scroll_section_key(&self, offset: u32) -> (key: Option<SectionKey>)
        requires
            self.wf(),
        ensures
            self@.is_section_in_view(offset, key),
    {
        match self.metadata.counts(self.flags.mode) {
            Some(counts) => {
                let order: Vec<(SectionKey, u32)> = counts.newest_first();
                let key: Option<SectionKey> = find_section_at(&order, offset);
                assert(key == section_at(order@, offset as int));
                key
            },
            None => None,
        }
    }
}

/// The section in view is determined by the counts and the offset.
pub proof fn the_section_in_view_is_unique(
    grid: GridView,
    offset: u32,
    a: Option<SectionKey>,
    b: Option<SectionKey>,
)
    requires
        grid.is_section_in_view(offset, a),
        grid.is_section_in_view(offset, b),
    ensures
        a == b,
{
    match grid.metadata.known_counts(grid.flags.mode) {
        Some(counts) => {
            let x = choose|order: Seq<(SectionKey, u32)>|
                newest_first(order) && lists_counts(order, counts) && a == #[trigger] section_at(
                    order,
                    offset as int,
                );
            let y = choose|order: Seq<(SectionKey, u32)>|
                newest_first(order) && lists_counts(order, counts) && b == #[trigger] section_at(
                    order,
                    offset as int,
                );
            section_order_is_unique(x, y, counts);
        },
        None => {},
    }
}

/// The thumbnails that are needed first are those of all tiles near the viewport
/// that no tile below it comes before, from top to bottom.
pub proof fn near_tiles_come_first(places: Seq<TilePlace>)
    requires
        places.len() <= usize::MAX,
    ensures
        forall|i: usize|
            #[trigger] near_tiles(places).contains(i) <==> i < places.len() && places[i as int]
                == TilePlace::Near && forall|k: int|
                0 <= k < i ==> #[trigger] places[k] != TilePlace::Below,
        forall|a: int, b: int|
            0 <= a < b < near_tiles(places).len() ==> #[trigger] near_tiles(places)[a]
                < #[trigger] near_tiles(places)[b],
    decreases places.len(),
{
    if places.len() > 0 {
        let rest = places.drop_last();
        near_tiles_come_first(rest);
        let front = near_tiles(rest);
        let now = near_tiles(places);
        let last = (places.len() - 1) as usize;
        assert forall|i: usize| #[trigger] now.contains(i) <==> i < places.len()
            && places[i as int] == TilePlace::Near && forall|k: int|
            0 <= k < i ==> #[trigger] places[k] != TilePlace::Below by {
            assert(front.contains(i) <==> i < rest.len() && rest[i as int] == TilePlace::Near
                && forall|k: int| 0 <= k < i ==> #[trigger] rest[k] != TilePlace::Below);
            if now.contains(i) {
                let m = choose|m: int| 0 <= m < now.len() && now[m] == i;
                if m < front.len() {
                    assert(front[m] == i);
                    assert forall|k: int| 0 <= k < i implies #[trigger] places[k]
                        != TilePlace::Below by {
                        assert(rest[k] != TilePlace::Below);
                    }
                } else {
                    assert forall|k: int| 0 <= k < i implies #[trigger] places[k]
                        != TilePlace::Below by {
                        assert(places.contains(places[k]));
                    }
                }
            }
            if i < places.len() && places[i as int] == TilePlace::Near && (forall|k: int|
                0 <= k < i ==> #[trigger] places[k] != TilePlace::Below) {
                if i < last {
                    assert forall|k: int| 0 <= k < i implies #[trigger] rest[k]
                        != TilePlace::Below by {
                        assert(places[k] != TilePlace::Below);
                    }
                    let m = choose|m: int| 0 <= m < front.len() && front[m] == i;
                    assert(now[m] == i);
                } else {
                    if places.contains(TilePlace::Below) {
                        let k = choose|k: int| 0 <= k < places.len() && places[k] == TilePlace::Below;
                        assert(places[k] == TilePlace::Below);
                    }
                    assert(now[front.len() as int] == i);
                }
            }
        }
        assert forall|a: int, b: int| 0 <= a < b < now.len() implies #[trigger] now[a]
            < #[trigger] now[b] by {
            assert(front[a] == now[a]);
            assert(front.contains(front[a]));
            if b < front.len() {
                assert(front[a] < front[b]);
            }
        }
    }
}

/// The number of photos in the first `count` sections.
pub open spec fn photos_in(order: Seq<(SectionKey, u32)>, count: int) -> int
    decreases count,
{
    if count <= 0 {
        0
    } else {
        photos_in(order, count - 1) + order[count - 1].1
    }
}

proof fn lemma_photos_in_rest(order: Seq<(SectionKey, u32)>, count: int)
    requires
        1 <= count <= order.len(),
    ensures
        photos_in(order, count) == order[0].1 + photos_in(
            order.subrange(1, order.len() as int),
            count - 1,
        ),
    decreases count,
{
    let rest = order.subrange(1, order.len() as int);
    if count > 1 {
        lemma_photos_in_rest(order, count - 1);
        assert(rest[count - 2] == order[count - 1]);
    } else {
        assert(photos_in(order, 0) == 0);
    }
}

/// The section in view is the one that holds the photo at the offset when the
/// sections are counted through from the first. Behind the last photo it is the
/// last section.
pub proof fn the_section_in_view_holds_the_offset(
    order: Seq<(SectionKey, u32)>,
    offset: int,
    k: int,
)
    requires
        0 <= k < order.len(),
        photos_in(order, k) <= offset,
        offset < photos_in(order, k + 1) || k == order.len() - 1,
    ensures
        section_at(order, offset) == Some(order[k].0),
    decreases order.len(),
{
    if order.len() > 1 {
        let rest = order.subrange(1, order.len() as int);
        lemma_photos_in_rest(order, k + 1);
        lemma_photos_in_grow(rest, k);
        if k > 0 {
            lemma_photos_in_rest(order, k);
            lemma_photos_in_grow(rest, k - 1);
            the_section_in_view_holds_the_offset(rest, offset - order[0].1, k - 1);
            assert(rest[k - 1] == order[k]);
        } else {
            assert(photos_in(order, 1) == photos_in(order, 0) + order[0].1);
        }
    }
}

proof fn lemma_photos_in_grow(order: Seq<(SectionKey, u32)>, count: int)
    ensures
        photos_in(order, count) >= 0,
    decreases count,
{
    if count > 0 {
        lemma_photos_in_grow(order, count - 1);
    }
}

/// Sections of later dates come first: of two dates in different sections the
/// later one is in the newer section.
pub proof fn later_dates_are_newer(a: CivilDate, b: CivilDate, mode: GroupBy)
    requires
        date_is_before(b, a),
        section_of_date(a, mode) != section_of_date(b, mode),
    ensures
        is_newer(section_of_date(a, mode), section_of_date(b, mode)),
        !is_newer(section_of_date(b, mode), section_of_date(a, mode)),
{
}

} // verus!
