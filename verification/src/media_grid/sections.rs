//! Grouping photos into calendar sections, and the library-wide photo count of
//! each section.

use crate::media::{section_key_for_item, GroupBy, MediaItem, SectionKey};
#[allow(unused_imports)]
use crate::media::section_of;
use vstd::prelude::*;

verus! {

/// One section of a grouped list: its key and the positions of its photos in
/// the list.
pub struct MediaSection {
    pub key: SectionKey,
    pub members: Vec<usize>,
}

/// The meaning of a `MediaSection`.
pub struct SectionGroup {
    pub key: SectionKey,
    pub members: Seq<usize>,
}

impl View for MediaSection {
    type V = SectionGroup;

    open spec fn view(&self) -> SectionGroup {
        SectionGroup { key: self.key, members: self.members@ }
    }
}

/// The meanings of a list of sections.
pub open spec fn groups_of(sections: Seq<MediaSection>) -> Seq<SectionGroup> {
    Seq::new(sections.len(), |i: int| sections[i]@)
}

/// The position of the group with `key`, or the number of groups.
pub open spec fn key_position(groups: Seq<SectionGroup>, key: SectionKey) -> int
    decreases groups.len(),
{
    if groups.len() == 0 || groups[0].key == key {
        0
    } else {
        1 + key_position(groups.subrange(1, groups.len() as int), key)
    }
}

/// `groups` with the photo at `index` added to the group with `key`, a new one
/// at the end where there is none.
pub open spec fn with_member(
    groups: Seq<SectionGroup>,
    key: SectionKey,
    index: usize,
) -> Seq<SectionGroup> {
    let at = key_position(groups, key);
    if at < groups.len() {
        groups.update(at, SectionGroup { key, members: groups[at].members.push(index) })
    } else {
        groups.push(SectionGroup { key, members: seq![index] })
    }
}

/// The photos grouped by section, sections in the order in which they first
/// appear and photos in list order inside each.
pub open spec fn grouped(items: Seq<MediaItem>, mode: GroupBy) -> Seq<SectionGroup>
    decreases items.len(),
{
    if items.len() == 0 {
        Seq::empty()
    } else {
        with_member(
            grouped(items.drop_last(), mode),
            section_of(items.last(), mode),
            (items.len() - 1) as usize,
        )
    }
}

/// All photos in one section without a key.
pub open spec fn flat_group(count: int) -> Seq<SectionGroup> {
    seq![
        SectionGroup {
            key: SectionKey { year: None, month: None, day: None },
            members: Seq::new(count as nat, |i: int| i as usize),
        },
    ]
}

pub proof fn lemma_key_position(groups: Seq<SectionGroup>, key: SectionKey)
    ensures
        0 <= key_position(groups, key) <= groups.len(),
        forall|i: int| 0 <= i < key_position(groups, key) ==> (#[trigger] groups[i]).key != key,
        key_position(groups, key) < groups.len() ==> groups[key_position(groups, key)].key == key,
    decreases groups.len(),
{
    if groups.len() > 0 && groups[0].key != key {
        let rest = groups.subrange(1, groups.len() as int);
        lemma_key_position(rest, key);
        let p = key_position(rest, key);
        assert forall|i: int| 0 <= i < p + 1 implies (#[trigger] groups[i]).key != key by {
            if i > 0 {
                assert(rest[i - 1] == groups[i]);
            }
        }
        if p < rest.len() {
            assert(rest[p] == groups[p + 1]);
        }
    }
}

proof fn lemma_key_position_is(groups: Seq<SectionGroup>, key: SectionKey, p: int)
    requires
        0 <= p <= groups.len(),
        forall|i: int| 0 <= i < p ==> (#[trigger] groups[i]).key != key,
        p < groups.len() ==> groups[p].key == key,
    ensures
        key_position(groups, key) == p,
{
    lemma_key_position(groups, key);
    let q = key_position(groups, key);
    if p < q {
        assert(groups[p].key != key);
    } else if q < p {
        assert(groups[q].key != key);
    }
}

/// No two groups share a key, and none is empty.
pub open spec fn proper_groups(groups: Seq<SectionGroup>) -> bool {
    &&& forall|i: int, j: int|
        #![trigger groups[i], groups[j]]
        0 <= i < j < groups.len() ==> groups[i].key != groups[j].key
    &&& forall|i: int| 0 <= i < groups.len() ==> (#[trigger] groups[i]).members.len() > 0
}

/// Group the first `count` of `items` by section.
pub fn group_items(items: &Vec<MediaItem>, count: usize, mode: GroupBy) -> (sections: Vec<
    MediaSection,
>)
    requires
        count <= items@.len(),
    ensures
        groups_of(sections@) == grouped(items@.subrange(0, count as int), mode),
{
    let mut sections: Vec<MediaSection> = Vec::new();
    let mut i: usize = 0;
    assert(items@.subrange(0, 0) =~= Seq::<MediaItem>::empty());
    assert(groups_of(sections@) =~= Seq::<SectionGroup>::empty());
    while i < count
        invariant
            count <= items@.len(),
            i <= count,
            groups_of(sections@) == grouped(items@.subrange(0, i as int), mode),
        decreases count - i,
    {
        let key: SectionKey = section_key_for_item(&items[i], mode);
        proof {
            assert(items@.subrange(0, i + 1).drop_last() =~= items@.subrange(0, i as int));
            assert(items@.subrange(0, i + 1).last() == items@[i as int]);
        }
        add_member(&mut sections, key, i);
        i += 1;
    }
    sections
}

fn add_member(sections: &mut Vec<MediaSection>, key: SectionKey, index: usize)
    ensures
        groups_of(final(sections)@) == with_member(groups_of(old(sections)@), key, index),
{
    let ghost before = groups_of(sections@);
    let mut i: usize = 0;
    while i < sections.len()
        invariant
            sections@ == old(sections)@,
            before == groups_of(sections@),
            i <= sections@.len(),
            forall|k: int| 0 <= k < i ==> (#[trigger] before[k]).key != key,
        decreases sections@.len() - i,
    {
        assert(before[i as int] == sections@[i as int]@);
        if sections[i].key == key {
            proof {
                lemma_key_position_is(before, key, i as int);
            }
            let mut section: MediaSection = sections.remove(i);
            section.members.push(index);
            sections.insert(i, section);
            assert(groups_of(sections@) =~= with_member(before, key, index));
            return;
        }
        i += 1;
    }
    proof {
        lemma_key_position_is(before, key, i as int);
    }
    let mut members: Vec<usize> = Vec::new();
    members.push(index);
    assert(members@ =~= seq![index]);
    sections.push(MediaSection { key, members });
    assert(groups_of(sections@) =~= with_member(before, key, index));
}

/// Every member of a group is a photo of the group's section.
pub open spec fn members_belong(
    items: Seq<MediaItem>,
    groups: Seq<SectionGroup>,
    mode: GroupBy,
) -> bool {
    forall|g: int, m: int|
        #![trigger groups[g].members[m]]
        0 <= g < groups.len() && 0 <= m < groups[g].members.len() ==> {
            &&& groups[g].members[m] < items.len()
            &&& section_of(items[groups[g].members[m] as int], mode) == groups[g].key
        }
}

/// The members of a group stand in list order.
pub open spec fn members_in_order(groups: Seq<SectionGroup>) -> bool {
    forall|g: int, m: int, n: int|
        #![trigger groups[g].members[m], groups[g].members[n]]
        0 <= g < groups.len() && 0 <= m < n < groups[g].members.len() ==> groups[g].members[m]
            < groups[g].members[n]
}

/// Is the photo at `index` a member of some group?
pub open spec fn is_placed(groups: Seq<SectionGroup>, index: int) -> bool {
    exists|g: int, m: int|
        #![trigger groups[g].members[m]]
        0 <= g < groups.len() && 0 <= m < groups[g].members.len() && groups[g].members[m] == index
}

proof fn lemma_groups_are_proper(items: Seq<MediaItem>, mode: GroupBy)
    ensures
        proper_groups(grouped(items, mode)),
    decreases items.len(),
{
    if items.len() > 0 {
        lemma_groups_are_proper(items.drop_last(), mode);
        let before = grouped(items.drop_last(), mode);
        let after = grouped(items, mode);
        let key = section_of(items.last(), mode);
        lemma_key_position(before, key);
        assert forall|i: int, j: int| 0 <= i < j < after.len() implies (#[trigger] after[i]).key != (
        #[trigger] after[j]).key by {
            if j < before.len() {
                assert(before[i].key != before[j].key);
            } else {
                assert(before[i].key != key);
            }
        }
    }
}

proof fn lemma_members_belong(items: Seq<MediaItem>, mode: GroupBy)
    requires
        items.len() <= usize::MAX,
    ensures
        members_belong(items, grouped(items, mode), mode),
        members_in_order(grouped(items, mode)),
    decreases items.len(),
{
    if items.len() > 0 {
        let front = items.drop_last();
        lemma_members_belong(front, mode);
        let before = grouped(front, mode);
        let after = grouped(items, mode);
        let key = section_of(items.last(), mode);
        lemma_key_position(before, key);
        assert forall|g: int, m: int|
            #![trigger after[g].members[m]]
            0 <= g < after.len() && 0 <= m < after[g].members.len() implies after[g].members[m]
            < items.len() && section_of(items[after[g].members[m] as int], mode) == after[g].key by {
            if g < before.len() && m < before[g].members.len() {
                assert(after[g].members[m] == before[g].members[m]);
                assert(front[before[g].members[m] as int] == items[before[g].members[m] as int]);
            }
        }
        assert forall|g: int, m: int, n: int|
            #![trigger after[g].members[m], after[g].members[n]]
            0 <= g < after.len() && 0 <= m < n < after[g].members.len() implies after[g].members[m]
            < after[g].members[n] by {
            assert(g < before.len());
            assert(after[g].members[m] == before[g].members[m]);
            if n < before[g].members.len() {
                assert(after[g].members[n] == before[g].members[n]);
            }
        }
    }
}

proof fn lemma_every_photo_placed(items: Seq<MediaItem>, mode: GroupBy, index: int)
    requires
        items.len() <= usize::MAX,
        0 <= index < items.len(),
    ensures
        is_placed(grouped(items, mode), index),
    decreases items.len(),
{
    let front = items.drop_last();
    let before = grouped(front, mode);
    let after = grouped(items, mode);
    lemma_key_position(before, section_of(items.last(), mode));
    if index < front.len() {
        lemma_every_photo_placed(front, mode, index);
        let (g, m) = choose|g: int, m: int|
            #![trigger before[g].members[m]]
            0 <= g < before.len() && 0 <= m < before[g].members.len() && before[g].members[m]
                == index;
        assert(after[g].members[m] == index);
    } else {
        let at = key_position(before, section_of(items.last(), mode));
        let m = after[at].members.len() - 1;
        assert(after[at].members[m] == index);
    }
}

/// Grouping makes no empty and no repeated section, puts photos only into the
/// section of their date, keeps them in list order there, and forgets none.
pub proof fn grouping_places_every_photo(items: Seq<MediaItem>, mode: GroupBy)
    requires
        items.len() <= usize::MAX,
    ensures
        proper_groups(grouped(items, mode)),
        members_belong(items, grouped(items, mode), mode),
        members_in_order(grouped(items, mode)),
        forall|index: int|
            0 <= index < items.len() ==> #[trigger] is_placed(grouped(items, mode), index),
{
    lemma_groups_are_proper(items, mode);
    lemma_members_belong(items, mode);
    assert forall|index: int| 0 <= index < items.len() implies #[trigger] is_placed(
        grouped(items, mode),
        index,
    ) by {
        lemma_every_photo_placed(items, mode, index);
    }
}

/// Sections come in the order in which their first photos stand in the list.
pub proof fn sections_come_in_list_order(items: Seq<MediaItem>, mode: GroupBy)
    requires
        items.len() <= usize::MAX,
    ensures
        forall|g: int, h: int|
            #![trigger grouped(items, mode)[g], grouped(items, mode)[h]]
            0 <= g < h < grouped(items, mode).len() ==> grouped(items, mode)[g].members[0]
                < grouped(items, mode)[h].members[0],
    decreases items.len(),
{
    if items.len() > 0 {
        let front = items.drop_last();
        sections_come_in_list_order(front, mode);
        lemma_members_belong(front, mode);
        lemma_groups_are_proper(front, mode);
        let before = grouped(front, mode);
        let after = grouped(items, mode);
        lemma_key_position(before, section_of(items.last(), mode));
        assert forall|g: int, h: int|
            #![trigger after[g], after[h]]
            0 <= g < h < after.len() implies after[g].members[0] < after[h].members[0] by {
            assert(after[g].members[0] == before[g].members[0]);
            if h < before.len() {
                assert(after[h].members[0] == before[h].members[0]);
                assert(before[g].members[0] < before[h].members[0]);
            } else {
                assert(before[g].members[0] < front.len());
            }
        }
    }
}

/// Library-wide photo counts, by section.
pub struct SectionCounts {
    entries: Vec<(SectionKey, u32)>,
}

impl View for SectionCounts {
    type V = Map<SectionKey, u32>;

    closed spec fn view(&self) -> Map<SectionKey, u32> {
        entry_map(self.entries@)
    }
}

/// The map that a list of entries with distinct keys stands for.
spec fn entry_map(entries: Seq<(SectionKey, u32)>) -> Map<SectionKey, u32> {
    Map::new(
        |key: SectionKey| exists|i: int| 0 <= i < entries.len() && (#[trigger] entries[i]).0 == key,
        |key: SectionKey|
            entries[choose|i: int| 0 <= i < entries.len() && (#[trigger] entries[i]).0 == key].1,
    )
}

spec fn distinct_keys(entries: Seq<(SectionKey, u32)>) -> bool {
    forall|i: int, j: int|
        #![trigger entries[i], entries[j]]
        0 <= i < j < entries.len() ==> entries[i].0 != entries[j].0
}

proof fn lemma_entry(entries: Seq<(SectionKey, u32)>, i: int)
    requires
        distinct_keys(entries),
        0 <= i < entries.len(),
    ensures
        entry_map(entries).dom().contains(entries[i].0),
        entry_map(entries)[entries[i].0] == entries[i].1,
{
    let key = entries[i].0;
    let k = choose|k: int| 0 <= k < entries.len() && (#[trigger] entries[k]).0 == key;
    if k < i {
        assert(entries[k].0 != entries[i].0);
    } else if i < k {
        assert(entries[i].0 != entries[k].0);
    }
}

impl SectionCounts {
    pub closed spec fn wf(self) -> bool {
        distinct_keys(self.entries@)
    }

    /// No counts.
    pub fn new() -> (counts: SectionCounts)
        ensures
            counts.wf(),
            counts@ == Map::<SectionKey, u32>::empty(),
    {
        let counts = SectionCounts { entries: Vec::new() };
        assert(counts@ =~= Map::<SectionKey, u32>::empty());
        counts
    }

    fn find(&self, key: SectionKey) -> (place: Option<usize>)
        requires
            self.wf(),
        ensures
            place is Some <==> self@.dom().contains(key),
            place matches Some(i) ==> i < self.entries@.len() && self.entries@[i as int].0 == key
                && self.entries@[i as int].1 == self@[key],
    {
        let mut i: usize = 0;
        while i < self.entries.len()
            invariant
                self.wf(),
                i <= self.entries@.len(),
                forall|k: int| 0 <= k < i ==> (#[trigger] self.entries@[k]).0 != key,
            decreases self.entries@.len() - i,
        {
            if self.entries[i].0 == key {
                proof {
                    lemma_entry(self.entries@, i as int);
                }
                return Some(i);
            }
            i += 1;
        }
        None
    }

    /// The count of a section.
    pub fn get(&self, key: SectionKey) -> (count: Option<u32>)
        requires
            self.wf(),
        ensures
            count is Some <==> self@.dom().contains(key),
            count matches Some(n) ==> n == self@[key],
    {
        match self.find(key) {
            Some(i) => Some(self.entries[i].1),
            None => None,
        }
    }

    /// The number of sections.
    pub closed spec fn spec_len(&self) -> nat {
        self.entries@.len()
    }

    /// One of the sections, with its count.
    pub closed spec fn spec_entry(&self, k: int) -> (SectionKey, u32) {
        self.entries@[k]
    }

    /// The number of sections.
    pub fn len(&self) -> (count: usize)
        ensures
            count == self.spec_len(),
    {
        self.entries.len()
    }

    /// One of the sections, with its count.
    pub fn entry(&self, k: usize) -> (entry: (SectionKey, u32))
        requires
            self.wf(),
            k < self.spec_len(),
        ensures
            entry == self.spec_entry(k as int),
            self@.dom().contains(entry.0),
            self@[entry.0] == entry.1,
    {
        proof {
            lemma_entry(self.entries@, k as int);
        }
        self.entries[k]
    }

    pub proof fn lemma_entry_counts(&self, k: int)
        requires
            self.wf(),
            0 <= k < self.spec_len(),
        ensures
            self@.dom().contains(self.spec_entry(k).0),
            self@[self.spec_entry(k).0] == self.spec_entry(k).1,
    {
        lemma_entry(self.entries@, k);
    }

    pub proof fn lemma_entries_distinct(&self)
        requires
            self.wf(),
        ensures
            forall|i: int, j: int|
                #![trigger self.spec_entry(i), self.spec_entry(j)]
                0 <= i < j < self.spec_len() ==> self.spec_entry(i).0 != self.spec_entry(j).0,
    {
    }

    pub proof fn lemma_every_key_listed(&self, key: SectionKey)
        requires
            self@.dom().contains(key),
        ensures
            exists|k: int| 0 <= k < self.spec_len() && (#[trigger] self.spec_entry(k)).0 == key,
    {
        let k = choose|k: int| 0 <= k < self.entries@.len() && (#[trigger] self.entries@[k]).0
            == key;
        assert(self.spec_entry(k).0 == key);
    }

    /// Set the count of a section.
    pub fn insert(&mut self, key: SectionKey, count: u32)
        requires
            old(self).wf(),
        ensures
            final(self).wf(),
            final(self)@ == old(self)@.insert(key, count),
    {
        let ghost before = self.entries@;
        match self.find(key) {
            Some(i) => {
                self.entries.set(i, (key, count));
                proof {
                    let now = self.entries@;
                    assert(distinct_keys(now)) by {
                        assert forall|a: int, b: int| 0 <= a < b < now.len() implies (
                        #[trigger] now[a]).0 != (#[trigger] now[b]).0 by {
                            assert(before[a].0 != before[b].0);
                        }
                    }
                    lemma_same_entries(before, now, key, count, i as int);
                }
            },
            None => {
                self.entries.push((key, count));
                proof {
                    let now = self.entries@;
                    assert(distinct_keys(now)) by {
                        assert forall|a: int, b: int| 0 <= a < b < now.len() implies (
                        #[trigger] now[a]).0 != (#[trigger] now[b]).0 by {
                            if b < before.len() {
                                assert(before[a].0 != before[b].0);
                            } else {
                                assert(before[a].0 != key);
                            }
                        }
                    }
                    lemma_same_entries(before, now, key, count, before.len() as int);
                }
            },
        }
    }

    /// Forget the count of a section.
    pub fn remove(&mut self, key: SectionKey)
        requires
            old(self).wf(),
        ensures
            final(self).wf(),
            final(self)@ == old(self)@.remove(key),
    {
        let ghost before = self.entries@;
        match self.find(key) {
            Some(i) => {
                let _ = self.entries.remove(i);
                proof {
                    let now = self.entries@;
                    assert(distinct_keys(now)) by {
                        assert forall|a: int, b: int| 0 <= a < b < now.len() implies (
                        #[trigger] now[a]).0 != (#[trigger] now[b]).0 by {
                            let x = if a < i { a } else { a + 1 };
                            let y = if b < i { b } else { b + 1 };
                            assert(before[x].0 != before[y].0);
                        }
                    }
                    assert forall|k: SectionKey| entry_map(now).dom().contains(k) <==> (
                    entry_map(before).dom().contains(k) && k != key) by {
                        if entry_map(now).dom().contains(k) {
                            let a = choose|a: int| 0 <= a < now.len() && (#[trigger] now[a]).0 == k;
                            let x = if a < i { a } else { a + 1 };
                            assert(before[x].0 == k);
                            if x < i {
                                assert(before[x].0 != before[i as int].0);
                            } else {
                                assert(before[i as int].0 != before[x].0);
                            }
                        }
                        if entry_map(before).dom().contains(k) && k != key {
                            let x = choose|x: int|
                                0 <= x < before.len() && (#[trigger] before[x]).0 == k;
                            let a = if x < i { x } else { x - 1 };
                            assert(now[a].0 == k);
                        }
                    }
                    assert forall|k: SectionKey| entry_map(now).dom().contains(k) implies entry_map(
                        now,
                    )[k] == entry_map(before)[k] by {
                        let a = choose|a: int| 0 <= a < now.len() && (#[trigger] now[a]).0 == k;
                        let x = if a < i { a } else { a + 1 };
                        lemma_entry(now, a);
                        lemma_entry(before, x);
                    }
                    assert(entry_map(now) =~= entry_map(before).remove(key));
                }
            },
            None => {
                assert(self@ =~= old(self)@.remove(key));
            },
        }
    }
}

proof fn lemma_same_entries(
    before: Seq<(SectionKey, u32)>,
    now: Seq<(SectionKey, u32)>,
    key: SectionKey,
    count: u32,
    at: int,
)
    requires
        distinct_keys(before),
        distinct_keys(now),
        0 <= at < now.len(),
        now[at] == (key, count),
        before.len() <= now.len() <= before.len() + 1,
        forall|i: int| 0 <= i < now.len() && i != at ==> i < before.len() && #[trigger] now[i]
            == before[i],
        at < before.len() ==> before[at].0 == key && now.len() == before.len(),
    ensures
        entry_map(now) == entry_map(before).insert(key, count),
{
    lemma_entry(now, at);
    assert forall|k: SectionKey| entry_map(now).dom().contains(k) <==> (entry_map(
        before,
    ).dom().contains(k) || k == key) by {
        if entry_map(now).dom().contains(k) {
            let a = choose|a: int| 0 <= a < now.len() && (#[trigger] now[a]).0 == k;
            if a != at {
                assert(before[a].0 == k);
            }
        }
        if entry_map(before).dom().contains(k) {
            let x = choose|x: int| 0 <= x < before.len() && (#[trigger] before[x]).0 == k;
            if x != at {
                assert(now[x].0 == k);
            }
        }
    }
    assert forall|k: SectionKey| entry_map(now).dom().contains(k) && k != key implies entry_map(
        now,
    )[k] == entry_map(before)[k] by {
        let a = choose|a: int| 0 <= a < now.len() && (#[trigger] now[a]).0 == k;
        assert(a != at);
        lemma_entry(now, a);
        lemma_entry(before, a);
    }
    assert(entry_map(now) =~= entry_map(before).insert(key, count));
}

} // verus!
