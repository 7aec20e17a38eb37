//! The page with all albums, and putting them in another order.

use super::album::Album;
use vstd::prelude::*;

verus! {

/// The texts of a list of strings.
pub open spec fn texts(paths: Seq<String>) -> Seq<Seq<char>> {
    paths.map_values(|path: String| path@)
}

/// The paths other than `path`, in order.
pub open spec fn paths_without(paths: Seq<Seq<char>>, path: Seq<char>) -> Seq<Seq<char>>
    decreases paths.len(),
{
    if paths.len() == 0 {
        paths
    } else {
        let front = paths_without(paths.drop_last(), path);
        if paths.last() == path {
            front
        } else {
            front.push(paths.last())
        }
    }
}

/// The position of the first `path`, or the number of paths.
pub open spec fn path_position(paths: Seq<Seq<char>>, path: Seq<char>) -> int
    decreases paths.len(),
{
    if paths.len() == 0 || paths[0] == path {
        0
    } else {
        1 + path_position(paths.subrange(1, paths.len() as int), path)
    }
}

proof fn lemma_path_position_is(paths: Seq<Seq<char>>, path: Seq<char>, p: int)
    requires
        0 <= p <= paths.len(),
        forall|i: int| 0 <= i < p ==> #[trigger] paths[i] != path,
        p < paths.len() ==> paths[p] == path,
    ensures
        path_position(paths, path) == p,
    decreases paths.len(),
{
    if paths.len() > 0 && p > 0 {
        assert(paths[0] != path);
        let rest = paths.subrange(1, paths.len() as int);
        assert forall|i: int| 0 <= i < p - 1 implies #[trigger] rest[i] != path by {
            assert(paths[i + 1] != path);
        }
        lemma_path_position_is(rest, path, p - 1);
    }
}

proof fn lemma_path_position_bounds(paths: Seq<Seq<char>>, path: Seq<char>)
    ensures
        0 <= path_position(paths, path) <= paths.len(),
        path_position(paths, path) < paths.len() ==> paths[path_position(paths, path)] == path,
    decreases paths.len(),
{
    if paths.len() > 0 && paths[0] != path {
        let rest = paths.subrange(1, paths.len() as int);
        lemma_path_position_bounds(rest, path);
        let p = path_position(rest, path);
        if p < rest.len() {
            assert(rest[p] == paths[p + 1]);
        }
    }
}

/// The order after the album `source` was dropped on the album `target`: in
/// front of it or behind it, at the end where `target` is not there.
pub open spec fn reordered(
    paths: Seq<Seq<char>>,
    source: Seq<char>,
    target: Seq<char>,
    drop_after: bool,
) -> Seq<Seq<char>> {
    let rest = paths_without(paths, source);
    let at = path_position(rest, target);
    let place = if at < rest.len() && drop_after { at + 1 } else { at };
    rest.insert(place, source)
}

/// The page with all albums.
pub struct AlbumBrowserPage {
    pub albums: Vec<Album>,
}

/// The folders of a list of albums.
pub open spec fn folders(albums: Seq<Album>) -> Seq<Seq<char>> {
    albums.map_values(|album: Album| album.folder_path@)
}

impl AlbumBrowserPage {
    /// A page that shows `albums`.
    pub fn new(albums: Vec<Album>) -> (page: AlbumBrowserPage)
        ensures
            page.albums == albums,
    {
        AlbumBrowserPage { albums }
    }

    /// Show these albums from now on.
    pub fn refresh(&mut self, albums: Vec<Album>)
        ensures
            final(self).albums == albums,
    {
        self.albums = albums;
    }

    /// The number of albums on the page.
    pub fn album_count(&self) -> (count: usize)
        ensures
            count == self.albums@.len(),
    {
        self.albums.len()
    }

    /// The folders of the albums, in the order of the page.
    pub fn album_folder_paths(&self) -> (paths: Vec<String>)
        ensures
            texts(paths@) == folders(self.albums@),
    {
        let mut paths: Vec<String> = Vec::new();
        let mut i: usize = 0;
        while i < self.albums.len()
            invariant
                i <= self.albums@.len(),
                paths@.len() == i,
                forall|k: int| 0 <= k < i ==> paths@[k]@ == self.albums@[k].folder_path@,
            decreases self.albums@.len() - i,
        {
            paths.push(self.albums[i].folder_path.clone());
            i += 1;
        }
        assert(texts(paths@) =~= folders(self.albums@));
        paths
    }

    /// The order to store after the album `source_path` was dropped on the album
    /// `target_path`; none when it was dropped on itself.
    pub fn reorder_album(&self, source_path: &String, target_path: &String, drop_after: bool) -> (
    order: Option<Vec<String>>)
        ensures
            order is Some <==> source_path@ != target_path@,
            order matches Some(paths) ==> texts(paths@) == reordered(
                folders(self.albums@),
                source_path@,
                target_path@,
                drop_after,
            ),
    {
        if *source_path == *target_path {
            return None;
        }
        let ghost all = folders(self.albums@);
        let mut order: Vec<String> = Vec::new();
        let mut i: usize = 0;
        assert(all.subrange(0, 0) =~= Seq::<Seq<char>>::empty());
        assert(texts(order@) =~= Seq::<Seq<char>>::empty());
        while i < self.albums.len()
            invariant
                all == folders(self.albums@),
                i <= self.albums@.len(),
                texts(order@) == paths_without(all.subrange(0, i as int), source_path@),
            decreases self.albums@.len() - i,
        {
            proof {
                assert(all.subrange(0, i + 1).drop_last() =~= all.subrange(0, i as int));
                assert(all.subrange(0, i + 1).last() == self.albums@[i as int].folder_path@);
            }
            let path: &String = &self.albums[i].folder_path;
            if *path != *source_path {
                let ghost before = order@;
                order.push(path.clone());
                assert(texts(order@) =~= texts(before).push(path@));
            }
            i += 1;
        }
        assert(all.subrange(0, all.len() as int) =~= all);
        let ghost rest = texts(order@);
        let mut at: usize = 0;
        while at < order.len() && order[at] != *target_path
            invariant
                rest == texts(order@),
                at <= order@.len(),
                forall|k: int| 0 <= k < at ==> #[trigger] rest[k] != target_path@,
            decreases order@.len() - at,
        {
            assert(rest[at as int] == order@[at as int]@);
            at += 1;
        }
        proof {
            if at < order@.len() {
                assert(rest[at as int] == order@[at as int]@);
            }
            lemma_path_position_is(rest, target_path@, at as int);
        }
        let place: usize = if at < order.len() && drop_after {
            at + 1
        } else {
            at
        };
        let ghost before = order@;
        order.insert(place, source_path.clone());
        assert(texts(order@) =~= rest.insert(place as int, source_path@));
        Some(order)
    }
}

proof fn lemma_paths_without(paths: Seq<Seq<char>>, path: Seq<char>)
    ensures
        forall|x: Seq<char>|
            #[trigger] paths_without(paths, path).contains(x) <==> paths.contains(x) && x != path,
        paths.no_duplicates() ==> paths_without(paths, path).no_duplicates(),
    decreases paths.len(),
{
    if paths.len() > 0 {
        let front = paths.drop_last();
        lemma_paths_without(front, path);
        let before = paths_without(front, path);
        let now = paths_without(paths, path);
        assert forall|x: Seq<char>| #[trigger]
            now.contains(x) <==> paths.contains(x) && x != path by {
            assert(before.contains(x) <==> front.contains(x) && x != path);
            if now.contains(x) {
                let k = choose|k: int| 0 <= k < now.len() && now[k] == x;
                if k < before.len() {
                    assert(before[k] == x);
                    let j = choose|j: int| 0 <= j < front.len() && front[j] == x;
                    assert(paths[j] == x);
                } else {
                    assert(paths[paths.len() - 1] == x);
                }
            }
            if paths.contains(x) && x != path {
                let j = choose|j: int| 0 <= j < paths.len() && paths[j] == x;
                if j < front.len() {
                    assert(front[j] == x);
                    let k = choose|k: int| 0 <= k < before.len() && before[k] == x;
                    assert(now[k] == x);
                } else {
                    assert(now[now.len() - 1] == x);
                }
            }
        }
        if paths.no_duplicates() {
            assert(front.no_duplicates());
            assert forall|i: int, j: int|
                0 <= i < now.len() && 0 <= j < now.len() && i != j implies now[i] != now[j] by {
                if i < before.len() && j < before.len() {
                    assert(before[i] != before[j]);
                } else {
                    let k = if i < before.len() { i } else { j };
                    assert(before.contains(before[k]));
                    assert(front.contains(before[k]));
                    let m = choose|m: int| 0 <= m < front.len() && front[m] == before[k];
                    assert(paths[m] != paths[paths.len() - 1]);
                }
            }
        }
    }
}

/// Reordering keeps every album exactly once, and puts the dragged one right
/// beside the one it was dropped on.
pub proof fn reordering_moves_one_album(
    paths: Seq<Seq<char>>,
    source: Seq<char>,
    target: Seq<char>,
    drop_after: bool,
)
    requires
        paths.no_duplicates(),
        paths.contains(source),
        paths.contains(target),
        source != target,
    ensures
        ({
            let order = reordered(paths, source, target, drop_after);
            &&& order.no_duplicates()
            &&& forall|x: Seq<char>| #[trigger] order.contains(x) <==> paths.contains(x)
            &&& exists|k: int|
                #![trigger order[k]]
                0 <= k < order.len() && order[k] == source && (if drop_after {
                    0 < k && order[k - 1] == target
                } else {
                    k + 1 < order.len() && order[k + 1] == target
                })
        }),
{
    let rest = paths_without(paths, source);
    lemma_paths_without(paths, source);
    assert(rest.contains(target));
    lemma_path_position_bounds(rest, target);
    let at = path_position(rest, target);
    if at == rest.len() {
        let k = choose|k: int| 0 <= k < rest.len() && rest[k] == target;
        lemma_path_position_reaches(rest, target, k);
    }
    let place = if drop_after { at + 1 } else { at };
    let order = rest.insert(place, source);
    assert(order == reordered(paths, source, target, drop_after));
    assert(order[place] == source);
    if drop_after {
        assert(order[place - 1] == rest[at]);
    } else {
        assert(order[place + 1] == rest[at]);
    }
    assert forall|i: int, j: int|
        0 <= i < order.len() && 0 <= j < order.len() && i != j implies order[i] != order[j] by {
        let a = if i < place { i } else { i - 1 };
        let b = if j < place { j } else { j - 1 };
        if i != place && j != place {
            assert(rest[a] != rest[b]);
        } else {
            let k = if i == place { b } else { a };
            assert(rest.contains(rest[k]));
        }
    }
    assert forall|x: Seq<char>| #[trigger] order.contains(x) <==> paths.contains(x) by {
        assert(rest.contains(x) <==> paths.contains(x) && x != source);
        if order.contains(x) {
            let k = choose|k: int| 0 <= k < order.len() && order[k] == x;
            if k != place {
                assert(rest[if k < place { k } else { k - 1 }] == x);
            }
        }
        if paths.contains(x) {
            if x == source {
                assert(order[place] == x);
            } else {
                let k = choose|k: int| 0 <= k < rest.len() && rest[k] == x;
                assert(order[if k < place { k } else { k + 1 }] == x);
            }
        }
    }
}

proof fn lemma_path_position_reaches(paths: Seq<Seq<char>>, path: Seq<char>, k: int)
    requires
        0 <= k < paths.len(),
        paths[k] == path,
    ensures
        path_position(paths, path) <= k,
    decreases paths.len(),
{
    if paths[0] != path {
        let rest = paths.subrange(1, paths.len() as int);
        assert(rest[k - 1] == path);
        lemma_path_position_reaches(rest, path, k - 1);
    }
}

proof fn lemma_paths_without_is_filter(paths: Seq<Seq<char>>, path: Seq<char>)
    ensures
        paths_without(paths, path) == paths.filter(|other: Seq<char>| other != path),
        paths_without(paths, path).filter(|other: Seq<char>| other != path) == paths_without(
            paths,
            path,
        ),
    decreases paths.len(),
{
    reveal(Seq::filter);
    if paths.len() > 0 {
        let front = paths.drop_last();
        lemma_paths_without_is_filter(front, path);
        let before = paths_without(front, path);
        if paths.last() != path {
            assert(before.push(paths.last()).drop_last() =~= before);
        }
    }
}

proof fn lemma_filter_drops_inserted(rest: Seq<Seq<char>>, place: int, source: Seq<char>)
    requires
        0 <= place <= rest.len(),
    ensures
        rest.insert(place, source).filter(|other: Seq<char>| other != source) == rest.filter(
            |other: Seq<char>| other != source,
        ),
    decreases rest.len(),
{
    reveal(Seq::filter);
    let order = rest.insert(place, source);
    if place == rest.len() {
        assert(order.drop_last() =~= rest);
    } else {
        let front = rest.drop_last();
        lemma_filter_drops_inserted(front, place, source);
        assert(order.drop_last() =~= front.insert(place, source));
    }
}

/// Reordering leaves all albums but the dragged one in the order in which they
/// were. Dropped on an album that is not there, it goes to the end.
pub proof fn reordering_keeps_the_other_albums_in_order(
    paths: Seq<Seq<char>>,
    source: Seq<char>,
    target: Seq<char>,
    drop_after: bool,
)
    ensures
        reordered(paths, source, target, drop_after).filter(|other: Seq<char>| other != source)
            == paths.filter(|other: Seq<char>| other != source),
        reordered(paths, source, target, drop_after).contains(source),
        !paths.contains(target) ==> reordered(paths, source, target, drop_after).last() == source,
{
    let rest = paths_without(paths, source);
    lemma_paths_without_is_filter(paths, source);
    lemma_paths_without(paths, source);
    lemma_path_position_bounds(rest, target);
    let at = path_position(rest, target);
    let place = if at < rest.len() && drop_after { at + 1 } else { at };
    let order = rest.insert(place, source);
    assert(order[place] == source);
    lemma_filter_drops_inserted(rest, place, source);
    if !paths.contains(target) && at < rest.len() {
        assert(rest.contains(rest[at]));
    }
}

} // verus!
