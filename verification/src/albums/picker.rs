//! The dialog that adds photos to an album: first the album, then whether the
//! photos are copied or moved.

use super::album::Album;
#[allow(unused_imports)]
use super::browser::{folders, texts};
use vstd::prelude::*;

verus! {

/// The dialog hands nothing back to those who open it.
pub type AlbumPickerHandle = ();

/// How photos get into an album.
#[derive(Clone, Copy, Debug, PartialEq, Eq, Structural)]
pub enum AlbumOpMode {
    Copy,
    Move,
}

/// The list of albums to choose from.
pub enum AlbumRows {
    /// The albums are not known yet, or could not be read.
    Unknown,
    /// A word that there are none.
    NoAlbums,
    /// One row for each album, with its folder.
    Rows(Vec<String>),
}

/// What the dialog shows.
pub enum PickerPage {
    /// The albums to choose from.
    Albums,
    /// Copy or move, for the album with this folder.
    Action(String),
}

/// The dialog.
pub struct AlbumPickerDialog {
    pub media_ids: Vec<i64>,
    pub rows: AlbumRows,
    pub page: PickerPage,
}

/// Photos to be put into an album.
pub struct AlbumOperation {
    pub media_ids: Vec<i64>,
    pub folder: String,
    pub mode: AlbumOpMode,
}

fn copy_ids(ids: &Vec<i64>) -> (copies: Vec<i64>)
    ensures
        copies@ == ids@,
{
    let mut copies: Vec<i64> = Vec::new();
    let mut i: usize = 0;
    while i < ids.len()
        invariant
            i <= ids@.len(),
            copies@ =~= ids@.subrange(0, i as int),
        decreases ids@.len() - i,
    {
        copies.push(ids[i]);
        i += 1;
    }
    copies
}

impl AlbumPickerDialog {
    /// Open the dialog for some photos; there is none for no photos.
    pub fn present(media_ids: Vec<i64>) -> (dialog: Option<AlbumPickerDialog>)
        ensures
            dialog is Some <==> media_ids@.len() > 0,
            dialog matches Some(opened) ==> opened.media_ids == media_ids && opened.page is Albums
                && opened.rows is Unknown,
    {
        if media_ids.is_empty() {
            None
        } else {
            Some(
                AlbumPickerDialog {
                    media_ids,
                    rows: AlbumRows::Unknown,
                    page: PickerPage::Albums,
                },
            )
        }
    }

    /// The albums were read, or could not be (`None`).
    pub fn populate(&mut self, albums: Option<Vec<Album>>)
        ensures
            final(self).media_ids == old(self).media_ids,
            final(self).page == old(self).page,
            albums is None ==> final(self).rows == old(self).rows,
            albums matches Some(found) ==> (final(self).rows is NoAlbums <==> found@.len() == 0),
            albums matches Some(found) ==> found@.len() > 0 ==> (final(self).rows matches
                AlbumRows::Rows(rows) && texts(rows@) == folders(found@)),
    {
        match albums {
            None => {},
            Some(found) => {
                if found.is_empty() {
                    self.rows = AlbumRows::NoAlbums;
                } else {
                    let mut rows: Vec<String> = Vec::new();
                    let mut i: usize = 0;
                    while i < found.len()
                        invariant
                            i <= found@.len(),
                            rows@.len() == i,
                            forall|k: int|
                                0 <= k < i ==> (#[trigger] rows@[k])@ == found@[k].folder_path@,
                        decreases found@.len() - i,
                    {
                        rows.push(found[i].folder_path.clone());
                        i += 1;
                    }
                    assert(texts(rows@) =~= folders(found@));
                    self.rows = AlbumRows::Rows(rows);
                }
            },
        }
    }

    /// Choose the album of a row; `false` when there is no such row.
    pub fn choose_album(&mut self, row: usize) -> (chosen: bool)
        ensures
            final(self).media_ids == old(self).media_ids,
            final(self).rows == old(self).rows,
            chosen == (old(self).rows matches AlbumRows::Rows(rows) && row < rows@.len()),
            chosen ==> (final(self).page matches PickerPage::Action(folder) && folder@ == old(
                self,
            ).rows->Rows_0@[row as int]@),
            !chosen ==> final(self).page == old(self).page,
    {
        if let AlbumRows::Rows(rows) = &self.rows {
            if row < rows.len() {
                self.page = PickerPage::Action(rows[row].clone());
                return true;
            }
        }
        false
    }

    /// Choose to copy or to move. Returns what has to be done.
    pub fn choose_action(&self, mode: AlbumOpMode) -> (operation: Option<AlbumOperation>)
        ensures
            operation is Some <==> self.page is Action,
            operation matches Some(todo) ==> todo.media_ids@ == self.media_ids@ && self.page
                == PickerPage::Action(todo.folder) && todo.mode == mode,
    {
        match &self.page {
            PickerPage::Action(folder) => Some(
                AlbumOperation {
                    media_ids: copy_ids(&self.media_ids),
                    folder: folder.clone(),
                    mode,
                },
            ),
            PickerPage::Albums => None,
        }
    }

    /// The photos were put into the album, or could not be: either way the
    /// albums are shown again.
    pub fn finish(&mut self)
        ensures
            *final(self) == (AlbumPickerDialog { page: PickerPage::Albums, ..*old(self) }),
    {
        self.page = PickerPage::Albums;
    }
}

// ---------------------------------------------------------------------------
// The name of a folder

/// The place of the last slash, or -1.
pub open spec fn last_slash(path: Seq<char>) -> int
    decreases path.len(),
{
    if path.len() == 0 {
        -1
    } else if path.last() == '/' {
        path.len() - 1
    } else {
        last_slash(path.drop_last())
    }
}

/// Does the part of a path stand for nothing: is it empty, or the dot of the
/// folder itself?
pub open spec fn is_idle(part: Seq<char>) -> bool {
    part.len() == 0 || part.len() == 1 && part[0] == '.'
}

/// The last part of a path that stands for something; where no part does, the
/// first one.
pub open spec fn last_part(path: Seq<char>) -> Seq<char>
    decreases path.len(),
{
    let slash = last_slash(path);
    let part = path.subrange(slash + 1, path.len() as int);
    if 0 <= slash < path.len() && is_idle(part) {
        last_part(path.subrange(0, slash))
    } else {
        part
    }
}

/// The name of a folder: the last part of its path. A path that names none, or
/// ends in the way up, stands for itself.
pub open spec fn name_of_folder(path: Seq<char>) -> Seq<char> {
    let part = last_part(path);
    if is_idle(part) || part.len() == 2 && part[0] == '.' && part[1] == '.' {
        path
    } else {
        part
    }
}

fn last_part_bounds(path: &str, end: usize) -> (bounds: (usize, usize))
    requires
        end <= path@.len(),
    ensures
        bounds.0 <= bounds.1 <= end,
        path@.subrange(bounds.0 as int, bounds.1 as int) == last_part(
            path@.subrange(0, end as int),
        ),
    decreases end,
{
    let ghost whole = path@.subrange(0, end as int);
    let mut start: usize = end;
    while start > 0 && path.get_char(start - 1) != '/'
        invariant
            start <= end <= path@.len(),
            whole == path@.subrange(0, end as int),
            last_slash(whole) == last_slash(path@.subrange(0, start as int)),
        decreases start,
    {
        assert(path@.subrange(0, start as int).drop_last() =~= path@.subrange(0, start - 1));
        start = start - 1;
    }
    assert(last_slash(whole) == start - 1);
    assert(whole.subrange(start as int, end as int) =~= path@.subrange(start as int, end as int));
    if start > 0 && (start == end || end - start == 1 && path.get_char(start) == '.') {
        assert(whole.subrange(0, start - 1) =~= path@.subrange(0, start - 1));
        last_part_bounds(path, start - 1)
    } else {
        (start, end)
    }
}

/// The name of a folder, as the dialog shows it.
pub fn folder_name(folder: &String) -> (name: String)
    ensures
        name@ == name_of_folder(folder@),
{
    let path: &str = folder.as_str();
    let n: usize = path.unicode_len();
    assert(path@.subrange(0, n as int) =~= path@);
    let (start, end): (usize, usize) = last_part_bounds(path, n);
    let count: usize = end - start;
    let idle: bool = count == 0 || count == 1 && path.get_char(start) == '.';
    let up: bool = count == 2 && path.get_char(start) == '.' && path.get_char(start + 1) == '.';
    if idle || up {
        folder.clone()
    } else {
        path.substring_char(start, end).to_owned()
    }
}

proof fn lemma_last_slash(path: Seq<char>)
    ensures
        -1 <= last_slash(path) < path.len(),
        last_slash(path) >= 0 ==> path[last_slash(path)] == '/',
        forall|i: int| last_slash(path) < i < path.len() ==> #[trigger] path[i] != '/',
    decreases path.len(),
{
    if path.len() > 0 && path.last() != '/' {
        let front = path.drop_last();
        lemma_last_slash(front);
        assert forall|i: int| last_slash(path) < i < path.len() implies #[trigger] path[i]
            != '/' by {
            if i < front.len() {
                assert(front[i] != '/');
            }
        }
    }
}

/// A folder is called by its name, wherever it lies.
pub proof fn folders_go_by_their_names(parent: Seq<char>, name: Seq<char>)
    requires
        !name.contains('/'),
        !is_idle(name),
        name != seq!['.', '.'],
    ensures
        name_of_folder(parent.push('/') + name) == name,
{
    let path = parent.push('/') + name;
    lemma_last_slash(path);
    let slash = last_slash(path);
    assert(path[parent.len() as int] == '/');
    if slash > parent.len() {
        assert(path[slash] == name[slash - parent.len() - 1]);
        assert(name.contains('/'));
    }
    assert(path.subrange(slash + 1, path.len() as int) =~= name);
    if name.len() == 2 && name[0] == '.' && name[1] == '.' {
        assert(name =~= seq!['.', '.']);
    }
}

/// A slash at the end of a path, or a dot for the folder itself, does not change
/// the name of the folder.
pub proof fn idle_parts_do_not_count(parent: Seq<char>, name: Seq<char>)
    requires
        !name.contains('/'),
        !is_idle(name),
        name != seq!['.', '.'],
    ensures
        name_of_folder((parent.push('/') + name).push('/')) == name,
        name_of_folder((parent.push('/') + name).push('/').push('.')) == name,
{
    let path = parent.push('/') + name;
    folders_go_by_their_names(parent, name);
    let once = path.push('/');
    lemma_last_slash(once);
    assert(once[path.len() as int] == '/');
    assert(last_slash(once) == path.len());
    assert(once.subrange(path.len() as int + 1, once.len() as int) =~= Seq::<char>::empty());
    assert(once.subrange(0, path.len() as int) =~= path);
    let dotted = once.push('.');
    lemma_last_slash(dotted);
    assert(dotted[path.len() as int] == '/');
    assert(last_slash(dotted) == path.len());
    assert(dotted.subrange(path.len() as int + 1, dotted.len() as int) =~= seq!['.']);
    assert(dotted.subrange(0, path.len() as int) =~= path);
    lemma_last_part_of_name(parent, name);
}

proof fn lemma_last_part_of_name(parent: Seq<char>, name: Seq<char>)
    requires
        !name.contains('/'),
        !is_idle(name),
    ensures
        last_part(parent.push('/') + name) == name,
{
    let path = parent.push('/') + name;
    lemma_last_slash(path);
    let slash = last_slash(path);
    assert(path[parent.len() as int] == '/');
    if slash > parent.len() {
        assert(path[slash] == name[slash - parent.len() - 1]);
        assert(name.contains('/'));
    }
    assert(path.subrange(slash + 1, path.len() as int) =~= name);
}

} // verus!
