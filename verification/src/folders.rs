//! The listing of the folders that lie directly in the content root.

use vstd::prelude::*;
use crate::responder::{Body, BodyView, DocumentView, ServedDocument, Status};

verus! {

/// One entry of a directory listing: its name, where the name is valid
/// text, and whether it is a directory.
#[derive(Debug)]
pub struct DirEntry {
    pub name: Option<String>,
    pub directory: bool,
}

/// The folders of the content root and their number.
#[derive(Debug, PartialEq, Eq)]
pub struct FolderList {
    pub folders: Vec<String>,
    pub count: usize,
}

/// The names held by a vector of strings.
pub open spec fn names_of(v: Seq<String>) -> Seq<Seq<char>> {
    Seq::new(v.len(), |i: int| v[i]@)
}

/// Whether an entry counts as a folder: a directory with a name.
pub open spec fn is_folder(e: DirEntry) -> bool {
    e.directory && e.name.is_some()
}

/// The names of the folders among the entries, in the order of the listing.
pub open spec fn folder_names(entries: Seq<DirEntry>) -> Seq<Seq<char>>
    decreases entries.len(),
{
    if entries.len() == 0 {
        Seq::empty()
    } else if is_folder(entries.last()) {
        folder_names(entries.drop_last()).push(entries.last().name.unwrap()@)
    } else {
        folder_names(entries.drop_last())
    }
}

/// The response when the content root cannot be listed.
pub open spec fn listing_failed_document() -> DocumentView {
    DocumentView {
        status: Status::ServerError,
        content_type: None,
        body: BodyView::Text("Failed to read data directory"@),
    }
}

/// Picks the folders out of a directory listing: the entries that are
/// directories and have a name, in the order of the listing. Plain files
/// are left out, and the count is the number of folders.
pub fn count_folders(entries: &Vec<DirEntry>) -> (list: FolderList)
    ensures
        names_of(list.folders@) == folder_names(entries@),
        list.count == list.folders@.len(),
{
    let mut folders: Vec<String> = Vec::new();
    let mut i: usize = 0;
    assert(names_of(folders@) =~= folder_names(entries@.take(0)));
    while i < entries.len()
        invariant
            i <= entries.len(),
            names_of(folders@) == folder_names(entries@.take(i as int)),
        decreases entries.len() - i,
    {
        assert(entries@.take(i + 1).drop_last() =~= entries@.take(i as int));
        assert(entries@.take(i + 1).last() == entries@[i as int]);
        if entries[i].directory {
            match &entries[i].name {
                Some(name) => {
                    let ghost before = names_of(folders@);
                    folders.push(name.clone());
                    assert(names_of(folders@) =~= before.push(name@));
                },
                None => {},
            }
        }
        i += 1;
    }
    assert(entries@.take(i as int) =~= entries@);
    let count = folders.len();
    FolderList { folders, count }
}

/// The folder list for a listing of the content root, or the server-error
/// response when the root could not be listed.
pub fn folder_report(listing: &Option<Vec<DirEntry>>) -> (r: Result<FolderList, ServedDocument>)
    ensures
        match (*listing, r) {
            (Some(entries), Ok(list)) => names_of(list.folders@) == folder_names(entries@)
                && list.count == list.folders@.len(),
            (None, Err(doc)) => doc@ == listing_failed_document(),
            _ => false,
        },
{
    match listing {
        Some(entries) => Ok(count_folders(entries)),
        None => Err(
            ServedDocument {
                status: Status::ServerError,
                content_type: None,
                body: Body::Text("Failed to read data directory".to_owned()),
            },
        ),
    }
}

/// A name is among the folders exactly if some entry of the listing is a
/// directory with that name. So which folders are listed does not depend on
/// the order of the listing, and the name of a plain file is listed only
/// where a directory has the same name.
pub proof fn lemma_folder_membership(entries: Seq<DirEntry>, name: Seq<char>)
    ensures
        folder_names(entries).contains(name) <==> exists|i: int|
            0 <= i < entries.len() && is_folder(#[trigger] entries[i]) && entries[i].name.unwrap()@
                == name,
    decreases entries.len(),
{
    if entries.len() > 0 {
        let front = entries.drop_last();
        let last = entries.last();
        lemma_folder_membership(front, name);
        if folder_names(entries).contains(name) {
            let k = choose|k: int|
                0 <= k < folder_names(entries).len() && folder_names(entries)[k] == name;
            if is_folder(last) && k == folder_names(front).len() {
                assert(is_folder(entries[entries.len() - 1]));
            } else {
                assert(folder_names(front)[k] == name);
                assert(folder_names(front).contains(name));
                let i = choose|i: int|
                    0 <= i < front.len() && is_folder(#[trigger] front[i]) && front[i].name.unwrap()@
                        == name;
                assert(entries[i] == front[i]);
            }
        }
        if exists|i: int|
            0 <= i < entries.len() && is_folder(#[trigger] entries[i]) && entries[i].name.unwrap()@
                == name {
            let i = choose|i: int|
                0 <= i < entries.len() && is_folder(#[trigger] entries[i])
                    && entries[i].name.unwrap()@ == name;
            if i == entries.len() - 1 {
                assert(folder_names(entries)[folder_names(front).len() as int] == name);
            } else {
                assert(front[i] == entries[i]);
                assert(folder_names(front).contains(name));
                let k = choose|k: int|
                    0 <= k < folder_names(front).len() && folder_names(front)[k] == name;
                assert(folder_names(entries)[k] == name);
            }
        }
    }
}

/// The count of a folder list is the number of folders in the listing, and
/// never more than the number of entries.
pub proof fn lemma_folder_count_bounded(entries: Seq<DirEntry>)
    ensures
        folder_names(entries).len() <= entries.len(),
    decreases entries.len(),
{
    if entries.len() > 0 {
        lemma_folder_count_bounded(entries.drop_last());
    }
}

} // verus!
