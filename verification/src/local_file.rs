//! The content of the file a store is saved to.

use crate::arena::Handle;
use crate::store::Bookmark;
use crate::store::Store;
use vstd::prelude::*;

verus! {

/// The version of the file's layout.
pub const LOCAL_FILE_VERSION: u64 = 0;

/// What is written to the file: the layout's version and every bookmark.
pub struct ToLocalFile<'a> {
    pub version: u64,
    pub bookmarks: Vec<&'a Bookmark>,
}

impl<'a> ToLocalFile<'a> {
    /// The file content for `store`: the current version and all of the
    /// store's bookmarks, in storage order.
    pub fn new(store: &'a Store) -> (r: Self)
        requires
            store.wf(),
        ensures
            r.version == LOCAL_FILE_VERSION,
            r.bookmarks@.len() == store@.bookmarks.count(),
            forall|k: int|
                0 <= k < r.bookmarks@.len() ==> store@.bookmarks.lookup(
                    store@.bookmarks.live()[k],
                ) == Some(*#[trigger] r.bookmarks@[k]),
    {
        let ghost live: Seq<Handle> = store@.bookmarks.live();
        let mut bookmarks: Vec<&'a Bookmark> = Vec::new();
        let mut it = store.all_data();
        loop
            invariant
                it.source() == store@.bookmarks,
                it.source().wf(),
                live == store@.bookmarks.live(),
                bookmarks@.len() <= live.len(),
                it.remaining() == live.skip(bookmarks@.len() as int),
                forall|k: int|
                    0 <= k < bookmarks@.len() ==> store@.bookmarks.lookup(live[k]) == Some(
                        *#[trigger] bookmarks@[k],
                    ),
            ensures
                bookmarks@.len() == live.len(),
            decreases it.remaining().len(),
        {
            let ghost done = bookmarks@.len() as int;
            match it.next() {
                Some(entry) => {
                    assert(live.skip(done)[0] == live[done]);
                    assert(live.skip(done).drop_first() =~= live.skip(done + 1));
                    bookmarks.push(entry.value);
                },
                None => {
                    break ;
                },
            }
        }
        ToLocalFile { version: LOCAL_FILE_VERSION, bookmarks }
    }
}

} // verus!
