use librarian::arena::ArenaId;
use librarian::local_file::ToLocalFile;
use librarian::local_file::LOCAL_FILE_VERSION;
use librarian::store::Bookmark;
use librarian::store::CreateBookmark;
use librarian::store::InternedId;
use librarian::store::Store;

fn all_ids(store: &Store) -> Vec<ArenaId<Bookmark>> {
    let mut out = Vec::new();
    let mut it = store.all();
    while let Some(id) = it.next() {
        out.push(id);
    }
    assert_eq!(out, store.all_ids());
    out
}

fn texts(title: &str, link: &str, note: &str) -> CreateBookmark {
    CreateBookmark {
        title: String::from(title),
        link: String::from(link),
        note: String::from(note),
    }
}

#[test]
fn interning_twice_gives_the_same_number() {
    let mut store = Store::new();
    let a = store.intern("rust");
    let b = store.intern("verus");
    let a2 = store.intern("rust");
    assert!(a == a2);
    assert!(a != b);
    assert!(a != InternedId::dangling());
    assert_eq!(store.string(&a), "rust");
    assert_eq!(store.string(&b), "verus");
    assert_eq!(store.string(&InternedId::dangling()), "DANGLING");
}

#[test]
fn interning_the_placeholder_text_gives_a_new_number() {
    let mut store = Store::default();
    let id = store.intern("DANGLING");
    assert!(id != InternedId::dangling());
    assert_eq!(store.string(&id), "DANGLING");
    assert!(store.intern("DANGLING") == id);
}

#[test]
fn created_bookmarks_are_stored_and_noted_as_changes() {
    let mut store = Store::new();
    assert!(store.changes().is_none());
    assert!(store.can_add());
    let a = store.create_bookmark("Title", "https://example.org", "a note");
    let b = store.create_bookmark("Other", "http://example.com", "");
    assert_eq!(store.bookmark(a).title, "Title");
    assert_eq!(store.bookmark(a).link, "https://example.org");
    assert_eq!(store.bookmark(a).note, "a note");
    assert_eq!(store.bookmark(b).title, "Other");
    assert_eq!(all_ids(&store), vec![a, b]);
    {
        let changes = store.changes().expect("two changes");
        assert_eq!(changes.len(), 2);
        assert_eq!(changes[0].0, a);
        assert_eq!(changes[0].1.title, "Title");
        assert_eq!(changes[1].0, b);
        assert_eq!(changes[1].1.link, "http://example.com");
    }
    assert!(store.changes().is_none());
    assert_eq!(all_ids(&store), vec![a, b]);
}

#[test]
fn added_bookmarks_are_not_changes() {
    let mut store = Store::new();
    let bookmark = Bookmark {
        title: String::from("t"),
        link: String::from("l"),
        note: String::from("n"),
    };
    let id = store.add_bookmark(bookmark.clone());
    assert_eq!(id.id(), 0);
    assert_eq!(*store.bookmark(id), bookmark);
    assert!(store.changes().is_none());
}

#[test]
fn tags_can_be_created_and_removed() {
    let mut store = Store::new();
    let tag = store.intern("reading");
    store.create_bookmark("a", "https://a", "");
    store.create_tag(tag);
    store.create_tag(tag);
    store.remove_tag(tag);
    store.remove_tag(tag);
    assert_eq!(all_ids(&store).len(), 1);
}

#[test]
fn validity_can_be_asked_before_a_lookup() {
    let mut store = Store::new();
    let other = {
        let mut elsewhere = Store::new();
        elsewhere.create_bookmark("x", "https://x", "");
        elsewhere.create_bookmark("y", "https://y", "")
    };
    let a = store.create_bookmark("a", "https://a", "");
    assert!(store.has_bookmark(a));
    assert!(!store.has_bookmark(other));
    let placeholder: ArenaId<Bookmark> = ArenaId::new();
    assert!(!store.has_bookmark(placeholder));
    let tag = store.intern("t");
    assert!(store.has_string(&tag));
    assert!(store.has_string(&InternedId::dangling()));
    let later = {
        let mut elsewhere = Store::new();
        elsewhere.intern("one");
        elsewhere.intern("two")
    };
    assert!(!store.has_string(&later));
}

#[test]
fn local_file_holds_every_bookmark_in_storage_order() {
    let mut store = Store::new();
    let empty = ToLocalFile::new(&store);
    assert_eq!(empty.version, LOCAL_FILE_VERSION);
    assert_eq!(empty.version, 0);
    assert!(empty.bookmarks.is_empty());
    store.create_bookmark("first", "https://1", "n1");
    store.create_bookmark("second", "https://2", "n2");
    let file = ToLocalFile::new(&store);
    assert_eq!(file.version, 0);
    assert_eq!(file.bookmarks.len(), 2);
    assert_eq!(file.bookmarks[0].title, "first");
    assert_eq!(file.bookmarks[1].title, "second");
    assert_eq!(file.bookmarks[1].note, "n2");
    let ids: Vec<u32> = all_ids(&store).iter().map(|id| id.id()).collect();
    assert_eq!(ids, vec![0, 1]);
    let mut titles = Vec::new();
    let mut it = store.all_data();
    while let Some(entry) = it.next() {
        titles.push(entry.value.title.clone());
    }
    assert_eq!(titles, vec![String::from("first"), String::from("second")]);
}

#[test]
fn a_batch_of_new_bookmarks_is_stored_in_order_and_noted() {
    let mut store = Store::new();
    let first = store.create_bookmark("zero", "https://0", "");
    let batch = vec![texts("one", "https://1", "a"), texts("two", "https://2", "b")];
    assert_eq!(store.create_bookmarks(&batch), 2);
    assert_eq!(store.create_bookmarks(&Vec::new()), 0);
    let ids = store.all_ids();
    assert_eq!(ids.len(), 3);
    assert_eq!(ids[0], first);
    assert_eq!(store.bookmark(ids[1]).title, "one");
    assert_eq!(store.bookmark(ids[2]).link, "https://2");
    assert_eq!(store.bookmark(ids[2]).note, "b");
    let changed: Vec<ArenaId<Bookmark>> =
        store.changes().expect("three changes").iter().map(|(id, _)| *id).collect();
    assert_eq!(changed, ids);
}

#[test]
fn loaded_bookmarks_are_stored_in_order_and_not_noted() {
    let mut store = Store::new();
    let batch = vec![texts("one", "https://1", "a"), texts("two", "https://2", "b")];
    let ids = store.add_bookmarks(&batch);
    assert_eq!(ids.len(), 2);
    assert_eq!(ids, store.all_ids());
    assert_eq!(store.bookmark(ids[0]).title, "one");
    assert_eq!(store.bookmark(ids[0]).note, "a");
    assert_eq!(store.bookmark(ids[1]).title, "two");
    assert!(store.changes().is_none());
    assert!(store.add_bookmarks(&Vec::new()).is_empty());
}
