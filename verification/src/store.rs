//! The bookmark store: interned strings, bookmarks held in an arena, tags,
//! and the list of bookmarks changed since it was last asked for.

use crate::arena::laws::lemma_add_keeps_others;
use crate::arena::laws::lemma_add_preserves;
use crate::arena::laws::lemma_add_then_get;
use crate::arena::Arena;
use crate::arena::ArenaId;
use crate::arena::ArenaModel;
use crate::arena::Handle;
use crate::arena::IterArena;
use crate::arena::IterArenaIds;
use crate::bit_field::div_ceil;
use crate::bit_field::word_bits;
use crate::bit_field::BitField;
use std::collections::HashMap;
use vstd::hash_map::StringHashMap;
use vstd::prelude::*;

verus! {

broadcast use vstd::std_specs::hash::group_hash_axioms;

/// The number of an interned string.
#[derive(Clone, Copy, PartialEq, Eq, Hash, Structural)]
pub struct InternedId {
    inner: u64,
}

impl View for InternedId {
    type V = u64;

    closed spec fn view(&self) -> u64 {
        self.inner
    }
}

impl InternedId {
    /// The placeholder number, 0. No interned string gets it.
    pub fn dangling() -> (r: Self)
        ensures
            r@ == 0,
    {
        InternedId { inner: 0 }
    }
}

/// An interned string as the reverse table holds it.
struct Interned {
    rc: String,
    id: InternedId,
}

/// A bookmark: a title, a link and a note.
#[derive(Clone, PartialEq, Debug)]
pub struct Bookmark {
    pub title: String,
    pub link: String,
    pub note: String,
}

/// The texts of a bookmark that is yet to be stored.
pub struct CreateBookmark {
    pub title: String,
    pub link: String,
    pub note: String,
}

/// The bits of one tag, one per bookmark slot, and how many are set.
struct TagContainer {
    tags: BitField,
    tag_count: usize,
}

/// A store as a mathematical value.
pub struct StoreModel {
    /// The interned strings by number. Number 0 holds the placeholder text.
    pub strings: Seq<Seq<char>>,
    /// The bookmarks.
    pub bookmarks: ArenaModel<Bookmark>,
    /// The words of each tag's bit field, by the tag's number.
    pub tags: Map<u64, Seq<usize>>,
    /// The handles of the bookmarks created since the changes were last
    /// taken, oldest first.
    pub changes: Seq<Handle>,
}

impl StoreModel {
    /// Whether `text` has been interned.
    pub open spec fn knows(self, text: Seq<char>) -> bool {
        exists|i: int| 1 <= i < self.strings.len() && #[trigger] self.strings[i] == text
    }

    /// The structural invariant of a store.
    pub open spec fn wf(self) -> bool {
        &&& self.strings.len() >= 1
        &&& self.strings[0] == "DANGLING"@
        &&& forall|i: int, j: int|
            1 <= i < j < self.strings.len() ==> #[trigger] self.strings[i]
                != #[trigger] self.strings[j]
        &&& self.bookmarks.wf()
        &&& forall|k: int|
            0 <= k < self.changes.len() ==> self.bookmarks.valid(#[trigger] self.changes[k])
    }
}

/// The bookmark store.
pub struct Store {
    next_intern_id: u64,
    interned: Vec<String>,
    reverse_interned: StringHashMap<Interned>,
    bookmarks: Arena<Bookmark>,
    filtered_items: Vec<Bookmark>,
    tags: HashMap<u64, TagContainer>,
    changes: Vec<ArenaId<Bookmark>>,
}

impl View for Store {
    type V = StoreModel;

    closed spec fn view(&self) -> StoreModel {
        StoreModel {
            strings: Seq::new(self.interned@.len(), |i: int| self.interned@[i]@),
            bookmarks: self.bookmarks@,
            tags: Map::new(
                |k: u64| self.tags@.contains_key(k),
                |k: u64| self.tags@[k].tags@,
            ),
            changes: Seq::new(self.changes@.len(), |k: int| self.changes@[k]@),
        }
    }
}

impl Store {
    /// The invariant every store built through this interface satisfies.
    pub open spec fn wf(&self) -> bool {
        &&& self@.wf()
        &&& self.indexed()
    }

    /// Whether the reverse table holds exactly the interned strings, each
    /// under its number, and the counters agree with what is stored.
    pub closed spec fn indexed(&self) -> bool {
        &&& self.bookmarks.counted()
        &&& self.next_intern_id == self.interned@.len()
        &&& forall|i: int|
            1 <= i < self.interned@.len() ==> {
                &&& self.reverse_interned@.contains_key(#[trigger] self.interned@[i]@)
                &&& self.reverse_interned@[self.interned@[i]@].id.inner == i
            }
        &&& forall|s: Seq<char>| #[trigger]
            self.reverse_interned@.contains_key(s) ==> {
                &&& 1 <= self.reverse_interned@[s].id.inner < self.interned@.len()
                &&& self.interned@[self.reverse_interned@[s].id.inner as int]@ == s
            }
    }

    /// A store with no bookmark, no tag, and only the placeholder text
    /// interned.
    pub fn new() -> (r: Self)
        ensures
            r.wf(),
            r@.strings == seq!["DANGLING"@],
            r@.bookmarks == ArenaModel::<Bookmark>::empty(),
            r@.tags == Map::<u64, Seq<usize>>::empty(),
            r@.changes == Seq::<Handle>::empty(),
    {
        let mut interned: Vec<String> = Vec::new();
        interned.push("DANGLING".to_owned());
        let r = Self {
            next_intern_id: 1,
            interned,
            reverse_interned: StringHashMap::with_capacity(128),
            bookmarks: Arena::with_capacity(1024),
            filtered_items: Vec::with_capacity(1024),
            tags: HashMap::with_capacity(64),
            changes: Vec::with_capacity(128),
        };
        assert(r@.strings =~= seq!["DANGLING"@]);
        assert(r@.tags =~= Map::<u64, Seq<usize>>::empty());
        assert(r@.changes =~= Seq::<Handle>::empty());
        r
    }

    /// The number of `string`: the one it already has if it was interned
    /// before, else the next free number, under which it is then stored.
    pub fn intern(&mut self, string: &str) -> (r: InternedId)
        requires
            old(self).wf(),
        ensures
            final(self).wf(),
            1 <= r@ < final(self)@.strings.len(),
            final(self)@.strings[r@ as int] == string@,
            old(self)@.knows(string@) ==> final(self)@ == old(self)@,
            !old(self)@.knows(string@) ==> r@ == old(self)@.strings.len() && final(self)@ == (
            StoreModel { strings: old(self)@.strings.push(string@), ..old(self)@ }),
    {
        match self.reverse_interned.get(string) {
            Some(interned) => {
                assert(self@.strings[interned.id.inner as int] == string@);
                interned.id
            },
            None => {
                assert(!self@.knows(string@)) by {
                    if self@.knows(string@) {
                        let i = choose|i: int|
                            1 <= i < self@.strings.len() && #[trigger] self@.strings[i] == string@;
                        assert(self.reverse_interned@.contains_key(self.interned@[i]@));
                    }
                }
                let id = InternedId { inner: self.next_intern_id };
                let rc: String = string.to_owned();
                self.interned.push(string.to_owned());
                let total: usize = self.interned.len();
                assert(self.next_intern_id < total);
                self.next_intern_id += 1;
                self.reverse_interned.insert(string.to_owned(), Interned { rc, id });
                assert(self@.strings =~= old(self)@.strings.push(string@));
                assert(self@.tags =~= old(self)@.tags);
                assert(self@.changes =~= old(self)@.changes);
                assert forall|i: int| 1 <= i < self.interned@.len() implies {
                    &&& self.reverse_interned@.contains_key(#[trigger] self.interned@[i]@)
                    &&& self.reverse_interned@[self.interned@[i]@].id.inner == i
                } by {
                    if i < old(self).interned@.len() {
                        assert(self.interned@[i] == old(self).interned@[i]);
                        assert(old(self).reverse_interned@.contains_key(old(self).interned@[i]@));
                    }
                }
                assert forall|i: int, j: int|
                    1 <= i < j < self@.strings.len() implies #[trigger] self@.strings[i]
                    != #[trigger] self@.strings[j] by {
                    if j == old(self)@.strings.len() {
                        assert(old(self)@.strings[i] == self@.strings[i]);
                    } else {
                        assert(old(self)@.strings[i] == self@.strings[i]);
                        assert(old(self)@.strings[j] == self@.strings[j]);
                    }
                }
                id
            },
        }
    }

    /// The text interned under `id`.
    pub fn string(&mut self, id: &InternedId) -> (r: &String)
        requires
            id@ < old(self)@.strings.len(),
        ensures
            r@ == old(self)@.strings[id@ as int],
            *final(self) == *old(self),
    {
        let total: usize = self.interned.len();
        assert(id.inner < total);
        &self.interned[id.inner as usize]
    }

    /// Gives the tag `id` a fresh bit field with room for one bit per
    /// bookmark slot, all words zero. A field the tag had before is replaced.
    pub fn create_tag(&mut self, id: InternedId)
        requires
            old(self).wf(),
        ensures
            final(self).wf(),
            final(self)@ == (StoreModel {
                tags: old(self)@.tags.insert(
                    id@,
                    Seq::new(div_ceil(old(self)@.bookmarks.len(), word_bits()), |i: int| 0usize),
                ),
                ..old(self)@
            }),
    {
        let tags = BitField::init(self.bookmarks.len());
        self.tags.insert(id.inner, TagContainer { tags, tag_count: 0 });
        assert(self@.tags =~= old(self)@.tags.insert(
            id@,
            Seq::new(div_ceil(old(self)@.bookmarks.len(), word_bits()), |i: int| 0usize),
        ));
        assert(self@.strings =~= old(self)@.strings);
        assert(self@.changes =~= old(self)@.changes);
    }

    /// Takes the tag `id` away, if there is one.
    pub fn remove_tag(&mut self, id: InternedId)
        requires
            old(self).wf(),
        ensures
            final(self).wf(),
            final(self)@ == (StoreModel { tags: old(self)@.tags.remove(id@), ..old(self)@ }),
    {
        self.tags.remove(&id.inner);
        assert(self@.tags =~= old(self)@.tags.remove(id@));
        assert(self@.strings =~= old(self)@.strings);
        assert(self@.changes =~= old(self)@.changes);
    }

    /// Whether a bookmark can be added: whether the arena can number it.
    pub fn can_add(&self) -> (r: bool)
        ensures
            r == self@.bookmarks.can_add(),
    {
        self.bookmarks.can_add()
    }

    /// Stores `bookmark` and returns its handle. The list of changes is left
    /// as it is.
    pub fn add_bookmark(&mut self, bookmark: Bookmark) -> (id: ArenaId<Bookmark>)
        requires
            old(self).wf(),
            old(self)@.bookmarks.can_add(),
        ensures
            final(self).wf(),
            id@ == old(self)@.bookmarks.next_handle(),
            final(self)@ == (StoreModel {
                bookmarks: old(self)@.bookmarks.add(bookmark),
                ..old(self)@
            }),
    {
        let id = self.bookmarks.add(bookmark);
        self.filtered_items.reserve(1);
        proof {
            assert(self@.strings =~= old(self)@.strings);
            assert(self@.tags =~= old(self)@.tags);
            assert(self@.changes =~= old(self)@.changes);
            assert forall|k: int| 0 <= k < self@.changes.len() implies self@.bookmarks.valid(
                #[trigger] self@.changes[k],
            ) by {
                lemma_add_keeps_others(old(self)@.bookmarks, bookmark, old(self)@.changes[k]);
            }
        }
        id
    }

    /// Stores a bookmark made of copies of the three texts, notes it as
    /// changed, and returns its handle.
    pub fn create_bookmark(&mut self, title: &str, link: &str, note: &str) -> (id: ArenaId<
        Bookmark,
    >)
        requires
            old(self).wf(),
            old(self)@.bookmarks.can_add(),
        ensures
            final(self).wf(),
            id@ == old(self)@.bookmarks.next_handle(),
            final(self)@.bookmarks.valid(id@),
            final(self)@.bookmarks.lookup(id@)->Some_0.title@ == title@,
            final(self)@.bookmarks.lookup(id@)->Some_0.link@ == link@,
            final(self)@.bookmarks.lookup(id@)->Some_0.note@ == note@,
            final(self)@ == (StoreModel {
                bookmarks: old(self)@.bookmarks.add(final(self)@.bookmarks.lookup(id@)->Some_0),
                changes: old(self)@.changes.push(id@),
                ..old(self)@
            }),
    {
        let bookmark = Bookmark {
            title: title.to_owned(),
            link: link.to_owned(),
            note: note.to_owned(),
        };
        proof {
            lemma_add_then_get(self@.bookmarks, bookmark);
        }
        let ghost before = self@;
        let id = self.add_bookmark(bookmark);
        let ghost middle = self@;
        self.changes.push(id);
        proof {
            assert(self@.strings =~= before.strings);
            assert(self@.tags =~= before.tags);
            assert(self@.changes =~= before.changes.push(id@));
            assert forall|k: int| 0 <= k < self@.changes.len() implies self@.bookmarks.valid(
                #[trigger] self@.changes[k],
            ) by {
                if k < middle.changes.len() {
                    assert(middle.changes[k] == self@.changes[k]);
                }
            }
        }
        id
    }

    /// Whether `id` refers to a bookmark of this store.
    pub fn has_bookmark(&self, id: ArenaId<Bookmark>) -> (r: bool)
        ensures
            r == self@.bookmarks.valid(id@),
    {
        self.bookmarks.contains(id)
    }

    /// Whether `id` is the number of an interned string, the placeholder
    /// included.
    pub fn has_string(&self, id: &InternedId) -> (r: bool)
        ensures
            r == (id@ < self@.strings.len()),
    {
        let total: usize = self.interned.len();
        id.inner < total as u64
    }

    /// Stores a bookmark for each of `records`, in order, without noting any
    /// as changed, for as long as the arena can number another one. Returns
    /// the handles of those stored: one for each record, unless the arena
    /// ran out of numbers.
    pub fn add_bookmarks(&mut self, records: &Vec<CreateBookmark>) -> (ids: Vec<ArenaId<Bookmark>>)
        requires
            old(self).wf(),
        ensures
            final(self).wf(),
            ids@.len() <= records@.len(),
            ids@.len() < records@.len() ==> !final(self)@.bookmarks.can_add(),
            final(self)@.strings == old(self)@.strings,
            final(self)@.tags == old(self)@.tags,
            final(self)@.changes == old(self)@.changes,
            final(self)@.bookmarks.count() == old(self)@.bookmarks.count() + ids@.len(),
            forall|k: int|
                0 <= k < ids@.len() ==> {
                    let h = (#[trigger] ids@[k])@;
                    &&& final(self)@.bookmarks.valid(h)
                    &&& final(self)@.bookmarks.lookup(h)->Some_0.title@ == records@[k].title@
                    &&& final(self)@.bookmarks.lookup(h)->Some_0.link@ == records@[k].link@
                    &&& final(self)@.bookmarks.lookup(h)->Some_0.note@ == records@[k].note@
                },
    {
        let mut ids: Vec<ArenaId<Bookmark>> = Vec::new();
        while ids.len() < records.len() && self.can_add()
            invariant
                self.wf(),
                ids@.len() <= records@.len(),
                self@.strings == old(self)@.strings,
                self@.tags == old(self)@.tags,
                self@.changes == old(self)@.changes,
                self@.bookmarks.count() == old(self)@.bookmarks.count() + ids@.len(),
                forall|k: int|
                    0 <= k < ids@.len() ==> {
                        let h = (#[trigger] ids@[k])@;
                        &&& self@.bookmarks.valid(h)
                        &&& self@.bookmarks.lookup(h)->Some_0.title@ == records@[k].title@
                        &&& self@.bookmarks.lookup(h)->Some_0.link@ == records@[k].link@
                        &&& self@.bookmarks.lookup(h)->Some_0.note@ == records@[k].note@
                    },
            ensures
                ids@.len() < records@.len() ==> !self@.bookmarks.can_add(),
            decreases records@.len() - ids@.len(),
        {
            let ghost before = self@;
            let ghost stored_before = ids@;
            let item = &records[ids.len()];
            let bookmark = Bookmark {
                title: item.title.as_str().to_owned(),
                link: item.link.as_str().to_owned(),
                note: item.note.as_str().to_owned(),
            };
            let id = self.add_bookmark(bookmark);
            ids.push(id);
            proof {
                lemma_add_preserves(before.bookmarks, bookmark);
                lemma_add_then_get(before.bookmarks, bookmark);
                assert forall|k: int| 0 <= k < ids@.len() implies {
                    let h = (#[trigger] ids@[k])@;
                    &&& self@.bookmarks.valid(h)
                    &&& self@.bookmarks.lookup(h)->Some_0.title@ == records@[k].title@
                    &&& self@.bookmarks.lookup(h)->Some_0.link@ == records@[k].link@
                    &&& self@.bookmarks.lookup(h)->Some_0.note@ == records@[k].note@
                } by {
                    if k < stored_before.len() {
                        assert(ids@[k] == stored_before[k]);
                        lemma_add_keeps_others(before.bookmarks, bookmark, stored_before[k]@);
                    }
                }
            }
        }
        ids
    }

    /// Stores a bookmark for each of `created`, in order, noting each as
    /// changed, for as long as the arena can number another one. Returns how
    /// many were stored: all of them, unless the arena ran out of numbers.
    pub fn create_bookmarks(&mut self, created: &Vec<CreateBookmark>) -> (done: usize)
        requires
            old(self).wf(),
        ensures
            final(self).wf(),
            done <= created@.len(),
            done < created@.len() ==> !final(self)@.bookmarks.can_add(),
            final(self)@.strings == old(self)@.strings,
            final(self)@.tags == old(self)@.tags,
            final(self)@.bookmarks.count() == old(self)@.bookmarks.count() + done,
            final(self)@.changes.len() == old(self)@.changes.len() + done,
            final(self)@.changes.take(old(self)@.changes.len() as int) == old(self)@.changes,
            forall|k: int|
                0 <= k < done ==> {
                    let h = #[trigger] final(self)@.changes[old(self)@.changes.len() + k];
                    &&& final(self)@.bookmarks.valid(h)
                    &&& final(self)@.bookmarks.lookup(h)->Some_0.title@ == created@[k].title@
                    &&& final(self)@.bookmarks.lookup(h)->Some_0.link@ == created@[k].link@
                    &&& final(self)@.bookmarks.lookup(h)->Some_0.note@ == created@[k].note@
                },
    {
        let ghost start = old(self)@.changes.len() as int;
        let mut done: usize = 0;
        assert(self@.changes.take(start) =~= old(self)@.changes);
        while done < created.len() && self.can_add()
            invariant
                self.wf(),
                done <= created@.len(),
                start == old(self)@.changes.len(),
                self@.strings == old(self)@.strings,
                self@.tags == old(self)@.tags,
                self@.bookmarks.count() == old(self)@.bookmarks.count() + done,
                self@.changes.len() == start + done,
                self@.changes.take(start) == old(self)@.changes,
                forall|k: int|
                    0 <= k < done ==> {
                        let h = #[trigger] self@.changes[start + k];
                        &&& self@.bookmarks.valid(h)
                        &&& self@.bookmarks.lookup(h)->Some_0.title@ == created@[k].title@
                        &&& self@.bookmarks.lookup(h)->Some_0.link@ == created@[k].link@
                        &&& self@.bookmarks.lookup(h)->Some_0.note@ == created@[k].note@
                    },
            ensures
                done < created@.len() ==> !self@.bookmarks.can_add(),
            decreases created@.len() - done,
        {
            let ghost before = self@;
            let item = &created[done];
            let id = self.create_bookmark(item.title.as_str(), item.link.as_str(), item.note.as_str());
            proof {
                let stored = self@.bookmarks.lookup(id@)->Some_0;
                lemma_add_preserves(before.bookmarks, stored);
                assert(self@.changes.take(start) =~= before.changes.take(start));
                assert forall|k: int| 0 <= k < done + 1 implies {
                    let h = #[trigger] self@.changes[start + k];
                    &&& self@.bookmarks.valid(h)
                    &&& self@.bookmarks.lookup(h)->Some_0.title@ == created@[k].title@
                    &&& self@.bookmarks.lookup(h)->Some_0.link@ == created@[k].link@
                    &&& self@.bookmarks.lookup(h)->Some_0.note@ == created@[k].note@
                } by {
                    if k < done {
                        let h = before.changes[start + k];
                        assert(self@.changes[start + k] == h);
                        lemma_add_keeps_others(before.bookmarks, stored, h);
                    }
                }
            }
            done += 1;
        }
        done
    }

    /// The bookmark behind a handle known to be valid.
    pub fn bookmark(&self, id: ArenaId<Bookmark>) -> (r: &Bookmark)
        requires
            self@.bookmarks.valid(id@),
        ensures
            self@.bookmarks.lookup(id@) == Some(*r),
    {
        self.bookmarks.entry(id).value
    }

    /// The handles of all bookmarks, in storage order.
    pub fn all_ids(&self) -> (r: Vec<ArenaId<Bookmark>>)
        requires
            self.wf(),
        ensures
            r@.len() == self@.bookmarks.count(),
            forall|k: int| 0 <= k < r@.len() ==> (#[trigger] r@[k])@ == self@.bookmarks.live()[k],
    {
        let ghost live: Seq<Handle> = self@.bookmarks.live();
        let mut ids: Vec<ArenaId<Bookmark>> = Vec::new();
        let mut it = self.all();
        loop
            invariant
                it.source() == self@.bookmarks,
                it.source().wf(),
                live == self@.bookmarks.live(),
                ids@.len() <= live.len(),
                it.remaining() == live.skip(ids@.len() as int),
                forall|k: int| 0 <= k < ids@.len() ==> (#[trigger] ids@[k])@ == live[k],
            ensures
                ids@.len() == live.len(),
            decreases it.remaining().len(),
        {
            let ghost done = ids@.len() as int;
            match it.next() {
                Some(id) => {
                    assert(live.skip(done)[0] == live[done]);
                    assert(live.skip(done).drop_first() =~= live.skip(done + 1));
                    ids.push(id);
                },
                None => {
                    break ;
                },
            }
        }
        ids
    }

    /// A fresh traversal of all bookmarks, in storage order.
    pub fn all_data<'a>(&'a self) -> (r: IterArena<'a, Bookmark>)
        ensures
            r.source() == self@.bookmarks,
            r.remaining() == self@.bookmarks.live(),
    {
        self.bookmarks.iter()
    }

    /// A fresh traversal of the handles of all bookmarks, in storage order.
    pub fn all<'a>(&'a self) -> (r: IterArenaIds<'a, Bookmark>)
        ensures
            r.source() == self@.bookmarks,
            r.remaining() == self@.bookmarks.live(),
    {
        self.bookmarks.iter_ids()
    }

    /// Takes the list of changes: `None` when nothing changed; else every
    /// changed bookmark with its handle, oldest change first. Afterwards the
    /// list is empty.
    pub fn changes<'a>(&'a mut self) -> (r: Option<Vec<(ArenaId<Bookmark>, &'a Bookmark)>>)
        requires
            old(self).wf(),
        ensures
            final(self).wf(),
            final(self)@ == (StoreModel { changes: Seq::<Handle>::empty(), ..old(self)@ }),
            r is None <==> old(self)@.changes.len() == 0,
            r matches Some(v) ==> {
                &&& v@.len() == old(self)@.changes.len()
                &&& forall|k: int|
                    0 <= k < v@.len() ==> {
                        &&& (#[trigger] v@[k]).0@ == old(self)@.changes[k]
                        &&& old(self)@.bookmarks.lookup(old(self)@.changes[k]) == Some(*v@[k].1)
                    }
            },
    {
        if self.changes.is_empty() {
            assert(self@.changes =~= Seq::<Handle>::empty());
            None
        } else {
            let mut taken: Vec<ArenaId<Bookmark>> = Vec::new();
            core::mem::swap(&mut self.changes, &mut taken);
            assert(self@.changes =~= Seq::<Handle>::empty());
            assert(self@.strings =~= old(self)@.strings);
            assert(self@.tags =~= old(self)@.tags);
            let bookmarks: &'a Arena<Bookmark> = &self.bookmarks;
            let mut out: Vec<(ArenaId<Bookmark>, &'a Bookmark)> = Vec::new();
            let mut k: usize = 0;
            while k < taken.len()
                invariant
                    k <= taken@.len(),
                    out@.len() == k,
                    taken@.len() == old(self)@.changes.len(),
                    bookmarks@ == old(self)@.bookmarks,
                    forall|j: int|
                        0 <= j < taken@.len() ==> (#[trigger] taken@[j])@ == old(self)@.changes[j],
                    forall|j: int|
                        0 <= j < taken@.len() ==> old(self)@.bookmarks.valid(
                            #[trigger] old(self)@.changes[j],
                        ),
                    forall|j: int|
                        0 <= j < k ==> {
                            &&& (#[trigger] out@[j]).0@ == old(self)@.changes[j]
                            &&& old(self)@.bookmarks.lookup(old(self)@.changes[j]) == Some(
                                *out@[j].1,
                            )
                        },
                decreases taken@.len() - k,
            {
                let id = taken[k];
                assert(id@ == old(self)@.changes[k as int]);
                out.push((id, bookmarks.entry(id).value));
                k += 1;
            }
            Some(out)
        }
    }
}

impl Default for Store {
    fn default() -> (r: Self)
        ensures
            r.wf(),
            r@.strings == seq!["DANGLING"@],
            r@.bookmarks == ArenaModel::<Bookmark>::empty(),
            r@.tags == Map::<u64, Seq<usize>>::empty(),
            r@.changes == Seq::<Handle>::empty(),
    {
        Store::new()
    }
}

} // verus!
