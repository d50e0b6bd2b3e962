use vstd::prelude::*;
use vstd::utf8::encode_utf8;

verus! {

/// A stored artifact: its display name, its content and the content's size in bytes.
#[derive(Clone, Debug)]
pub struct FileMetadata {
    pub file_name: String,
    pub content: String,
    pub size: usize,
}

/// An in-memory mapping from opaque identifier to stored artifact.
pub struct FileStorage {
    entries: Vec<(String, FileMetadata)>,
    model: Ghost<Map<Seq<char>, (Seq<char>, Seq<char>)>>,
}

impl FileStorage {
    /// What the store holds: each identifier with its (name, content) pair.
    pub closed spec fn view(&self) -> Map<Seq<char>, (Seq<char>, Seq<char>)> {
        self.model@
    }

    /// The entries carry distinct identifiers, record their content size, and
    /// agree with the model in both directions.
    pub closed spec fn wf(&self) -> bool {
        let e = self.entries@;
        &&& forall|i: int, j: int|
            0 <= i < j < e.len() ==> #[trigger] e[i].0@ != #[trigger] e[j].0@
        &&& forall|i: int|
            0 <= i < e.len() ==> (#[trigger] e[i]).1.size == encode_utf8(e[i].1.content@).len() as usize
        &&& forall|i: int|
            0 <= i < e.len() ==> self.model@.contains_key(#[trigger] e[i].0@) && self.model@[e[i].0@]
                == (e[i].1.file_name@, e[i].1.content@)
        &&& forall|k: Seq<char>|
            #[trigger] self.model@.contains_key(k) ==> exists|i: int|
                0 <= i < e.len() && #[trigger] e[i].0@ == k
    }

    /// An empty store.
    pub fn new() -> (r: Self)
        ensures
            r.wf(),
            r@ == Map::<Seq<char>, (Seq<char>, Seq<char>)>::empty(),
    {
        FileStorage { entries: Vec::new(), model: Ghost(Map::empty()) }
    }

    /// The position of the entry stored under `id`, if any.
    fn find(&self, id: &String) -> (r: Option<usize>)
        requires
            self.wf(),
        ensures
            r matches Some(i) ==> i < self.entries@.len() && self.entries@[i as int].0@ == id@,
            r is None ==> !self@.contains_key(id@),
    {
        let mut i: usize = 0;
        while i < self.entries.len()
            invariant
                self.wf(),
                i <= self.entries@.len(),
                forall|j: int| 0 <= j < i ==> self.entries@[j].0@ != id@,
            decreases self.entries@.len() - i,
        {
            if self.entries[i].0 == *id {
                return Some(i);
            }
            i = i + 1;
        }
        None
    }

    /// Removes the entry at `i` and its identifier from the model.
    fn remove_at(&mut self, i: usize)
        requires
            old(self).wf(),
            i < old(self).entries@.len(),
        ensures
            final(self).wf(),
            final(self)@ == old(self)@.remove(old(self).entries@[i as int].0@),
    {
        let ghost k = self.entries@[i as int].0@;
        let ghost old_e = self.entries@;
        self.entries.remove(i);
        self.model = Ghost(self.model@.remove(k));
        proof {
            let e = self.entries@;
            assert forall|j: int| 0 <= j < e.len() implies self.model@.contains_key(#[trigger] e[j].0@)
                && self.model@[e[j].0@] == (e[j].1.file_name@, e[j].1.content@) by {
                if j < i {
                    assert(e[j] == old_e[j]);
                } else {
                    assert(e[j] == old_e[j + 1]);
                }
            }
            assert forall|a: int, b: int| 0 <= a < b < e.len() implies #[trigger] e[a].0@
                != #[trigger] e[b].0@ by {
                let oa = if a < i { a } else { a + 1 };
                let ob = if b < i { b } else { b + 1 };
                assert(e[a] == old_e[oa]);
                assert(e[b] == old_e[ob]);
            }
            assert forall|kk: Seq<char>| #[trigger] self.model@.contains_key(kk) implies exists|j: int|
                0 <= j < e.len() && #[trigger] e[j].0@ == kk by {
                let m = choose|m: int| 0 <= m < old_e.len() && #[trigger] old_e[m].0@ == kk;
                assert(m != i);
                if m < i {
                    assert(e[m] == old_e[m]);
                } else {
                    assert(e[m - 1] == old_e[m]);
                }
            }
        }
    }

    /// Stores `content` under `file_id` with display name `file_name`,
    /// replacing whatever was stored there before.
    pub fn store_file(&mut self, file_id: &str, file_name: &str, content: &str)
        requires
            old(self).wf(),
        ensures
            final(self).wf(),
            final(self)@ == old(self)@.insert(file_id@, (file_name@, content@)),
    {
        let id = file_id.to_owned();
        match self.find(&id) {
            Some(i) => {
                self.remove_at(i);
            },
            None => {},
        }
        assert(!self@.contains_key(id@));
        let metadata = FileMetadata {
            file_name: file_name.to_owned(),
            content: content.to_owned(),
            size: content.len(),
        };
        let ghost old_e = self.entries@;
        self.entries.push((id, metadata));
        self.model = Ghost(self.model@.insert(file_id@, (file_name@, content@)));
        proof {
            let e = self.entries@;
            let n = e.len() - 1;
            assert(e[n].0@ == file_id@);
            assert forall|j: int| 0 <= j < e.len() implies self.model@.contains_key(#[trigger] e[j].0@)
                && self.model@[e[j].0@] == (e[j].1.file_name@, e[j].1.content@) by {
                if j < n {
                    assert(e[j] == old_e[j]);
                }
            }
            assert forall|a: int, b: int| 0 <= a < b < e.len() implies #[trigger] e[a].0@
                != #[trigger] e[b].0@ by {
                assert(e[a] == old_e[a]);
                if b < n {
                    assert(e[b] == old_e[b]);
                }
            }
            assert forall|kk: Seq<char>| #[trigger] self.model@.contains_key(kk) implies exists|j: int|
                0 <= j < e.len() && #[trigger] e[j].0@ == kk by {
                if kk != file_id@ {
                    let m = choose|m: int| 0 <= m < old_e.len() && #[trigger] old_e[m].0@ == kk;
                    assert(e[m] == old_e[m]);
                }
            }
        }
    }

    /// The (name, content) pair stored under `file_id`, or `None` when nothing is.
    pub fn get_file(&self, file_id: &str) -> (r: Option<(String, String)>)
        requires
            self.wf(),
        ensures
            self@.contains_key(file_id@) ==> (r matches Some((n, c)) && (n@, c@) == self@[file_id@]),
            !self@.contains_key(file_id@) ==> r is None,
    {
        let id = file_id.to_owned();
        match self.find(&id) {
            Some(i) => {
                let m = &self.entries[i].1;
                Some((m.file_name.clone(), m.content.clone()))
            },
            None => None,
        }
    }

    /// Removes the entry stored under `file_id`; says whether there was one.
    pub fn delete_file(&mut self, file_id: &str) -> (r: bool)
        requires
            old(self).wf(),
        ensures
            final(self).wf(),
            r == old(self)@.contains_key(file_id@),
            final(self)@ == old(self)@.remove(file_id@),
    {
        let id = file_id.to_owned();
        match self.find(&id) {
            Some(i) => {
                self.remove_at(i);
                true
            },
            None => {
                assert(self@.remove(file_id@) =~= self@);
                false
            },
        }
    }
}

/// Storing a pair under an identifier and then looking that identifier up
/// gives back exactly the stored pair.
pub proof fn lemma_get_after_store(
    store: FileStorage,
    id: Seq<char>,
    name: Seq<char>,
    content: Seq<char>,
)
    ensures
        store@.insert(id, (name, content)).contains_key(id),
        store@.insert(id, (name, content))[id] == (name, content),
{
}

/// After a deletion the identifier is absent, and deleting an absent
/// identifier leaves the store as it was.
pub proof fn lemma_get_after_delete(store: FileStorage, id: Seq<char>)
    ensures
        !store@.remove(id).contains_key(id),
        !store@.contains_key(id) ==> store@.remove(id) == store@,
{
    assert(!store@.contains_key(id) ==> store@.remove(id) =~= store@);
}

/// Two artifacts stored under distinct identifiers are both retrievable
/// afterwards, each with its own pair, whichever was stored first.
pub proof fn lemma_distinct_stores_independent(
    store: FileStorage,
    id1: Seq<char>,
    pair1: (Seq<char>, Seq<char>),
    id2: Seq<char>,
    pair2: (Seq<char>, Seq<char>),
)
    requires
        id1 != id2,
    ensures
        store@.insert(id1, pair1).insert(id2, pair2)[id1] == pair1,
        store@.insert(id1, pair1).insert(id2, pair2)[id2] == pair2,
        store@.insert(id1, pair1).insert(id2, pair2) == store@.insert(id2, pair2).insert(id1, pair1),
{
    assert(store@.insert(id1, pair1).insert(id2, pair2) =~= store@.insert(id2, pair2).insert(
        id1,
        pair1,
    ));
}

} // verus!
