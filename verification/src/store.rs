//! The set of open files, keyed by file id, in the order in which they were
//! opened (the order of the tabs).

use vstd::prelude::*;

verus! {

/// A single markdown file entry in the shared state.
#[derive(Clone)]
pub struct FileEntry {
    /// The markdown text.
    pub content: String,
    /// A stamp that grows whenever the content changes (live reload polls it).
    pub version: u64,
    /// The file's canonical path, for files opened from disk.
    pub path: Option<String>,
    /// The name shown on the file's tab.
    pub display_name: String,
}

/// What a `FileEntry` holds, as plain values.
#[verifier::ext_equal]
pub struct EntrySpec {
    pub content: Seq<char>,
    pub version: u64,
    pub path: Option<Seq<char>>,
    pub display_name: Seq<char>,
}

pub open spec fn opt_view(o: Option<String>) -> Option<Seq<char>> {
    match o {
        Some(s) => Some(s@),
        None => None,
    }
}

impl View for FileEntry {
    type V = EntrySpec;

    open spec fn view(&self) -> EntrySpec {
        EntrySpec {
            content: self.content@,
            version: self.version,
            path: opt_view(self.path),
            display_name: self.display_name@,
        }
    }
}

/// The open files: a map from file id to entry, with the ids in opening order.
pub struct FileStore {
    ids: Vec<String>,
    entries: Vec<FileEntry>,
}

impl View for FileStore {
    type V = Map<Seq<char>, EntrySpec>;

    closed spec fn view(&self) -> Map<Seq<char>, EntrySpec> {
        Map::new(
            |k: Seq<char>| exists|i: int| 0 <= i < self.ids.len() && #[trigger] self.ids@[i]@ == k,
            |k: Seq<char>|
                self.entries@[choose|i: int| 0 <= i < self.ids.len() && #[trigger] self.ids@[i]@ == k]@,
        )
    }
}

impl FileStore {
    /// The ids of the open files, in opening order.
    pub closed spec fn order(&self) -> Seq<Seq<char>> {
        Seq::new(self.ids.len() as nat, |i: int| self.ids@[i]@)
    }

    /// The store's internal invariant: one entry per id, and no id twice.
    pub closed spec fn wf(&self) -> bool {
        &&& self.ids.len() == self.entries.len()
        &&& forall|i: int, j: int|
            0 <= i < j < self.ids.len() ==> #[trigger] self.ids@[i]@ != #[trigger] self.ids@[j]@
    }

    proof fn lemma_at(&self, i: int)
        requires
            self.wf(),
            0 <= i < self.ids.len(),
        ensures
            self@.contains_key(self.ids@[i]@),
            self@[self.ids@[i]@] == self.entries@[i]@,
            self.order()[i] == self.ids@[i]@,
    {
        let k = self.ids@[i]@;
        assert(self.ids@[i]@ == k);
        let j = choose|j: int| 0 <= j < self.ids.len() && #[trigger] self.ids@[j]@ == k;
        if j < i {
            assert(self.ids@[j]@ != self.ids@[i]@);
        } else if i < j {
            assert(self.ids@[i]@ != self.ids@[j]@);
        }
    }

    /// Law: the ids in `order()` are distinct, and they are exactly the keys
    /// of the map; each file id names one entry.
    pub proof fn lemma_order_is_keys(&self)
        requires
            self.wf(),
        ensures
            forall|i: int, j: int|
                0 <= i < j < self.order().len() ==> #[trigger] self.order()[i]
                    != #[trigger] self.order()[j],
            forall|k: Seq<char>| #[trigger]
                self@.contains_key(k) <==> self.order().contains(k),
            self@.dom().finite(),
            self@.len() == self.order().len(),
    {
        assert forall|k: Seq<char>| #[trigger] self@.contains_key(k) <==> self.order().contains(k) by {
            if self@.contains_key(k) {
                let i = choose|i: int| 0 <= i < self.ids.len() && #[trigger] self.ids@[i]@ == k;
                assert(self.order()[i] == k);
            }
            if self.order().contains(k) {
                let i = choose|i: int| 0 <= i < self.order().len() && self.order()[i] == k;
                assert(self.ids@[i]@ == k);
            }
        }
        assert(self.order().no_duplicates()) by {
            assert forall|i: int, j: int|
                0 <= i < self.order().len() && 0 <= j < self.order().len() && i != j implies
                self.order()[i] != self.order()[j] by {
                if i < j {
                    assert(self.ids@[i]@ != self.ids@[j]@);
                } else {
                    assert(self.ids@[j]@ != self.ids@[i]@);
                }
            }
        }
        assert(self@.dom() =~= self.order().to_set());
        self.order().unique_seq_to_set();
    }

    /// An empty store.
    pub fn new() -> (s: FileStore)
        ensures
            s.wf(),
            s@ == Map::<Seq<char>, EntrySpec>::empty(),
            s.order() == Seq::<Seq<char>>::empty(),
    {
        let s = FileStore { ids: Vec::new(), entries: Vec::new() };
        assert(s@ =~= Map::<Seq<char>, EntrySpec>::empty());
        assert(s.order() =~= Seq::<Seq<char>>::empty());
        s
    }

    /// The number of open files.
    pub fn len(&self) -> (n: usize)
        requires
            self.wf(),
        ensures
            n == self.order().len(),
    {
        self.ids.len()
    }

    /// The position of `id` in the opening order, if it is open.
    fn position(&self, id: &str) -> (r: Option<usize>)
        requires
            self.wf(),
        ensures
            match r {
                Some(i) => i < self.order().len() && self.order()[i as int] == id@,
                None => !self@.contains_key(id@),
            },
    {
        let key = id.to_owned();
        let mut i: usize = 0;
        while i < self.ids.len()
            invariant
                self.wf(),
                key@ == id@,
                i <= self.ids.len(),
                forall|j: int| 0 <= j < i ==> self.ids@[j]@ != id@,
            decreases self.ids.len() - i,
        {
            if self.ids[i] == key {
                return Some(i);
            }
            i = i + 1;
        }
        assert(!self@.contains_key(id@)) by {
            if self@.contains_key(id@) {
                let j = choose|j: int| 0 <= j < self.ids.len() && #[trigger] self.ids@[j]@ == id@;
                assert(self.ids@[j]@ != id@);
            }
        }
        None
    }

    /// The position of `id` in the opening order, if the file is open.
    pub fn position_of(&self, id: &str) -> (r: Option<usize>)
        requires
            self.wf(),
        ensures
            match r {
                Some(i) => i < self.order().len() && self.order()[i as int] == id@
                    && self@.contains_key(id@),
                None => !self@.contains_key(id@),
            },
    {
        let r = self.position(id);
        match r {
            Some(i) => {
                proof { self.lemma_at(i as int); }
            },
            None => {},
        }
        r
    }

    /// Whether a file with this id is open.
    pub fn contains_key(&self, id: &str) -> (b: bool)
        requires
            self.wf(),
        ensures
            b == self@.contains_key(id@),
    {
        match self.position(id) {
            Some(i) => {
                proof { self.lemma_at(i as int); }
                true
            },
            None => false,
        }
    }

    /// The entry of the file with this id.
    pub fn get(&self, id: &str) -> (r: Option<&FileEntry>)
        requires
            self.wf(),
        ensures
            match r {
                Some(e) => self@.contains_key(id@) && e@ == self@[id@],
                None => !self@.contains_key(id@),
            },
    {
        match self.position(id) {
            Some(i) => {
                proof { self.lemma_at(i as int); }
                Some(&self.entries[i])
            },
            None => None,
        }
    }

    /// The id at position `i` of the opening order.
    pub fn id_at(&self, i: usize) -> (r: &String)
        requires
            self.wf(),
            i < self.order().len(),
        ensures
            r@ == self.order()[i as int],
    {
        &self.ids[i]
    }

    /// The entry at position `i` of the opening order.
    pub fn entry_at(&self, i: usize) -> (r: &FileEntry)
        requires
            self.wf(),
            i < self.order().len(),
        ensures
            self@.contains_key(self.order()[i as int]),
            r@ == self@[self.order()[i as int]],
    {
        proof { self.lemma_at(i as int); }
        &self.entries[i]
    }
    /// Opens (or replaces) the file with this id; a new id goes last.
    pub fn insert(&mut self, id: String, entry: FileEntry)
        requires
            old(self).wf(),
        ensures
            final(self).wf(),
            final(self)@ == old(self)@.insert(id@, entry@),
            final(self).order() == if old(self)@.contains_key(id@) {
                old(self).order()
            } else {
                old(self).order().push(id@)
            },
    {
        let ghost pre = *self;
        match self.position(id.as_str()) {
            Some(i) => {
                proof { pre.lemma_at(i as int); }
                self.entries.set(i, entry);
                proof {
                    assert forall|k: Seq<char>| #[trigger] self@.contains_key(k) == pre@.insert(id@, entry@).contains_key(k) by {
                        if self@.contains_key(k) {
                            let j = choose|j: int| 0 <= j < self.ids.len() && #[trigger] self.ids@[j]@ == k;
                            pre.lemma_at(j);
                        }
                        if pre@.contains_key(k) {
                            let j = choose|j: int| 0 <= j < pre.ids.len() && #[trigger] pre.ids@[j]@ == k;
                            self.lemma_at(j);
                        }
                        if k == id@ {
                            self.lemma_at(i as int);
                        }
                    }
                    assert forall|k: Seq<char>| #[trigger] self@.contains_key(k) implies self@[k] == pre@.insert(id@, entry@)[k] by {
                        let j = choose|j: int| 0 <= j < self.ids.len() && #[trigger] self.ids@[j]@ == k;
                        self.lemma_at(j);
                        pre.lemma_at(j);
                    }
                    assert(self@ =~= pre@.insert(id@, entry@));
                    assert(self.order() =~= pre.order());
                }
            },
            None => {
                self.ids.push(id);
                self.entries.push(entry);
                proof {
                    let n = pre.ids.len() as int;
                    assert forall|a: int, b: int| 0 <= a < b < self.ids.len() implies #[trigger] self.ids@[a]@ != #[trigger] self.ids@[b]@ by {
                        if b == n {
                            if pre.ids@[a]@ == id@ {
                                pre.lemma_at(a);
                            }
                        } else {
                            assert(pre.ids@[a]@ != pre.ids@[b]@);
                        }
                    }
                    assert forall|k: Seq<char>| #[trigger] self@.contains_key(k) == pre@.insert(id@, entry@).contains_key(k) by {
                        if self@.contains_key(k) {
                            let j = choose|j: int| 0 <= j < self.ids.len() && #[trigger] self.ids@[j]@ == k;
                            if j < n {
                                pre.lemma_at(j);
                            }
                        }
                        if pre@.contains_key(k) {
                            let j = choose|j: int| 0 <= j < pre.ids.len() && #[trigger] pre.ids@[j]@ == k;
                            self.lemma_at(j);
                        }
                        if k == id@ {
                            self.lemma_at(n);
                        }
                    }
                    assert forall|k: Seq<char>| #[trigger] self@.contains_key(k) implies self@[k] == pre@.insert(id@, entry@)[k] by {
                        let j = choose|j: int| 0 <= j < self.ids.len() && #[trigger] self.ids@[j]@ == k;
                        self.lemma_at(j);
                        if j < n {
                            pre.lemma_at(j);
                        }
                    }
                    assert(self@ =~= pre@.insert(id@, entry@));
                    assert(self.order() =~= pre.order().push(id@));
                }
            },
        }
    }

    /// Closes the file with this id; returns whether it was open.
    pub fn remove(&mut self, id: &str) -> (removed: bool)
        requires
            old(self).wf(),
        ensures
            final(self).wf(),
            removed == old(self)@.contains_key(id@),
            final(self)@ == old(self)@.remove(id@),
            removed ==> exists|i: int|
                0 <= i < old(self).order().len() && old(self).order()[i] == id@
                    && final(self).order() == old(self).order().remove(i),
            !removed ==> final(self).order() == old(self).order(),
    {
        let ghost pre = *self;
        match self.position(id) {
            Some(i) => {
                proof { pre.lemma_at(i as int); }
                self.ids.remove(i);
                self.entries.remove(i);
                proof {
                    let ii = i as int;
                    assert forall|a: int, b: int| 0 <= a < b < self.ids.len() implies #[trigger] self.ids@[a]@ != #[trigger] self.ids@[b]@ by {
                        let a0 = if a < ii { a } else { a + 1 };
                        let b0 = if b < ii { b } else { b + 1 };
                        assert(pre.ids@[a0]@ != pre.ids@[b0]@);
                    }
                    assert forall|k: Seq<char>| #[trigger] self@.contains_key(k) == pre@.remove(id@).contains_key(k) by {
                        if self@.contains_key(k) {
                            let j = choose|j: int| 0 <= j < self.ids.len() && #[trigger] self.ids@[j]@ == k;
                            let j0 = if j < ii { j } else { j + 1 };
                            pre.lemma_at(j0);
                            assert(pre.ids@[j0]@ != pre.ids@[ii]@);
                        }
                        if pre@.contains_key(k) && k != id@ {
                            let j = choose|j: int| 0 <= j < pre.ids.len() && #[trigger] pre.ids@[j]@ == k;
                            let j1 = if j < ii { j } else { j - 1 };
                            assert(self.ids@[j1]@ == k);
                        }
                    }
                    assert forall|k: Seq<char>| #[trigger] self@.contains_key(k) implies self@[k] == pre@.remove(id@)[k] by {
                        let j = choose|j: int| 0 <= j < self.ids.len() && #[trigger] self.ids@[j]@ == k;
                        let j0 = if j < ii { j } else { j + 1 };
                        self.lemma_at(j);
                        pre.lemma_at(j0);
                    }
                    assert(self@ =~= pre@.remove(id@));
                    assert(self.order() =~= pre.order().remove(ii));
                }
                true
            },
            None => {
                assert(pre@.remove(id@) =~= pre@);
                false
            },
        }
    }

    /// Closes every file.
    pub fn clear(&mut self)
        requires
            old(self).wf(),
        ensures
            final(self).wf(),
            final(self)@ == Map::<Seq<char>, EntrySpec>::empty(),
            final(self).order() == Seq::<Seq<char>>::empty(),
    {
        self.ids.clear();
        self.entries.clear();
        assert(self@ =~= Map::<Seq<char>, EntrySpec>::empty());
        assert(self.order() =~= Seq::<Seq<char>>::empty());
    }
    /// Gives the file with this id new content and a new version; returns
    /// whether the file was open. Path and display name stay as they were.
    pub fn update_content(&mut self, id: &str, content: String, version: u64) -> (updated: bool)
        requires
            old(self).wf(),
        ensures
            final(self).wf(),
            updated == old(self)@.contains_key(id@),
            updated ==> final(self)@ == old(self)@.insert(
                id@,
                EntrySpec {
                    content: content@,
                    version: version,
                    path: old(self)@[id@].path,
                    display_name: old(self)@[id@].display_name,
                },
            ),
            !updated ==> final(self)@ == old(self)@,
            final(self).order() == old(self).order(),
    {
        let ghost pre = *self;
        match self.position(id) {
            Some(i) => {
                proof { pre.lemma_at(i as int); }
                let old_entry = self.entries.remove(i);
                let FileEntry { content: _, version: _, path, display_name } = old_entry;
                let entry = FileEntry { content, version, path, display_name };
                self.entries.insert(i, entry);
                let ghost e = entry@;
                proof {
                    assert(self.entries@ =~= pre.entries@.update(i as int, entry));
                    assert forall|k: Seq<char>| #[trigger] self@.contains_key(k) == pre@.insert(id@, e).contains_key(k) by {
                        if self@.contains_key(k) {
                            let j = choose|j: int| 0 <= j < self.ids.len() && #[trigger] self.ids@[j]@ == k;
                            pre.lemma_at(j);
                        }
                        if pre@.contains_key(k) {
                            let j = choose|j: int| 0 <= j < pre.ids.len() && #[trigger] pre.ids@[j]@ == k;
                            self.lemma_at(j);
                        }
                        if k == id@ {
                            self.lemma_at(i as int);
                        }
                    }
                    assert forall|k: Seq<char>| #[trigger] self@.contains_key(k) implies self@[k] == pre@.insert(id@, e)[k] by {
                        let j = choose|j: int| 0 <= j < self.ids.len() && #[trigger] self.ids@[j]@ == k;
                        self.lemma_at(j);
                        pre.lemma_at(j);
                    }
                    assert(self@ =~= pre@.insert(id@, e));
                    assert(self.order() =~= pre.order());
                }
                true
            },
            None => {
                false
            },
        }
    }

    /// The id of the first open file (in opening order) whose path is `path`.
    pub fn find_by_path(&self, path: &str) -> (r: Option<String>)
        requires
            self.wf(),
        ensures
            match r {
                Some(k) => exists|i: int|
                    0 <= i < self.order().len() && self.order()[i] == k@
                        && self@[k@].path == Some(path@)
                        && forall|j: int| 0 <= j < i ==> #[trigger] self@[self.order()[j]].path != Some(path@),
                None => forall|i: int|
                    0 <= i < self.order().len() ==> #[trigger] self@[self.order()[i]].path != Some(path@),
            },
    {
        let target = path.to_owned();
        let mut i: usize = 0;
        while i < self.ids.len()
            invariant
                self.wf(),
                target@ == path@,
                i <= self.ids.len(),
                forall|j: int| 0 <= j < i ==> #[trigger] self@[self.order()[j]].path != Some(path@),
            decreases self.ids.len() - i,
        {
            proof { self.lemma_at(i as int); }
            let found = match &self.entries[i].path {
                Some(p) => *p == target,
                None => false,
            };
            if found {
                return Some(self.ids[i].clone());
            }
            i = i + 1;
        }
        None
    }

    /// The id of the first open file (in opening order) shown as `name`.
    pub fn find_by_display_name(&self, name: &str) -> (r: Option<String>)
        requires
            self.wf(),
        ensures
            match r {
                Some(k) => exists|i: int|
                    0 <= i < self.order().len() && self.order()[i] == k@
                        && self@[k@].display_name == name@
                        && forall|j: int| 0 <= j < i ==> #[trigger] self@[self.order()[j]].display_name != name@,
                None => forall|i: int|
                    0 <= i < self.order().len() ==> #[trigger] self@[self.order()[i]].display_name != name@,
            },
    {
        let target = name.to_owned();
        let mut i: usize = 0;
        while i < self.ids.len()
            invariant
                self.wf(),
                target@ == name@,
                i <= self.ids.len(),
                forall|j: int| 0 <= j < i ==> #[trigger] self@[self.order()[j]].display_name != name@,
            decreases self.ids.len() - i,
        {
            proof { self.lemma_at(i as int); }
            if self.entries[i].display_name == target {
                return Some(self.ids[i].clone());
            }
            i = i + 1;
        }
        None
    }
}

/// Law: what a write stores is what a read gives back. After `insert(id, e)`
/// the file `id` is open with entry `e`, and every other file is as it was.
pub proof fn law_read_after_insert(
    before: Map<Seq<char>, EntrySpec>,
    after: Map<Seq<char>, EntrySpec>,
    id: Seq<char>,
    e: EntrySpec,
)
    requires
        after == before.insert(id, e),
    ensures
        after.contains_key(id) && after[id] == e,
        forall|k: Seq<char>| k != id ==> (after.contains_key(k) == before.contains_key(k)),
        forall|k: Seq<char>| k != id && before.contains_key(k) ==> after[k] == before[k],
{
}

/// Law: a closed file is gone, and closing touches no other file.
pub proof fn law_read_after_remove(
    before: Map<Seq<char>, EntrySpec>,
    after: Map<Seq<char>, EntrySpec>,
    id: Seq<char>,
)
    requires
        after == before.remove(id),
    ensures
        !after.contains_key(id),
        forall|k: Seq<char>| k != id ==> (after.contains_key(k) == before.contains_key(k)),
        forall|k: Seq<char>| k != id && before.contains_key(k) ==> after[k] == before[k],
{
}

/// Law: inserting a new id adds one tab at the end; replacing an open id
/// keeps the tabs as they were.
pub proof fn law_insert_order(before: FileStore, after: FileStore, id: Seq<char>, e: EntrySpec)
    requires
        before.wf(),
        after.wf(),
        after@ == before@.insert(id, e),
        after.order() == if before@.contains_key(id) {
            before.order()
        } else {
            before.order().push(id)
        },
    ensures
        after.order().len() == before.order().len() + if before@.contains_key(id) { 0int } else { 1int },
        after.order().last() == id || before@.contains_key(id),
        forall|i: int| 0 <= i < before.order().len() ==> after.order()[i] == before.order()[i],
{
}

} // verus!
