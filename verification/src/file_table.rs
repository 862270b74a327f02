use vstd::prelude::*;

verus! {

/// One row of the file table: a file's base name and its full content,
/// read into memory once at startup.
pub struct FileEntry {
    pub name: String,
    pub data: Vec<u8>,
}

impl View for FileEntry {
    type V = (Seq<char>, Seq<u8>);

    open spec fn view(&self) -> (Seq<char>, Seq<u8>) {
        (self.name@, self.data@)
    }
}

/// The file table: an immutable mapping from file name to content, built
/// once before the server starts accepting connections and then shared
/// read-only by every connection task.
pub struct FileTable {
    pub entries: Vec<FileEntry>,
}

impl View for FileTable {
    type V = Seq<(Seq<char>, Seq<u8>)>;

    open spec fn view(&self) -> Seq<(Seq<char>, Seq<u8>)> {
        self.entries@.map_values(|e: FileEntry| e@)
    }
}

/// No two entries carry the same name: each name is a unique key.
pub open spec fn distinct_names(entries: Seq<(Seq<char>, Seq<u8>)>) -> bool {
    forall|i: int, j: int| 0 <= i < j < entries.len() ==> entries[i].0 != entries[j].0
}

/// The content stored under `name`: that of the first entry with that name,
/// or `None` when no entry has it. When the names are distinct the first
/// match is the only one.
pub open spec fn table_lookup(entries: Seq<(Seq<char>, Seq<u8>)>, name: Seq<char>) -> Option<
    Seq<u8>,
>
    decreases entries.len(),
{
    if entries.len() == 0 {
        None
    } else if entries[0].0 == name {
        Some(entries[0].1)
    } else {
        table_lookup(entries.drop_first(), name)
    }
}

/// A lookup lands on the first entry whose name matches.
pub proof fn lemma_lookup_found(entries: Seq<(Seq<char>, Seq<u8>)>, name: Seq<char>, i: int)
    requires
        0 <= i < entries.len(),
        entries[i].0 == name,
        forall|j: int| 0 <= j < i ==> entries[j].0 != name,
    ensures
        table_lookup(entries, name) == Some(entries[i].1),
    decreases i,
{
    if i > 0 {
        assert(forall|j: int|
            0 <= j < i - 1 ==> entries.drop_first()[j] == entries[j + 1]);
        lemma_lookup_found(entries.drop_first(), name, i - 1);
    }
}

/// A lookup of a name no entry carries yields nothing.
pub proof fn lemma_lookup_none(entries: Seq<(Seq<char>, Seq<u8>)>, name: Seq<char>)
    requires
        forall|j: int| 0 <= j < entries.len() ==> entries[j].0 != name,
    ensures
        table_lookup(entries, name) is None,
    decreases entries.len(),
{
    if entries.len() > 0 {
        assert(forall|j: int|
            0 <= j < entries.len() - 1 ==> entries.drop_first()[j] == entries[j + 1]);
        lemma_lookup_none(entries.drop_first(), name);
    }
}

/// Overwriting the entry that already carries `name` changes no other
/// name's lookup.
proof fn lemma_lookup_update(
    entries: Seq<(Seq<char>, Seq<u8>)>,
    i: int,
    name: Seq<char>,
    data: Seq<u8>,
    n: Seq<char>,
)
    requires
        0 <= i < entries.len(),
        entries[i].0 == name,
        n != name,
    ensures
        table_lookup(entries.update(i, (name, data)), n) == table_lookup(entries, n),
    decreases entries.len(),
{
    let up = entries.update(i, (name, data));
    if i == 0 {
        assert(up.drop_first() =~= entries.drop_first());
    } else {
        assert(up[0] == entries[0]);
        if entries[0].0 != n {
            assert(up.drop_first() =~= entries.drop_first().update(i - 1, (name, data)));
            lemma_lookup_update(entries.drop_first(), i - 1, name, data, n);
        }
    }
}

/// Appending a fresh entry serves that entry's name and changes no other
/// name's lookup.
proof fn lemma_lookup_push(
    entries: Seq<(Seq<char>, Seq<u8>)>,
    name: Seq<char>,
    data: Seq<u8>,
    n: Seq<char>,
)
    ensures
        table_lookup(entries.push((name, data)), n) == (if table_lookup(entries, n) is Some {
            table_lookup(entries, n)
        } else if n == name {
            Some(data)
        } else {
            None::<Seq<u8>>
        }),
    decreases entries.len(),
{
    let pushed = entries.push((name, data));
    if entries.len() == 0 {
        assert(pushed[0] == (name, data));
        assert(pushed.drop_first() =~= Seq::<(Seq<char>, Seq<u8>)>::empty());
        if n == name {
            assert(table_lookup(pushed, n) == Some(data));
        } else {
            assert(table_lookup(pushed, n) == table_lookup(pushed.drop_first(), n));
            assert(table_lookup(pushed, n) is None);
        }
    } else {
        assert(pushed[0] == entries[0]);
        assert(pushed.drop_first() =~= entries.drop_first().push((name, data)));
        lemma_lookup_push(entries.drop_first(), name, data, n);
        if entries[0].0 == n {
            assert(table_lookup(pushed, n) == Some(entries[0].1));
            assert(table_lookup(entries, n) == Some(entries[0].1));
        } else {
            assert(table_lookup(pushed, n) == table_lookup(pushed.drop_first(), n));
            assert(table_lookup(entries, n) == table_lookup(entries.drop_first(), n));
        }
    }
}

impl FileTable {
    /// The names are unique keys, as they are when every entry comes from
    /// one directory's distinct base names.
    pub open spec fn wf(self) -> bool {
        distinct_names(self@)
    }

    /// An empty table.
    pub fn new() -> (t: FileTable)
        ensures
            t@ == Seq::<(Seq<char>, Seq<u8>)>::empty(),
            t.wf(),
    {
        let t = FileTable { entries: Vec::new() };
        proof {
            assert(t@ =~= Seq::<(Seq<char>, Seq<u8>)>::empty());
        }
        t
    }

    /// How many files the table holds.
    pub fn len(&self) -> (n: usize)
        ensures
            n == self@.len(),
    {
        self.entries.len()
    }

    /// The index of the first entry named `name`, if any.
    pub fn find(&self, name: &str) -> (r: Option<usize>)
        ensures
            match r {
                Some(i) => 0 <= i < self@.len() && self@[i as int].0 == name@ && (forall|j: int|
                    0 <= j < i ==> self@[j].0 != name@),
                None => forall|j: int| 0 <= j < self@.len() ==> self@[j].0 != name@,
            },
    {
        let wanted: String = name.to_owned();
        let mut i: usize = 0;
        while i < self.entries.len()
            invariant
                i <= self.entries.len(),
                wanted@ == name@,
                forall|j: int| 0 <= j < i ==> self@[j].0 != name@,
            decreases self.entries.len() - i,
        {
            if self.entries[i].name == wanted {
                return Some(i);
            }
            i += 1;
        }
        None
    }

    /// The content stored under `name`, if any.
    pub fn get(&self, name: &str) -> (r: Option<&Vec<u8>>)
        ensures
            match r {
                Some(d) => table_lookup(self@, name@) == Some(d@),
                None => table_lookup(self@, name@) is None,
            },
    {
        match self.find(name) {
            Some(i) => {
                proof {
                    lemma_lookup_found(self@, name@, i as int);
                }
                Some(&self.entries[i].data)
            },
            None => {
                proof {
                    lemma_lookup_none(self@, name@);
                }
                None
            },
        }
    }

    /// Store `data` under `name`: overwrite the entry that already carries
    /// `name`, or append a new one. Uniqueness of the names is preserved.
    pub fn insert(&mut self, name: String, data: Vec<u8>)
        ensures
            table_lookup(final(self)@, name@) == Some(data@),
            forall|n: Seq<char>|
                n != name@ ==> table_lookup(final(self)@, n) == table_lookup(old(self)@, n),
            (if table_lookup(old(self)@, name@) is Some {
                exists|i: int|
                    0 <= i < old(self)@.len() && old(self)@[i].0 == name@ && (forall|j: int|
                        0 <= j < i ==> old(self)@[j].0 != name@) && final(self)@ == old(
                        self,
                    )@.update(i, (name@, data@))
            } else {
                final(self)@ == old(self)@.push((name@, data@))
            }),
            old(self).wf() ==> final(self).wf(),
    {
        let found = self.find(name.as_str());
        match found {
            Some(i) => {
                let ghost prev = self@;
                let entry = FileEntry { name, data };
                let ghost model = entry@;
                self.entries.set(i, entry);
                proof {
                    assert(self@ =~= prev.update(i as int, model));
                    lemma_lookup_found(prev, model.0, i as int);
                    lemma_lookup_found(self@, model.0, i as int);
                    let ghost ii = i as int;
                    assert(0 <= ii < prev.len() && prev[ii].0 == model.0 && (forall|j: int|
                        0 <= j < ii ==> prev[j].0 != model.0) && self@ == prev.update(ii, model));
                    assert forall|n: Seq<char>| n != model.0 implies table_lookup(self@, n)
                        == table_lookup(prev, n) by {
                        lemma_lookup_update(prev, i as int, model.0, model.1, n);
                    }
                }
            },
            None => {
                let ghost prev = self@;
                let entry = FileEntry { name, data };
                let ghost model = entry@;
                self.entries.push(entry);
                proof {
                    assert(self@ =~= prev.push(model));
                    lemma_lookup_none(prev, model.0);
                    assert forall|n: Seq<char>| true implies table_lookup(self@, n) == (
                    if table_lookup(prev, n) is Some {
                        table_lookup(prev, n)
                    } else if n == model.0 {
                        Some(model.1)
                    } else {
                        None::<Seq<u8>>
                    }) by {
                        lemma_lookup_push(prev, model.0, model.1, n);
                    }
                }
            },
        }
    }
}

} // verus!
