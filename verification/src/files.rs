//! Files kept by name, as archives hold them.

use vstd::prelude::*;

verus! {

/// A named file.
struct FileData {
    name: String,
    data: Vec<u8>,
}

impl FileData {
    spec fn key(&self) -> Seq<char> {
        self.name@
    }
}

/// The files of a list, by name; a later file wins over an earlier one.
spec fn file_map(s: Seq<FileData>) -> Map<Seq<char>, Seq<u8>>
    decreases s.len(),
{
    if s.len() == 0 {
        Map::empty()
    } else {
        file_map(s.drop_last()).insert(s.last().key(), s.last().data@)
    }
}

/// No two files of a list share a name.
spec fn unique(s: Seq<FileData>) -> bool {
    forall|i: int, j: int| 0 <= i < j < s.len() ==> s[i].key() != s[j].key()
}

proof fn lemma_file_map(s: Seq<FileData>)
    requires
        unique(s),
    ensures
        forall|k: Seq<char>| #[trigger]
            file_map(s).contains_key(k) <==> exists|i: int| 0 <= i < s.len() && s[i].key() == k,
        forall|i: int| 0 <= i < s.len() ==> #[trigger] file_map(s)[s[i].key()] == s[i].data@,
    decreases s.len(),
{
    if s.len() > 0 {
        let t = s.drop_last();
        assert(unique(t));
        lemma_file_map(t);
        assert forall|k: Seq<char>| #[trigger]
            file_map(s).contains_key(k) <==> exists|i: int| 0 <= i < s.len() && s[i].key() == k by {
            if file_map(t).contains_key(k) {
                let i = choose|i: int| 0 <= i < t.len() && t[i].key() == k;
                assert(s[i] == t[i]);
            }
            if k == s.last().key() {
                assert(s[s.len() - 1].key() == k);
            }
            if exists|i: int| 0 <= i < s.len() && s[i].key() == k {
                let i = choose|i: int| 0 <= i < s.len() && s[i].key() == k;
                if i < t.len() {
                    assert(t[i] == s[i]);
                    assert(file_map(t).contains_key(k));
                }
            }
        }
        assert forall|i: int| 0 <= i < s.len() implies #[trigger] file_map(s)[s[i].key()]
            == s[i].data@ by {
            if i < t.len() {
                assert(t[i] == s[i]);
                assert(s[i].key() != s[s.len() - 1].key());
                assert(file_map(t)[t[i].key()] == t[i].data@);
            }
        }
    }
}

proof fn lemma_file_map_update(s: Seq<FileData>, i: int, c: FileData)
    requires
        unique(s),
        0 <= i < s.len(),
        c.key() == s[i].key(),
    ensures
        unique(s.update(i, c)),
        file_map(s.update(i, c)) == file_map(s).insert(c.key(), c.data@),
{
    let u = s.update(i, c);
    assert(unique(u)) by {
        assert forall|a: int, b: int| 0 <= a < b < u.len() implies u[a].key() != u[b].key() by {
            assert(u[a].key() == s[a].key());
            assert(u[b].key() == s[b].key());
        }
    }
    lemma_file_map(s);
    lemma_file_map(u);
    let m = file_map(s).insert(c.key(), c.data@);
    assert forall|k: Seq<char>| #[trigger] file_map(u).contains_key(k) <==> m.contains_key(k) by {
        if file_map(s).contains_key(k) {
            let j = choose|j: int| 0 <= j < s.len() && s[j].key() == k;
            assert(u[j].key() == k);
        }
        if k == c.key() {
            assert(u[i].key() == k);
        }
        if file_map(u).contains_key(k) {
            let j = choose|j: int| 0 <= j < u.len() && u[j].key() == k;
            assert(s[j].key() == k);
            assert(file_map(s).contains_key(k));
        }
    }
    assert forall|k: Seq<char>| #[trigger] file_map(u).contains_key(k) implies file_map(u)[k]
        == m[k] by {
        let j = choose|j: int| 0 <= j < u.len() && u[j].key() == k;
        assert(file_map(u)[u[j].key()] == u[j].data@);
        if j != i {
            assert(u[j] == s[j]);
            assert(file_map(s)[s[j].key()] == s[j].data@);
        }
    }
    assert(file_map(u) =~= m);
}

/// Files by name; each name is held once.
pub struct FileTable {
    files: Vec<FileData>,
}

impl View for FileTable {
    type V = Map<Seq<char>, Seq<u8>>;

    closed spec fn view(&self) -> Map<Seq<char>, Seq<u8>> {
        file_map(self.files@)
    }
}

impl FileTable {
    /// No two files share a name.
    pub closed spec fn wf(&self) -> bool {
        unique(self.files@)
    }

    /// A table with no file.
    pub fn new() -> (r: FileTable)
        ensures
            r.wf(),
            r@ == Map::<Seq<char>, Seq<u8>>::empty(),
    {
        FileTable { files: Vec::new() }
    }

    /// The index of the file named `name`, if there is one.
    fn find(&self, name: &String) -> (r: Option<usize>)
        requires
            self.wf(),
        ensures
            match r {
                Some(i) => i < self.files.len() && self.files@[i as int].key() == name@,
                None => !self@.contains_key(name@),
            },
    {
        proof {
            lemma_file_map(self.files@);
        }
        let mut i: usize = 0;
        while i < self.files.len()
            invariant
                i <= self.files.len(),
                forall|j: int| 0 <= j < i ==> self.files@[j].key() != name@,
            decreases self.files.len() - i,
        {
            if self.files[i].name == *name {
                return Some(i);
            }
            i = i + 1;
        }
        None
    }

    /// Adds a file, replacing one with its name.
    pub fn insert(&mut self, name: String, data: Vec<u8>)
        requires
            old(self).wf(),
        ensures
            final(self).wf(),
            final(self)@ == old(self)@.insert(name@, data@),
    {
        proof {
            lemma_file_map(self.files@);
        }
        match self.find(&name) {
            Some(i) => {
                let f = FileData { name, data };
                proof {
                    lemma_file_map_update(self.files@, i as int, f);
                }
                self.files.set(i, f);
            },
            None => {
                let ghost before = self.files@;
                let ghost key = name@;
                self.files.push(FileData { name, data });
                proof {
                    assert(self.files@.drop_last() =~= before);
                    assert forall|a: int, b: int| 0 <= a < b < self.files@.len() implies
                        self.files@[a].key() != self.files@[b].key() by {
                        if b == before.len() {
                            assert(self.files@[a] == before[a]);
                            assert(before[a].key() != key);
                        } else {
                            assert(self.files@[a] == before[a]);
                            assert(self.files@[b] == before[b]);
                        }
                    }
                }
            },
        }
    }

    /// The data of the file named `name`, if there is one.
    pub fn get(&self, name: &str) -> (r: Option<&[u8]>)
        requires
            self.wf(),
        ensures
            self@.contains_key(name@) ==> (r matches Some(d) && d@ == self@[name@]),
            !self@.contains_key(name@) ==> r is None,
    {
        let key = name.to_owned();
        proof {
            lemma_file_map(self.files@);
        }
        match self.find(&key) {
            Some(i) => Some(self.files[i].data.as_slice()),
            None => None,
        }
    }

    /// The names and data of the files.
    pub fn entries(&self) -> (r: Vec<(String, Vec<u8>)>)
        requires
            self.wf(),
        ensures
            forall|k: Seq<char>| #[trigger] self@.contains_key(k) <==> exists|i: int|
                0 <= i < r@.len() && r@[i].0@ == k,
            forall|i: int| 0 <= i < r@.len() ==> #[trigger] self@[r@[i].0@] == r@[i].1@,
    {
        proof {
            lemma_file_map(self.files@);
        }
        let mut r: Vec<(String, Vec<u8>)> = Vec::new();
        let mut i: usize = 0;
        while i < self.files.len()
            invariant
                i <= self.files@.len(),
                r@.len() == i,
                forall|j: int| 0 <= j < i ==> #[trigger] r@[j].0@ == self.files@[j].key() && r@[j].1@
                    == self.files@[j].data@,
            decreases self.files@.len() - i,
        {
            let f = &self.files[i];
            r.push((f.name.clone(), vstd::slice::slice_to_vec(f.data.as_slice())));
            i = i + 1;
        }
        assert forall|k: Seq<char>| #[trigger] self@.contains_key(k) implies exists|j: int|
            0 <= j < r@.len() && r@[j].0@ == k by {
            let j = choose|j: int| 0 <= j < self.files@.len() && self.files@[j].key() == k;
            assert(r@[j].0@ == k);
        }
        assert forall|j: int| 0 <= j < r@.len() implies #[trigger] self@[r@[j].0@] == r@[j].1@ by {
            assert(r@[j].0@ == self.files@[j].key());
        }
        r
    }
}

} // verus!
