//! A model of the contents of a storage root: top-level entries are shard
//! directories full of regular files, or foreign entries that are not
//! directories. The storage engine performs every state change through the
//! verified operations of [`FsTree`].

use vstd::prelude::*;

verus! {

/// One regular file inside a shard directory: its name and its bytes.
pub struct FsFile {
    /// the file's name inside its directory
    pub name: String,
    /// the file's contents
    pub data: Vec<u8>,
}

/// What sits at one top-level name of the storage root.
pub enum FsNode {
    /// a shard directory holding regular files
    Dir {
        /// the files of the directory
        files: Vec<FsFile>,
    },
    /// an entry that is not a directory (a foreign file)
    Foreign,
}

/// The spec-level picture of a top-level entry.
pub enum NodeView {
    /// a directory, seen as a map from file name to contents
    Dir {
        /// file name to contents
        files: Map<Seq<char>, Seq<u8>>,
    },
    /// a non-directory entry
    Foreign,
}

/// Whether a file name is hidden: it starts with a dot. Tombstones and
/// in-flight temporary files are hidden; committed records never are.
pub open spec fn hidden_name(name: Seq<char>) -> bool {
    name.len() > 0 && name[0] == '.'
}

/// The visible part of a directory: its map restricted to the names that are
/// not hidden.
pub open spec fn visible_files(files: Map<Seq<char>, Seq<u8>>) -> Map<Seq<char>, Seq<u8>> {
    Map::new(|k: Seq<char>| files.dom().contains(k) && !hidden_name(k), |k: Seq<char>| files[k])
}

pub open spec fn files_view(s: Seq<FsFile>) -> Map<Seq<char>, Seq<u8>>
    decreases s.len(),
{
    if s.len() == 0 {
        Map::empty()
    } else {
        files_view(s.drop_last()).insert(s.last().name@, s.last().data@)
    }
}

pub open spec fn node_view(n: FsNode) -> NodeView {
    match n {
        FsNode::Dir { files } => NodeView::Dir { files: files_view(files@) },
        FsNode::Foreign => NodeView::Foreign,
    }
}

pub open spec fn entries_view(s: Seq<(char, FsNode)>) -> Map<char, NodeView>
    decreases s.len(),
{
    if s.len() == 0 {
        Map::empty()
    } else {
        entries_view(s.drop_last()).insert(s.last().0, node_view(s.last().1))
    }
}

pub open spec fn files_wf(s: Seq<FsFile>) -> bool {
    forall|i: int, j: int| 0 <= i < j < s.len() ==> s[i].name@ != s[j].name@
}

pub open spec fn node_wf(n: FsNode) -> bool {
    match n {
        FsNode::Dir { files } => files_wf(files@),
        FsNode::Foreign => true,
    }
}

pub open spec fn entries_wf(s: Seq<(char, FsNode)>) -> bool {
    &&& forall|i: int, j: int| 0 <= i < j < s.len() ==> s[i].0 != s[j].0
    &&& forall|i: int| 0 <= i < s.len() ==> node_wf(#[trigger] s[i].1)
}

proof fn lemma_files_view_contains(s: Seq<FsFile>, k: Seq<char>)
    ensures
        files_view(s).dom().contains(k) <==> (exists|i: int|
            0 <= i < s.len() && s[i].name@ == k),
    decreases s.len(),
{
    if s.len() > 0 {
        lemma_files_view_contains(s.drop_last(), k);
        if s.last().name@ == k {
            assert(s[s.len() - 1].name@ == k);
        } else {
            if files_view(s).dom().contains(k) {
                let i = choose|i: int| 0 <= i < s.drop_last().len() && s.drop_last()[i].name@ == k;
                assert(s[i].name@ == k);
            }
            if exists|i: int| 0 <= i < s.len() && s[i].name@ == k {
                let i = choose|i: int| 0 <= i < s.len() && s[i].name@ == k;
                assert(i < s.len() - 1);
                assert(s.drop_last()[i].name@ == k);
            }
        }
    }
}

proof fn lemma_files_view_index(s: Seq<FsFile>, i: int)
    requires
        files_wf(s),
        0 <= i < s.len(),
    ensures
        files_view(s).dom().contains(s[i].name@),
        files_view(s)[s[i].name@] == s[i].data@,
    decreases s.len(),
{
    if i == s.len() - 1 {
    } else {
        assert(files_wf(s.drop_last()));
        assert(s.drop_last()[i] == s[i]);
        lemma_files_view_index(s.drop_last(), i);
        assert(s[i].name@ != s[s.len() - 1].name@);
    }
}

proof fn lemma_files_view_push(s: Seq<FsFile>, f: FsFile)
    ensures
        files_view(s.push(f)) == files_view(s).insert(f.name@, f.data@),
{
    assert(s.push(f).drop_last() =~= s);
    assert(s.push(f).last() == f);
}

proof fn lemma_files_view_remove(s: Seq<FsFile>, i: int)
    requires
        files_wf(s),
        0 <= i < s.len(),
    ensures
        files_wf(s.remove(i)),
        files_view(s.remove(i)) == files_view(s).remove(s[i].name@),
    decreases s.len(),
{
    let k = s[i].name@;
    assert(forall|a: int, b: int|
        0 <= a < b < s.remove(i).len() ==> s.remove(i)[a].name@ != s.remove(i)[b].name@) by {
        assert(forall|a: int| 0 <= a < s.remove(i).len() ==> s.remove(i)[a] == if a < i {
            s[a]
        } else {
            s[a + 1]
        });
    }
    if i == s.len() - 1 {
        assert(s.remove(i) =~= s.drop_last());
        lemma_files_view_contains(s.drop_last(), k);
        assert(!files_view(s.drop_last()).dom().contains(k));
        assert(files_view(s.drop_last()) =~= files_view(s).remove(k));
    } else {
        assert(s.remove(i).drop_last() =~= s.drop_last().remove(i));
        assert(s.remove(i).last() == s.last());
        assert(files_wf(s.drop_last()));
        assert(s.drop_last()[i] == s[i]);
        lemma_files_view_remove(s.drop_last(), i);
        assert(s[i].name@ != s.last().name@);
        assert(files_view(s.remove(i)) == files_view(s.drop_last()).remove(k).insert(
            s.last().name@,
            s.last().data@,
        ));
        assert(files_view(s.drop_last()).remove(k).insert(s.last().name@, s.last().data@)
            =~= files_view(s.drop_last()).insert(s.last().name@, s.last().data@).remove(k));
    }
}

proof fn lemma_entries_view_contains(s: Seq<(char, FsNode)>, c: char)
    ensures
        entries_view(s).dom().contains(c) <==> (exists|i: int| 0 <= i < s.len() && s[i].0 == c),
    decreases s.len(),
{
    if s.len() > 0 {
        lemma_entries_view_contains(s.drop_last(), c);
        if s.last().0 == c {
            assert(s[s.len() - 1].0 == c);
        } else {
            if entries_view(s).dom().contains(c) {
                let i = choose|i: int| 0 <= i < s.drop_last().len() && s.drop_last()[i].0 == c;
                assert(s[i].0 == c);
            }
            if exists|i: int| 0 <= i < s.len() && s[i].0 == c {
                let i = choose|i: int| 0 <= i < s.len() && s[i].0 == c;
                assert(i < s.len() - 1);
                assert(s.drop_last()[i].0 == c);
            }
        }
    }
}

proof fn lemma_entries_view_index(s: Seq<(char, FsNode)>, i: int)
    requires
        entries_wf(s),
        0 <= i < s.len(),
    ensures
        entries_view(s).dom().contains(s[i].0),
        entries_view(s)[s[i].0] == node_view(s[i].1),
    decreases s.len(),
{
    if i == s.len() - 1 {
    } else {
        assert(entries_wf(s.drop_last())) by {
            assert(forall|a: int| 0 <= a < s.drop_last().len() ==> s.drop_last()[a] == s[a]);
        }
        assert(s.drop_last()[i] == s[i]);
        lemma_entries_view_index(s.drop_last(), i);
        assert(s[i].0 != s[s.len() - 1].0);
    }
}

proof fn lemma_entries_view_push(s: Seq<(char, FsNode)>, e: (char, FsNode))
    ensures
        entries_view(s.push(e)) == entries_view(s).insert(e.0, node_view(e.1)),
{
    assert(s.push(e).drop_last() =~= s);
    assert(s.push(e).last() == e);
}

proof fn lemma_entries_view_remove(s: Seq<(char, FsNode)>, i: int)
    requires
        entries_wf(s),
        0 <= i < s.len(),
    ensures
        entries_wf(s.remove(i)),
        entries_view(s.remove(i)) == entries_view(s).remove(s[i].0),
    decreases s.len(),
{
    let c = s[i].0;
    assert(forall|a: int| 0 <= a < s.remove(i).len() ==> s.remove(i)[a] == if a < i {
        s[a]
    } else {
        s[a + 1]
    });
    if i == s.len() - 1 {
        assert(s.remove(i) =~= s.drop_last());
        lemma_entries_view_contains(s.drop_last(), c);
        assert(entries_wf(s.drop_last()));
        assert(!entries_view(s.drop_last()).dom().contains(c));
        assert(entries_view(s.drop_last()) =~= entries_view(s).remove(c));
    } else {
        assert(s.remove(i).drop_last() =~= s.drop_last().remove(i));
        assert(s.remove(i).last() == s.last());
        assert(entries_wf(s.drop_last())) by {
            assert(forall|a: int| 0 <= a < s.drop_last().len() ==> s.drop_last()[a] == s[a]);
        }
        assert(s.drop_last()[i] == s[i]);
        lemma_entries_view_remove(s.drop_last(), i);
        assert(s[i].0 != s.last().0);
        assert(entries_view(s.remove(i)) == entries_view(s.drop_last()).remove(c).insert(
            s.last().0,
            node_view(s.last().1),
        ));
        assert(entries_view(s.drop_last()).remove(c).insert(s.last().0, node_view(s.last().1))
            =~= entries_view(s.drop_last()).insert(s.last().0, node_view(s.last().1)).remove(c));
    }
}

/// Copy a byte vector.
pub(crate) fn clone_bytes(v: &Vec<u8>) -> (r: Vec<u8>)
    ensures
        r@ == v@,
{
    let mut r: Vec<u8> = Vec::new();
    let mut i: usize = 0;
    while i < v.len()
        invariant
            i <= v.len(),
            r@ == v@.subrange(0, i as int),
        decreases v.len() - i,
    {
        r.push(v[i]);
        proof {
            assert(r@ =~= v@.subrange(0, i + 1 as int));
        }
        i += 1;
    }
    proof {
        assert(v@.subrange(0, v@.len() as int) =~= v@);
    }
    r
}

fn clone_file(f: &FsFile) -> (r: FsFile)
    ensures
        r.name@ == f.name@,
        r.data@ == f.data@,
{
    FsFile { name: f.name.clone(), data: clone_bytes(&f.data) }
}

/// Whether the file name is hidden (starts with a dot).
pub fn name_is_hidden(name: &String) -> (b: bool)
    ensures
        b == hidden_name(name@),
{
    let s = name.as_str();
    if s.unicode_len() == 0 {
        false
    } else {
        s.get_char(0) == '.'
    }
}

/// The modeled contents of a storage root directory.
pub struct FsTree {
    entries: Vec<(char, FsNode)>,
}

impl FsTree {
    /// The tree as a map from top-level name to what sits there.
    pub closed spec fn store(&self) -> Map<char, NodeView> {
        entries_view(self.entries@)
    }

    /// Top-level names are unique, and so are the file names inside each
    /// directory.
    pub closed spec fn wf(&self) -> bool {
        entries_wf(self.entries@)
    }

    /// An empty root.
    pub fn new() -> (t: FsTree)
        ensures
            t.wf(),
            t.store() == Map::<char, NodeView>::empty(),
    {
        FsTree { entries: Vec::new() }
    }

    /// The names of every top-level entry, directories and foreign entries
    /// alike, in storage order.
    pub fn top_names(&self) -> (names: Vec<char>)
        requires
            self.wf(),
        ensures
            forall|i: int|
                0 <= i < names@.len() ==> self.store().dom().contains(#[trigger] names@[i]),
            forall|c: char| #[trigger] self.store().dom().contains(c) ==> names@.contains(c),
    {
        let mut names: Vec<char> = Vec::new();
        let mut i: usize = 0;
        while i < self.entries.len()
            invariant
                i <= self.entries@.len(),
                names@.len() == i,
                forall|j: int| 0 <= j < i ==> names@[j] == self.entries@[j].0,
            decreases self.entries@.len() - i,
        {
            names.push(self.entries[i].0);
            i += 1;
        }
        proof {
            assert forall|j: int| 0 <= j < names@.len() implies self.store().dom().contains(
                #[trigger] names@[j],
            ) by {
                lemma_entries_view_index(self.entries@, j);
            };
            assert forall|c: char| #[trigger] self.store().dom().contains(c) implies names@.contains(
                c,
            ) by {
                lemma_entries_view_contains(self.entries@, c);
                let k = choose|k: int| 0 <= k < self.entries@.len() && self.entries@[k].0 == c;
                assert(names@[k] == c);
            };
        }
        names
    }

    fn find_entry(&self, c: char) -> (r: Option<usize>)
        ensures
            match r {
                Some(i) => i < self.entries@.len() && self.entries@[i as int].0 == c,
                None => forall|i: int| 0 <= i < self.entries@.len() ==> self.entries@[i as int].0 != c,
            },
    {
        let mut i: usize = 0;
        while i < self.entries.len()
            invariant
                i <= self.entries@.len(),
                forall|j: int| 0 <= j < i ==> self.entries@[j].0 != c,
            decreases self.entries@.len() - i,
        {
            if self.entries[i].0 == c {
                return Some(i);
            }
            i += 1;
        }
        None
    }

    /// Whether a shard directory named `c` exists.
    pub fn dir_exists(&self, c: char) -> (b: bool)
        requires
            self.wf(),
        ensures
            b == (self.store().contains_key(c) && self.store()[c] is Dir),
    {
        proof {
            lemma_entries_view_contains(self.entries@, c);
        }
        match self.find_entry(c) {
            Some(i) => {
                proof {
                    lemma_entries_view_index(self.entries@, i as int);
                }
                match &self.entries[i].1 {
                    FsNode::Dir { .. } => true,
                    FsNode::Foreign => false,
                }
            },
            None => false,
        }
    }

    /// Whether a foreign (non-directory) entry named `c` exists.
    pub fn foreign_exists(&self, c: char) -> (b: bool)
        requires
            self.wf(),
        ensures
            b == (self.store().contains_key(c) && self.store()[c] is Foreign),
    {
        proof {
            lemma_entries_view_contains(self.entries@, c);
        }
        match self.find_entry(c) {
            Some(i) => {
                proof {
                    lemma_entries_view_index(self.entries@, i as int);
                }
                match &self.entries[i].1 {
                    FsNode::Dir { .. } => false,
                    FsNode::Foreign => true,
                }
            },
            None => false,
        }
    }

    /// Whether the directory `c` exists and holds a file of the given name.
    pub fn file_exists(&self, c: char, name: &String) -> (b: bool)
        requires
            self.wf(),
        ensures
            b == (self.store().contains_key(c) && self.store()[c] is Dir
                && self.store()[c]->files.dom().contains(name@)),
    {
        proof {
            lemma_entries_view_contains(self.entries@, c);
        }
        match self.find_entry(c) {
            Some(i) => {
                proof {
                    lemma_entries_view_index(self.entries@, i as int);
                }
                match &self.entries[i].1 {
                    FsNode::Dir { files } => {
                        proof {
                            lemma_files_view_contains(files@, name@);
                        }
                        match Self::find_file(files, name) {
                            Some(_) => true,
                            None => false,
                        }
                    },
                    FsNode::Foreign => false,
                }
            },
            None => false,
        }
    }

    fn find_file(files: &Vec<FsFile>, name: &String) -> (r: Option<usize>)
        ensures
            match r {
                Some(i) => i < files@.len() && files@[i as int].name@ == name@,
                None => forall|i: int| 0 <= i < files@.len() ==> files@[i as int].name@ != name@,
            },
    {
        let mut i: usize = 0;
        while i < files.len()
            invariant
                i <= files@.len(),
                forall|j: int| 0 <= j < i ==> files@[j].name@ != name@,
            decreases files@.len() - i,
        {
            if files[i].name == *name {
                return Some(i);
            }
            i += 1;
        }
        None
    }

    /// The contents of the named file, if the directory and the file exist.
    pub fn read_file(&self, c: char, name: &String) -> (r: Option<Vec<u8>>)
        requires
            self.wf(),
        ensures
            match r {
                Some(v) => self.store().contains_key(c) && self.store()[c] is Dir
                    && self.store()[c]->files.dom().contains(name@)
                    && v@ == self.store()[c]->files[name@],
                None => !(self.store().contains_key(c) && self.store()[c] is Dir
                    && self.store()[c]->files.dom().contains(name@)),
            },
    {
        proof {
            lemma_entries_view_contains(self.entries@, c);
        }
        match self.find_entry(c) {
            Some(i) => {
                proof {
                    lemma_entries_view_index(self.entries@, i as int);
                }
                match &self.entries[i].1 {
                    FsNode::Dir { files } => {
                        proof {
                            lemma_files_view_contains(files@, name@);
                        }
                        match Self::find_file(files, name) {
                            Some(j) => {
                                proof {
                                    lemma_files_view_index(files@, j as int);
                                }
                                Some(clone_bytes(&files[j].data))
                            },
                            None => None,
                        }
                    },
                    FsNode::Foreign => None,
                }
            },
            None => None,
        }
    }

    /// Create an empty shard directory named `c`.
    pub fn create_dir(&mut self, c: char)
        requires
            old(self).wf(),
            !old(self).store().contains_key(c),
        ensures
            final(self).wf(),
            final(self).store() == old(self).store().insert(
                c,
                NodeView::Dir { files: Map::empty() },
            ),
    {
        proof {
            lemma_entries_view_contains(self.entries@, c);
        }
        let ghost olds = self.entries@;
        let node = FsNode::Dir { files: Vec::new() };
        let ghost gpair = (c, node);
        self.entries.push((c, node));
        proof {
            assert(forall|i: int| 0 <= i < olds.len() ==> self.entries@[i] == olds[i]);
            lemma_entries_view_push(olds, gpair);
            assert(final(self).store() =~= old(self).store().insert(
                c,
                NodeView::Dir { files: Map::empty() },
            ));
        }
    }

    /// Record a foreign, non-directory entry named `c`; it stands for a file
    /// that something other than the engine left in the root.
    pub fn add_foreign(&mut self, c: char)
        requires
            old(self).wf(),
            !old(self).store().contains_key(c),
        ensures
            final(self).wf(),
            final(self).store() == old(self).store().insert(c, NodeView::Foreign),
    {
        proof {
            lemma_entries_view_contains(self.entries@, c);
        }
        let ghost olds = self.entries@;
        self.entries.push((c, FsNode::Foreign));
        proof {
            assert(forall|i: int| 0 <= i < olds.len() ==> self.entries@[i] == olds[i]);
            lemma_entries_view_push(olds, (c, FsNode::Foreign));
        }
    }

    /// Write the file `name` in the existing directory `c`, replacing any
    /// previous contents.
    pub fn write_file(&mut self, c: char, name: &String, data: &Vec<u8>)
        requires
            old(self).wf(),
            old(self).store().contains_key(c),
            old(self).store()[c] is Dir,
        ensures
            final(self).wf(),
            final(self).store() == old(self).store().insert(
                c,
                NodeView::Dir { files: old(self).store()[c]->files.insert(name@, data@) },
            ),
    {
        proof {
            lemma_entries_view_contains(self.entries@, c);
        }
        let i = self.find_entry(c).unwrap();
        proof {
            lemma_entries_view_index(self.entries@, i as int);
            lemma_entries_view_remove(self.entries@, i as int);
        }
        let ghost olds = self.entries@;
        let ghost oldfiles = old(self).store()[c]->files;
        let entry = self.entries.remove(i);
        match entry.1 {
            FsNode::Dir { mut files } => {
                let ghost filesseq0 = files@;
                match Self::find_file(&files, name) {
                    Some(j) => {
                        proof {
                            lemma_files_view_contains(filesseq0, name@);
                            lemma_files_view_remove(filesseq0, j as int);
                        }
                        files.remove(j);
                    },
                    None => {
                        proof {
                            lemma_files_view_contains(filesseq0, name@);
                            assert(files_view(filesseq0).remove(name@) =~= files_view(filesseq0));
                        }
                    },
                }
                // either way the files now view as the old map without `name`
                proof {
                    assert(files_view(files@) == files_view(filesseq0).remove(name@));
                    lemma_files_view_contains(files@, name@);
                }
                let f = FsFile { name: name.clone(), data: clone_bytes(data) };
                proof {
                    lemma_files_view_push(files@, f);
                    assert(forall|a: int| 0 <= a < files@.len()
                        ==> #[trigger] files@.push(f)[a] == files@[a]);
                    assert(files@.push(f).last() == f);
                }
                files.push(f);
                proof {
                    assert(files_wf(files@));
                    assert(files_view(files@) =~= oldfiles.insert(name@, data@));
                }
                let node = FsNode::Dir { files };
                let ghost gpair = (c, node);
                let ghost mids = self.entries@;
                self.entries.push((c, node));
                proof {
                    assert(forall|a: int| 0 <= a < mids.len() ==> self.entries@[a] == mids[a]);
                    lemma_entries_view_push(mids, gpair);
                    assert(entries_view(mids).contains_key(c) == false) by {
                        lemma_entries_view_contains(mids, c);
                        assert(forall|a: int| 0 <= a < mids.len() ==> mids[a] == if a < i {
                            olds[a]
                        } else {
                            olds[a + 1]
                        });
                    }
                    assert(final(self).store() =~= old(self).store().insert(
                        c,
                        NodeView::Dir { files: oldfiles.insert(name@, data@) },
                    ));
                }
            },
            FsNode::Foreign => {
                proof {
                    assert(false);
                }
            },
        }
    }

    /// Remove the file `name` from the existing directory `c`.
    pub fn remove_file(&mut self, c: char, name: &String)
        requires
            old(self).wf(),
            old(self).store().contains_key(c),
            old(self).store()[c] is Dir,
            old(self).store()[c]->files.dom().contains(name@),
        ensures
            final(self).wf(),
            final(self).store() == old(self).store().insert(
                c,
                NodeView::Dir { files: old(self).store()[c]->files.remove(name@) },
            ),
    {
        proof {
            lemma_entries_view_contains(self.entries@, c);
        }
        let i = self.find_entry(c).unwrap();
        proof {
            lemma_entries_view_index(self.entries@, i as int);
            lemma_entries_view_remove(self.entries@, i as int);
        }
        let ghost olds = self.entries@;
        let ghost oldfiles = old(self).store()[c]->files;
        let entry = self.entries.remove(i);
        match entry.1 {
            FsNode::Dir { mut files } => {
                let ghost filesseq0 = files@;
                proof {
                    lemma_files_view_contains(filesseq0, name@);
                }
                let j = Self::find_file(&files, name).unwrap();
                proof {
                    lemma_files_view_remove(filesseq0, j as int);
                }
                files.remove(j);
                let node = FsNode::Dir { files };
                let ghost gpair = (c, node);
                let ghost mids = self.entries@;
                self.entries.push((c, node));
                proof {
                    assert(forall|a: int| 0 <= a < mids.len() ==> self.entries@[a] == mids[a]);
                    lemma_entries_view_push(mids, gpair);
                    assert(final(self).store() =~= old(self).store().insert(
                        c,
                        NodeView::Dir { files: oldfiles.remove(name@) },
                    ));
                }
            },
            FsNode::Foreign => {
                proof {
                    assert(false);
                }
            },
        }
    }

    /// Whether the existing directory `c` holds no files at all.
    pub fn dir_is_empty(&self, c: char) -> (b: bool)
        requires
            self.wf(),
            self.store().contains_key(c),
            self.store()[c] is Dir,
        ensures
            b == (self.store()[c]->files.dom() == Set::<Seq<char>>::empty()),
    {
        proof {
            lemma_entries_view_contains(self.entries@, c);
        }
        let i = self.find_entry(c).unwrap();
        proof {
            lemma_entries_view_index(self.entries@, i as int);
        }
        match &self.entries[i].1 {
            FsNode::Dir { files } => {
                proof {
                    if files@.len() == 0 {
                        assert(files_view(files@).dom() =~= Set::<Seq<char>>::empty());
                    } else {
                        lemma_files_view_contains(files@, files@.last().name@);
                        assert(files@[files@.len() - 1].name@ == files@.last().name@);
                        assert(files_view(files@).dom().contains(files@.last().name@));
                        assert(files_view(files@).dom() != Set::<Seq<char>>::empty());
                    }
                }
                files.len() == 0
            },
            FsNode::Foreign => {
                proof {
                    assert(false);
                }
                false
            },
        }
    }

    /// Remove the existing directory `c` and everything in it.
    pub fn remove_dir(&mut self, c: char)
        requires
            old(self).wf(),
            old(self).store().contains_key(c),
            old(self).store()[c] is Dir,
        ensures
            final(self).wf(),
            final(self).store() == old(self).store().remove(c),
    {
        proof {
            lemma_entries_view_contains(self.entries@, c);
        }
        let i = self.find_entry(c).unwrap();
        proof {
            lemma_entries_view_remove(self.entries@, i as int);
        }
        self.entries.remove(i);
    }

    /// Delete every hidden file of the existing directory `c`, keeping the
    /// visible ones.
    pub fn remove_hidden(&mut self, c: char)
        requires
            old(self).wf(),
            old(self).store().contains_key(c),
            old(self).store()[c] is Dir,
        ensures
            final(self).wf(),
            final(self).store() == old(self).store().insert(
                c,
                NodeView::Dir { files: visible_files(old(self).store()[c]->files) },
            ),
    {
        proof {
            lemma_entries_view_contains(self.entries@, c);
        }
        let i = self.find_entry(c).unwrap();
        proof {
            lemma_entries_view_index(self.entries@, i as int);
            lemma_entries_view_remove(self.entries@, i as int);
        }
        let ghost oldfiles = old(self).store()[c]->files;
        let entry = self.entries.remove(i);
        match entry.1 {
            FsNode::Dir { files } => {
                let ghost all = files@;
                let mut kept: Vec<FsFile> = Vec::new();
                let mut idx: usize = 0;
                while idx < files.len()
                    invariant
                        idx <= all.len(),
                        files@ == all,
                        files_wf(all),
                        files_wf(kept@),
                        files_view(kept@) == visible_files(files_view(all.subrange(0, idx as int))),
                    decreases all.len() - idx,
                {
                    let ghost prefix = all.subrange(0, idx as int);
                    proof {
                        assert(all.subrange(0, idx + 1 as int) =~= prefix.push(all[idx as int]));
                        lemma_files_view_push(prefix, all[idx as int]);
                        lemma_files_view_contains(prefix, all[idx as int].name@);
                        assert(forall|a: int| 0 <= a < prefix.len() ==> prefix[a] == all[a]);
                        assert(!files_view(prefix).dom().contains(all[idx as int].name@));
                        lemma_files_view_contains(kept@, all[idx as int].name@);
                    }
                    if !name_is_hidden(&files[idx].name) {
                        let f = clone_file(&files[idx]);
                        proof {
                            lemma_files_view_push(kept@, f);
                            assert(forall|a: int| 0 <= a < kept@.len()
                                ==> #[trigger] kept@.push(f)[a] == kept@[a]);
                        }
                        kept.push(f);
                        proof {
                            assert(files_view(kept@) =~= visible_files(
                                files_view(all.subrange(0, idx + 1 as int)),
                            ));
                        }
                    } else {
                        proof {
                            assert(files_view(kept@) =~= visible_files(
                                files_view(all.subrange(0, idx + 1 as int)),
                            ));
                        }
                    }
                    idx += 1;
                }
                proof {
                    assert(all.subrange(0, all.len() as int) =~= all);
                }
                let node = FsNode::Dir { files: kept };
                let ghost gpair = (c, node);
                let ghost mids = self.entries@;
                self.entries.push((c, node));
                proof {
                    assert(forall|a: int| 0 <= a < mids.len() ==> self.entries@[a] == mids[a]);
                    lemma_entries_view_push(mids, gpair);
                    assert(final(self).store() =~= old(self).store().insert(
                        c,
                        NodeView::Dir { files: visible_files(oldfiles) },
                    ));
                }
            },
            FsNode::Foreign => {
                proof {
                    assert(false);
                }
            },
        }
    }
}

} // verus!
