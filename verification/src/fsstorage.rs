//! The generic storage engine: a handle over a modeled root directory that
//! files each record in a shard directory named by one character of the
//! record's encoded identifier, with an atomic two-step put, lazy or eager
//! deletion, and a garbage collection pass over the whole alphabet.

use core::marker::PhantomData;

use vstd::map::*;
use vstd::prelude::*;

use crate::encoding::{alphabet, base_code, encoded_of, encoding_symbols, multibase_encode, supported, Base};
use crate::error::{Error, FsStorageError};
use crate::fstree::{hidden_name, visible_files, FsTree, NodeView};
use crate::ids::RecordId;

verus! {

/// The canonical encoded form of an identifier under a base encoding: the
/// string the record is named by on disk.
pub open spec fn record_key(base: Base, id: Seq<u8>) -> Seq<char> {
    encoded_of(base_code(base), id)
}

/// The character that names the shard directory of an encoded identifier:
/// counting from the end, the one at position floor(length / 2).
pub open spec fn shard_of(key: Seq<char>) -> char
    recommends
        key.len() > 0,
{
    key[key.len() - 1 - key.len() / 2]
}

/// The hidden name a record file takes when it is soft-deleted.
pub open spec fn tombstone_of(key: Seq<char>) -> Seq<char> {
    seq!['.'] + key
}

/// The hidden name of the in-flight temporary file a put writes before it
/// commits.
pub open spec fn temp_of(key: Seq<char>) -> Seq<char> {
    seq!['.', 't', 'm', 'p', '.'] + key
}

/// The path of the shard directory named `c` under the root.
pub open spec fn subfolder_path(root: Seq<char>, c: char) -> Seq<char> {
    root + seq!['/'] + seq![c]
}

/// The path of the entry `name` inside the shard directory named `c`.
pub open spec fn entry_path(root: Seq<char>, c: char, name: Seq<char>) -> Seq<char> {
    subfolder_path(root, c) + seq!['/'] + name
}

/// The files of the shard directory named `c`, or the empty map where no
/// such directory exists.
pub open spec fn dir_files(m: Map<char, NodeView>, c: char) -> Map<Seq<char>, Seq<u8>> {
    if m.dom().contains(c) && m[c] is Dir {
        m[c]->files
    } else {
        Map::empty()
    }
}

/// Whether something other than a directory occupies the shard path of the
/// key.
pub open spec fn shard_foreign(m: Map<char, NodeView>, key: Seq<char>) -> bool {
    m.dom().contains(shard_of(key)) && m[shard_of(key)] is Foreign
}

/// Whether the shard directory of the key exists.
pub open spec fn shard_dir_exists(m: Map<char, NodeView>, key: Seq<char>) -> bool {
    m.dom().contains(shard_of(key)) && m[shard_of(key)] is Dir
}

/// The committed bytes filed under the key, if its shard directory exists
/// and holds its canonical file.
pub open spec fn lookup(m: Map<char, NodeView>, key: Seq<char>) -> Option<Seq<u8>> {
    if shard_dir_exists(m, key) && dir_files(m, shard_of(key)).dom().contains(key) {
        Some(dir_files(m, shard_of(key))[key])
    } else {
        None
    }
}

/// The root after a put of `data` under `key` commits: the shard directory
/// exists, the temporary file is gone, and the canonical file holds `data`.
pub open spec fn put_effect(m: Map<char, NodeView>, key: Seq<char>, data: Seq<u8>) -> Map<
    char,
    NodeView,
> {
    m.insert(
        shard_of(key),
        NodeView::Dir {
            files: dir_files(m, shard_of(key)).remove(temp_of(key)).insert(key, data),
        },
    )
}

/// The root after a put of `data` under `key` aborts in its pre-commit
/// callback: the temporary file is left behind for a later garbage
/// collection, and the canonical file is untouched.
pub open spec fn put_abort_effect(m: Map<char, NodeView>, key: Seq<char>, data: Seq<u8>) -> Map<
    char,
    NodeView,
> {
    m.insert(
        shard_of(key),
        NodeView::Dir { files: dir_files(m, shard_of(key)).insert(temp_of(key), data) },
    )
}

/// The root after a lazy removal of the record under `key`: its canonical
/// file is renamed to its tombstone.
pub open spec fn rm_lazy_effect(m: Map<char, NodeView>, key: Seq<char>) -> Map<char, NodeView>
    recommends
        lookup(m, key) is Some,
{
    m.insert(
        shard_of(key),
        NodeView::Dir {
            files: dir_files(m, shard_of(key)).remove(key).insert(
                tombstone_of(key),
                dir_files(m, shard_of(key))[key],
            ),
        },
    )
}

/// The root after an eager removal of the record under `key`: its canonical
/// file is unlinked, and the shard directory goes too if that left it empty.
pub open spec fn rm_eager_effect(m: Map<char, NodeView>, key: Seq<char>) -> Map<char, NodeView>
    recommends
        lookup(m, key) is Some,
{
    let remaining = dir_files(m, shard_of(key)).remove(key);
    if remaining.dom() == Set::<Seq<char>>::empty() {
        m.remove(shard_of(key))
    } else {
        m.insert(shard_of(key), NodeView::Dir { files: remaining })
    }
}

/// The root after a garbage collection pass over the shard directories named
/// by `alpha`: inside each, every hidden file is deleted, and the directory
/// itself goes if nothing visible remains. Entries outside `alpha`, and
/// foreign entries, stay as they were.
pub open spec fn gc_effect(m: Map<char, NodeView>, alpha: Set<char>) -> Map<char, NodeView> {
    Map::new(
        |c: char|
            m.dom().contains(c) && !(alpha.contains(c) && m[c] is Dir && visible_files(
                m[c]->files,
            ).dom() == Set::<Seq<char>>::empty()),
        |c: char|
            if alpha.contains(c) && m[c] is Dir {
                (NodeView::Dir { files: visible_files(m[c]->files) })
            } else {
                m[c]
            },
    )
}

/// The root after every shard directory named by `alpha` has been created
/// where the name was still free.
pub open spec fn ensure_shards(m: Map<char, NodeView>, alpha: Set<char>) -> Map<char, NodeView> {
    Map::new(
        |c: char| m.dom().contains(c) || alpha.contains(c),
        |c: char|
            if m.dom().contains(c) {
                m[c]
            } else {
                (NodeView::Dir { files: Map::empty() })
            },
    )
}

proof fn lemma_push_contains(s: Seq<char>, e: char)
    ensures
        forall|x: char| #[trigger] s.push(e).contains(x) <==> (s.contains(x) || x == e),
{
    assert forall|x: char| #[trigger] s.push(e).contains(x) implies (s.contains(x) || x == e) by {
        let j = choose|j: int| 0 <= j < s.push(e).len() && s.push(e)[j] == x;
        if j < s.len() {
            assert(s[j] == x);
        }
    };
    assert forall|x: char| (s.contains(x) || x == e) implies #[trigger] s.push(e).contains(x) by {
        if s.contains(x) {
            let j = choose|j: int| 0 <= j < s.len() && s[j] == x;
            assert(s.push(e)[j] == x);
        } else {
            assert(s.push(e)[s.len() as int] == x);
        }
    };
}

/// What `exists` returns: whether the canonical file of the record is
/// present, or the error naming what stood in the way.
pub open spec fn exists_post(
    m: Map<char, NodeView>,
    base: Base,
    root: Seq<char>,
    id: Seq<u8>,
    r: Result<bool, Error>,
) -> bool {
    let key = record_key(base, id);
    match r {
        Ok(b) => supported(base) && !shard_foreign(m, key) && b == (lookup(m, key) is Some),
        Err(e) => {
            ||| (!supported(base) && e == Error::FsStorage(
                FsStorageError::UnsupportedBaseEncoding(base),
            ))
            ||| (supported(base) && shard_foreign(m, key) && (e matches Error::FsStorage(
                FsStorageError::NotDir(p),
            ) && p@ == subfolder_path(root, shard_of(key))))
        },
    }
}

/// The exact failure a read of the record meets: an unsupported base, a
/// foreign entry at the shard path, a missing shard directory, or a missing
/// record file inside an existing shard directory.
pub open spec fn read_err_spec(
    m: Map<char, NodeView>,
    base: Base,
    root: Seq<char>,
    id: Seq<u8>,
    e: Error,
) -> bool {
    let key = record_key(base, id);
    let c = shard_of(key);
    ||| (!supported(base) && e == Error::FsStorage(FsStorageError::UnsupportedBaseEncoding(base)))
    ||| (supported(base) && shard_foreign(m, key) && (e matches Error::FsStorage(
        FsStorageError::NotDir(p),
    ) && p@ == subfolder_path(root, c)))
    ||| (supported(base) && !m.dom().contains(c) && (e matches Error::FsStorage(
        FsStorageError::NoSuchData(p),
    ) && p@ == key))
    ||| (supported(base) && shard_dir_exists(m, key) && !dir_files(m, c).dom().contains(key) && (
    e matches Error::Io(p) && p@ == entry_path(root, c, key)))
}

/// What `get` returns: the committed bytes of the record, or the exact
/// failure of [`read_err_spec`].
pub open spec fn get_post(
    m: Map<char, NodeView>,
    base: Base,
    root: Seq<char>,
    id: Seq<u8>,
    r: Result<Vec<u8>, Error>,
) -> bool {
    let key = record_key(base, id);
    match r {
        Ok(v) => supported(base) && lookup(m, key) == Some(v@),
        Err(e) => read_err_spec(m, base, root, id, e),
    }
}

/// Append one character to a string.
///
/// Relies on `String::push`: it appends exactly the given character.
#[verifier::external_body]
fn push_char(s: &mut String, c: char)
    ensures
        final(s)@ == old(s)@.push(c),
{
    s.push(c);
}

fn tombstone_name(eid: &String) -> (r: String)
    ensures
        r@ == tombstone_of(eid@),
{
    let mut s = String::from_str(".");
    proof {
        reveal_strlit(".");
        assert(s@ =~= seq!['.']);
    }
    s.append(eid.as_str());
    proof {
        assert(s@ =~= tombstone_of(eid@));
    }
    s
}

fn temp_name(eid: &String) -> (r: String)
    ensures
        r@ == temp_of(eid@),
{
    let mut s = String::from_str(".tmp.");
    proof {
        reveal_strlit(".tmp.");
        assert(s@ =~= seq!['.', 't', 'm', 'p', '.']);
    }
    s.append(eid.as_str());
    proof {
        assert(s@ =~= temp_of(eid@));
    }
    s
}

fn build_subfolder_path(root: &String, c: char) -> (r: String)
    ensures
        r@ == subfolder_path(root@, c),
{
    let mut s = root.clone();
    s.append("/");
    proof {
        reveal_strlit("/");
    }
    push_char(&mut s, c);
    proof {
        assert(s@ =~= subfolder_path(root@, c));
    }
    s
}

fn build_entry_path(subfolder: &String, name: &String) -> (r: String)
    ensures
        r@ == subfolder@ + seq!['/'] + name@,
{
    let mut s = subfolder.clone();
    s.append("/");
    proof {
        reveal_strlit("/");
    }
    s.append(name.as_str());
    proof {
        assert(s@ =~= subfolder@ + seq!['/'] + name@);
    }
    s
}

/// Every path a record can occupy under a handle: its encoded identifier,
/// its shard, and the canonical and tombstone locations.
pub struct RecordPaths {
    /// the canonical encoded identifier; also the record's file name
    pub encoded: String,
    /// the character naming the shard directory
    pub shard: char,
    /// the hidden file name of the record's tombstone
    pub tombstone_name: String,
    /// the path of the shard directory under the root
    pub subfolder: String,
    /// the path of the record's canonical file
    pub file: String,
    /// the path of the record's tombstone file
    pub tombstone: String,
}

/// A handle on a storage root: where it is, whether deletion is lazy, and
/// which base encoding identifiers are rendered in, together with the
/// modeled contents of the root.
pub struct FsStorage<T> {
    /// the root directory
    pub root: String,
    /// lazy mode: tombstone deletes, shard directories made on demand
    pub lazy: bool,
    /// the base encoding identifiers are rendered in
    pub base_encoding: Base,
    /// the modeled contents of the root directory
    pub tree: FsTree,
    /// the identifier domain this handle serves
    pub _t: PhantomData<T>,
}

impl<T> FsStorage<T> {
    /// The modeled contents of the root directory.
    pub open spec fn store(&self) -> Map<char, NodeView> {
        self.tree.store()
    }

    /// The handle's root is a well-formed tree: top-level names are unique,
    /// and so are the file names inside each shard directory.
    pub open spec fn wf(&self) -> bool {
        self.tree.wf()
    }
}

impl<T: RecordId> FsStorage<T> {
    /// The base encoding a handle of this identifier type uses when none is
    /// chosen.
    pub fn preferred_encoding() -> (b: Base)
        ensures
            b == T::preferred(),
    {
        T::preferred_encoding()
    }

    /// The base encoding of this handle.
    pub fn encoding(&self) -> (b: Base)
        ensures
            b == self.base_encoding,
    {
        self.base_encoding
    }

    /// The paths of every shard directory the base encoding implies, in
    /// alphabet order, or `UnsupportedBaseEncoding` where the base has no
    /// alphabet. With no base given, the identifier type's preferred one is
    /// used.
    pub fn subfolders(base: Option<Base>, root: &String) -> (r: Result<Vec<String>, Error>)
        ensures
            ({
                let b = if base is Some {
                    base->0
                } else {
                    T::preferred()
                };
                match r {
                    Ok(v) => supported(b) && v@.len() == alphabet(b).len() && (forall|i: int|
                        0 <= i < v@.len() ==> v@[i]@ == subfolder_path(root@, alphabet(b)[i])),
                    Err(e) => !supported(b) && e == Error::FsStorage(
                        FsStorageError::UnsupportedBaseEncoding(b),
                    ),
                }
            }),
    {
        let b = match base {
            Some(b) => b,
            None => T::preferred_encoding(),
        };
        let symbols = match encoding_symbols(&b) {
            Ok(s) => s,
            Err(e) => {
                return Err(e);
            },
        };
        let n = symbols.as_str().unicode_len();
        let mut out: Vec<String> = Vec::new();
        let mut i: usize = 0;
        while i < n
            invariant
                n == alphabet(b).len(),
                symbols@ == alphabet(b),
                i <= n,
                out@.len() == i,
                forall|j: int| 0 <= j < i ==> out@[j]@ == subfolder_path(root@, alphabet(b)[j]),
            decreases n - i,
        {
            let c = symbols.as_str().get_char(i);
            out.push(build_subfolder_path(root, c));
            i += 1;
        }
        Ok(out)
    }

    /// Derive every path of the record the identifier names: its encoded
    /// form, its shard, and the canonical and tombstone locations. Fails
    /// with `UnsupportedBaseEncoding` where the handle's base has no
    /// alphabet, and with `InvalidId` where the identifier renders to an
    /// empty string, which a multibase rendering never does.
    pub fn get_paths(&self, id: &T) -> (r: Result<RecordPaths, Error>)
        ensures
            match r {
                Ok(p) => ({
                    let key = record_key(self.base_encoding, id.id_bytes());
                    &&& supported(self.base_encoding)
                    &&& key.len() > 0
                    &&& p.encoded@ == key
                    &&& p.shard == shard_of(key)
                    &&& p.tombstone_name@ == tombstone_of(key)
                    &&& p.subfolder@ == subfolder_path(self.root@, shard_of(key))
                    &&& p.file@ == entry_path(self.root@, shard_of(key), key)
                    &&& p.tombstone@ == entry_path(self.root@, shard_of(key), tombstone_of(key))
                }),
                Err(e) => !supported(self.base_encoding) && e == Error::FsStorage(
                    FsStorageError::UnsupportedBaseEncoding(self.base_encoding),
                ),
            },
    {
        if !self.base_encoding.is_supported() {
            return Err(
                Error::FsStorage(FsStorageError::UnsupportedBaseEncoding(self.base_encoding)),
            );
        }
        let bytes = id.to_bytes();
        let encoded = multibase_encode(&self.base_encoding, &bytes);
        let l = encoded.as_str().unicode_len();
        if l == 0 {
            // a multibase rendering always starts with the base's code
            // character, so this guard never fires
            return Err(Error::FsStorage(FsStorageError::InvalidId(encoded)));
        }
        let shard = encoded.as_str().get_char(l - 1 - l / 2);
        let tombstone_n = tombstone_name(&encoded);
        let subfolder = build_subfolder_path(&self.root, shard);
        let file = build_entry_path(&subfolder, &encoded);
        let tombstone = build_entry_path(&subfolder, &tombstone_n);
        Ok(
            RecordPaths {
                encoded,
                shard,
                tombstone_name: tombstone_n,
                subfolder,
                file,
                tombstone,
            },
        )
    }

    /// Whether the canonical file of the record exists. Tombstones are
    /// never consulted.
    pub fn contains_record(&self, id: &T) -> (r: Result<bool, Error>)
        requires
            self.wf(),
        ensures
            exists_post(self.store(), self.base_encoding, self.root@, id.id_bytes(), r),
    {
        let p = match self.get_paths(id) {
            Ok(p) => p,
            Err(e) => {
                return Err(e);
            },
        };
        if self.tree.foreign_exists(p.shard) {
            return Err(Error::FsStorage(FsStorageError::NotDir(p.subfolder)));
        }
        Ok(self.tree.file_exists(p.shard, &p.encoded))
    }

    /// The committed bytes of the record: fails `NoSuchData` where the shard
    /// directory is absent, `NotDir` where something else occupies the shard
    /// path, and an input/output error where the shard directory exists but
    /// the record's file does not. Tombstones are never read.
    pub fn get_record(&self, id: &T) -> (r: Result<Vec<u8>, Error>)
        requires
            self.wf(),
        ensures
            get_post(self.store(), self.base_encoding, self.root@, id.id_bytes(), r),
    {
        let p = match self.get_paths(id) {
            Ok(p) => p,
            Err(e) => {
                return Err(e);
            },
        };
        if self.tree.foreign_exists(p.shard) {
            return Err(Error::FsStorage(FsStorageError::NotDir(p.subfolder)));
        }
        if !self.tree.dir_exists(p.shard) {
            return Err(Error::FsStorage(FsStorageError::NoSuchData(p.encoded)));
        }
        match self.tree.read_file(p.shard, &p.encoded) {
            Some(v) => Ok(v),
            None => Err(Error::Io(p.file)),
        }
    }

    /// File `data` under the identifier: write a hidden temporary file in
    /// the record's shard directory (created on demand), run the caller's
    /// `pre_commit` callback, and only then rename the temporary file onto
    /// the canonical name — the single step that makes the record visible.
    /// Where `pre_commit` fails, its error is returned, the canonical file
    /// is never touched, and the temporary file is left for `gc`.
    pub fn put_record<F: Fn(&T) -> Result<(), Error>>(
        &mut self,
        id: &T,
        data: &Vec<u8>,
        pre_commit: F,
    ) -> (r: Result<(), Error>)
        requires
            old(self).wf(),
            call_requires(pre_commit, (id,)),
        ensures
            final(self).wf(),
            final(self).root == old(self).root,
            final(self).lazy == old(self).lazy,
            final(self).base_encoding == old(self).base_encoding,
            ({
                let m = old(self).store();
                let base = old(self).base_encoding;
                let key = record_key(base, id.id_bytes());
                match r {
                    Ok(_) => {
                        &&& supported(base)
                        &&& !shard_foreign(m, key)
                        &&& call_ensures(pre_commit, (id,), Ok(()))
                        &&& final(self).store() == put_effect(m, key, data@)
                    },
                    Err(e) => {
                        ||| (!supported(base) && e == Error::FsStorage(
                            FsStorageError::UnsupportedBaseEncoding(base),
                        ) && final(self).store() == m)
                        ||| (supported(base) && shard_foreign(m, key) && (e matches Error::FsStorage(
                            FsStorageError::NotDir(p),
                        ) && p@ == subfolder_path(old(self).root@, shard_of(key)))
                            && final(self).store() == m)
                        ||| (supported(base) && !shard_foreign(m, key) && call_ensures(
                            pre_commit,
                            (id,),
                            Err(e),
                        ) && final(self).store() == put_abort_effect(m, key, data@))
                    },
                }
            }),
    {
        let ghost m = old(self).store();
        let p = match self.get_paths(id) {
            Ok(p) => p,
            Err(e) => {
                return Err(e);
            },
        };
        let ghost key = p.encoded@;
        if self.tree.foreign_exists(p.shard) {
            return Err(Error::FsStorage(FsStorageError::NotDir(p.subfolder)));
        }
        if !self.tree.dir_exists(p.shard) {
            self.tree.create_dir(p.shard);
        }
        let tmp = temp_name(&p.encoded);
        self.tree.write_file(p.shard, &tmp, data);
        proof {
            assert(self.store() =~= put_abort_effect(m, key, data@)) by {
                assert(dir_files(m, p.shard).insert(tmp@, data@) =~= self.store()[p.shard]->files);
            }
        }
        match pre_commit(id) {
            Ok(u) => {
                proof {
                    assert(u == ());
                }
            },
            Err(e) => {
                return Err(e);
            },
        }
        let v = self.tree.read_file(p.shard, &tmp).unwrap();
        self.tree.remove_file(p.shard, &tmp);
        self.tree.write_file(p.shard, &p.encoded, &v);
        proof {
            assert(self.store() =~= put_effect(m, key, data@)) by {
                assert(dir_files(m, p.shard).remove(tmp@).insert(key, data@) =~= self.store()[p.shard]->files);
            }
        }
        Ok(())
    }

    /// File `data` under the identifier, overwriting any previous record
    /// through the same temporary-file-and-rename step, and report the
    /// previously committed bytes if there were any.
    pub fn put_record_replacing(&mut self, id: &T, data: &Vec<u8>) -> (r: Result<
        Option<Vec<u8>>,
        Error,
    >)
        requires
            old(self).wf(),
        ensures
            final(self).wf(),
            final(self).root == old(self).root,
            final(self).lazy == old(self).lazy,
            final(self).base_encoding == old(self).base_encoding,
            ({
                let m = old(self).store();
                let base = old(self).base_encoding;
                let key = record_key(base, id.id_bytes());
                match r {
                    Ok(prev) => {
                        &&& supported(base)
                        &&& !shard_foreign(m, key)
                        &&& (match prev {
                            Some(v) => lookup(m, key) == Some(v@),
                            None => lookup(m, key) is None,
                        })
                        &&& final(self).store() == put_effect(m, key, data@)
                    },
                    Err(e) => {
                        &&& final(self).store() == m
                        &&& {
                            ||| (!supported(base) && e == Error::FsStorage(
                                FsStorageError::UnsupportedBaseEncoding(base),
                            ))
                            ||| (supported(base) && shard_foreign(m, key) && (e matches Error::FsStorage(
                                FsStorageError::NotDir(p),
                            ) && p@ == subfolder_path(old(self).root@, shard_of(key))))
                        }
                    },
                }
            }),
    {
        let ghost m = old(self).store();
        let p = match self.get_paths(id) {
            Ok(p) => p,
            Err(e) => {
                return Err(e);
            },
        };
        let ghost key = p.encoded@;
        if self.tree.foreign_exists(p.shard) {
            return Err(Error::FsStorage(FsStorageError::NotDir(p.subfolder)));
        }
        if !self.tree.dir_exists(p.shard) {
            self.tree.create_dir(p.shard);
        }
        let prev = self.tree.read_file(p.shard, &p.encoded);
        let tmp = temp_name(&p.encoded);
        self.tree.write_file(p.shard, &tmp, data);
        let v = self.tree.read_file(p.shard, &tmp).unwrap();
        self.tree.remove_file(p.shard, &tmp);
        self.tree.write_file(p.shard, &p.encoded, &v);
        proof {
            assert(self.store() =~= put_effect(m, key, data@)) by {
                assert(dir_files(m, p.shard).remove(tmp@).insert(key, data@) =~= self.store()[p.shard]->files);
            }
        }
        Ok(prev)
    }

    /// Remove the record and return its bytes: a read-before-delete. Under
    /// lazy mode the canonical file is renamed to its hidden tombstone,
    /// reversible until `gc`; otherwise it is unlinked, and the shard
    /// directory is removed too once that left it empty.
    pub fn remove_record(&mut self, id: &T) -> (r: Result<Vec<u8>, Error>)
        requires
            old(self).wf(),
        ensures
            final(self).wf(),
            final(self).root == old(self).root,
            final(self).lazy == old(self).lazy,
            final(self).base_encoding == old(self).base_encoding,
            ({
                let m = old(self).store();
                let base = old(self).base_encoding;
                let key = record_key(base, id.id_bytes());
                match r {
                    Ok(v) => {
                        &&& supported(base)
                        &&& lookup(m, key) == Some(v@)
                        &&& final(self).store() == (if old(self).lazy {
                            rm_lazy_effect(m, key)
                        } else {
                            rm_eager_effect(m, key)
                        })
                    },
                    Err(e) => read_err_spec(m, base, old(self).root@, id.id_bytes(), e)
                        && final(self).store() == m,
                }
            }),
    {
        let ghost m = old(self).store();
        let v = match self.get_record(id) {
            Ok(v) => v,
            Err(e) => {
                return Err(e);
            },
        };
        let p = match self.get_paths(id) {
            Ok(p) => p,
            Err(e) => {
                proof {
                    assert(false);
                }
                return Err(e);
            },
        };
        let ghost key = p.encoded@;
        if self.lazy {
            self.tree.remove_file(p.shard, &p.encoded);
            self.tree.write_file(p.shard, &p.tombstone_name, &v);
            proof {
                assert(self.store() =~= rm_lazy_effect(m, key)) by {
                    assert(dir_files(m, p.shard).remove(key).insert(p.tombstone_name@, v@)
                        =~= self.store()[p.shard]->files);
                }
            }
        } else {
            self.tree.remove_file(p.shard, &p.encoded);
            if self.tree.dir_is_empty(p.shard) {
                self.tree.remove_dir(p.shard);
                proof {
                    assert(self.store() =~= rm_eager_effect(m, key));
                }
            } else {
                proof {
                    assert(self.store() =~= rm_eager_effect(m, key));
                }
            }
        }
        Ok(v)
    }

    /// Garbage-collect the store: walk every shard directory the alphabet
    /// names, whether or not it exists, delete every hidden file inside the
    /// existing ones — tombstones from lazy removals and temporary files
    /// abandoned by interrupted puts alike — and remove each directory that
    /// is left empty. Safe to run repeatedly; not safe to run concurrently
    /// with an in-flight put, whose hidden temporary file it would reclaim.
    pub fn gc(&mut self) -> (r: Result<(), Error>)
        requires
            old(self).wf(),
        ensures
            final(self).wf(),
            final(self).root == old(self).root,
            final(self).lazy == old(self).lazy,
            final(self).base_encoding == old(self).base_encoding,
            match r {
                Ok(_) => supported(old(self).base_encoding) && final(self).store() == gc_effect(
                    old(self).store(),
                    alphabet(old(self).base_encoding).to_set(),
                ),
                Err(e) => !supported(old(self).base_encoding) && e == Error::FsStorage(
                    FsStorageError::UnsupportedBaseEncoding(old(self).base_encoding),
                ) && final(self).store() == old(self).store(),
            },
    {
        let symbols = match encoding_symbols(&self.base_encoding) {
            Ok(s) => s,
            Err(e) => {
                return Err(e);
            },
        };
        let ghost m0 = old(self).store();
        let ghost a = alphabet(old(self).base_encoding);
        let n = symbols.as_str().unicode_len();
        let mut i: usize = 0;
        while i < n
            invariant
                self.wf(),
                self.root == old(self).root,
                self.lazy == old(self).lazy,
                self.base_encoding == old(self).base_encoding,
                m0 == old(self).store(),
                a == alphabet(old(self).base_encoding),
                symbols@ == a,
                n == a.len(),
                i <= n,
                forall|c: char|
                    a.subrange(0, i as int).contains(c) ==> #[trigger] gc_done_at(
                        m0,
                        self.store(),
                        c,
                    ),
                forall|c: char|
                    !a.subrange(0, i as int).contains(c) ==> #[trigger] same_entry(
                        m0,
                        self.store(),
                        c,
                    ),
            decreases n - i,
        {
            let ghost prefix = a.subrange(0, i as int);
            let ghost before = self.store();
            let c = symbols.as_str().get_char(i);
            proof {
                if prefix.contains(c) {
                    assert(gc_done_at(m0, before, c));
                } else {
                    assert(same_entry(m0, before, c));
                }
            }
            if self.tree.dir_exists(c) {
                self.tree.remove_hidden(c);
                proof {
                    if m0.dom().contains(c) && m0[c] is Dir {
                        assert(visible_files(visible_files(m0[c]->files)) =~= visible_files(
                            m0[c]->files,
                        ));
                    }
                }
                if self.tree.dir_is_empty(c) {
                    self.tree.remove_dir(c);
                }
            }
            i += 1;
            proof {
                lemma_push_contains(prefix, c);
                assert(a.subrange(0, i as int) =~= prefix.push(c));
                assert(gc_done_at(m0, self.store(), c));
                assert forall|x: char| a.subrange(0, i as int).contains(x) implies #[trigger]
                    gc_done_at(m0, self.store(), x) by {
                    if x != c {
                        assert(prefix.contains(x));
                        assert(gc_done_at(m0, before, x));
                    }
                };
                assert forall|x: char| !a.subrange(0, i as int).contains(x) implies #[trigger]
                    same_entry(m0, self.store(), x) by {
                    assert(!prefix.contains(x));
                    assert(same_entry(m0, before, x));
                };
            }
        }
        proof {
            let ghost aset = a.to_set();
            assert(a.subrange(0, i as int) =~= a);
            assert_maps_equal!(self.store(), gc_effect(m0, aset), c => {
                assert(a.subrange(0, i as int).contains(c) == a.contains(c));
                if a.contains(c) {
                    assert(gc_done_at(m0, self.store(), c));
                } else {
                    assert(same_entry(m0, self.store(), c));
                }
            });
        }
        Ok(())
    }
}

/// Whether the entry named `c` is the same in `cur` as in `m`.
pub open spec fn same_entry(m: Map<char, NodeView>, cur: Map<char, NodeView>, c: char) -> bool {
    &&& cur.dom().contains(c) == m.dom().contains(c)
    &&& (m.dom().contains(c) ==> cur[c] == m[c])
}

/// How far a garbage collection pass has carried the entry named `c`: the
/// final state it reaches starting from `m`, once `c` has been processed.
pub open spec fn gc_done_at(m: Map<char, NodeView>, cur: Map<char, NodeView>, c: char) -> bool {
    if m.dom().contains(c) && m[c] is Dir {
        if visible_files(m[c]->files).dom() == Set::<Seq<char>>::empty() {
            !cur.dom().contains(c)
        } else {
            cur.dom().contains(c) && cur[c] == (NodeView::Dir {
                files: visible_files(m[c]->files),
            })
        }
    } else {
        cur.dom().contains(c) == m.dom().contains(c) && (m.dom().contains(c) ==> cur[c] == m[c])
    }
}

/// A configuration from which a storage handle is built: the root, the
/// laziness, and an optional base encoding, validated by one fallible build
/// call.
pub struct Builder<T> {
    /// the root directory
    pub root: String,
    /// lazy mode: tombstone deletes, shard directories made on demand
    pub lazy: bool,
    /// the base encoding to render identifiers in; the identifier type's
    /// preferred one where absent
    pub base_encoding: Option<Base>,
    /// the identifier domain the handle will serve
    pub _t: PhantomData<T>,
}

impl<T: RecordId> Builder<T> {
    /// The base encoding the built handle will use.
    pub open spec fn chosen_base(&self) -> Base {
        match self.base_encoding {
            Some(b) => b,
            None => T::preferred(),
        }
    }

    /// A builder rooted at the given path; it defaults to lazy.
    pub fn new(root: &str) -> (r: Builder<T>)
        ensures
            r.root@ == root@,
            r.lazy == true,
            r.base_encoding is None,
    {
        Builder { root: String::from_str(root), lazy: true, base_encoding: None, _t: PhantomData }
    }

    /// Choose eager mode: deletes unlink at once, and the build pre-creates
    /// every shard directory.
    pub fn not_lazy(self) -> (r: Builder<T>)
        ensures
            r.root == self.root,
            r.lazy == false,
            r.base_encoding == self.base_encoding,
    {
        Builder { lazy: false, ..self }
    }

    /// Choose the base encoding identifiers are rendered in.
    pub fn with_base_encoding(self, base: Base) -> (r: Builder<T>)
        ensures
            r.root == self.root,
            r.lazy == self.lazy,
            r.base_encoding == Some(base),
    {
        Builder { base_encoding: Some(base), ..self }
    }

    /// Build a handle over an empty root directory. Unless lazy, every
    /// shard directory of the alphabet is created eagerly.
    pub fn try_build(&self) -> (r: Result<FsStorage<T>, Error>)
        ensures
            match r {
                Ok(s) => {
                    &&& s.wf()
                    &&& s.root == self.root
                    &&& s.lazy == self.lazy
                    &&& s.base_encoding == self.chosen_base()
                    &&& (self.lazy ==> s.store() == Map::<char, NodeView>::empty())
                    &&& (!self.lazy ==> supported(self.chosen_base()) && s.store() == ensure_shards(
                        Map::empty(),
                        alphabet(self.chosen_base()).to_set(),
                    ))
                },
                Err(e) => !self.lazy && !supported(self.chosen_base()) && e == Error::FsStorage(
                    FsStorageError::UnsupportedBaseEncoding(self.chosen_base()),
                ),
            },
    {
        self.try_build_in(FsTree::new())
    }

    /// Build a handle over a root directory that already holds the given
    /// contents. Unless lazy, every shard directory of the alphabet that
    /// does not exist yet is created; a name that any entry already
    /// occupies is left as it is.
    pub fn try_build_in(&self, tree: FsTree) -> (r: Result<FsStorage<T>, Error>)
        requires
            tree.wf(),
        ensures
            match r {
                Ok(s) => {
                    &&& s.wf()
                    &&& s.root == self.root
                    &&& s.lazy == self.lazy
                    &&& s.base_encoding == self.chosen_base()
                    &&& (self.lazy ==> s.store() == tree.store())
                    &&& (!self.lazy ==> supported(self.chosen_base()) && s.store() == ensure_shards(
                        tree.store(),
                        alphabet(self.chosen_base()).to_set(),
                    ))
                },
                Err(e) => !self.lazy && !supported(self.chosen_base()) && e == Error::FsStorage(
                    FsStorageError::UnsupportedBaseEncoding(self.chosen_base()),
                ),
            },
    {
        let base = match self.base_encoding {
            Some(b) => b,
            None => T::preferred_encoding(),
        };
        let mut tree = tree;
        let ghost m0 = tree.store();
        if !self.lazy {
            let symbols = match encoding_symbols(&base) {
                Ok(s) => s,
                Err(e) => {
                    return Err(e);
                },
            };
            let ghost a = alphabet(base);
            let n = symbols.as_str().unicode_len();
            let mut i: usize = 0;
            while i < n
                invariant
                    tree.wf(),
                    symbols@ == a,
                    n == a.len(),
                    i <= n,
                    forall|c: char|
                        a.subrange(0, i as int).contains(c) ==> #[trigger] tree.store().dom().contains(
                            c,
                        ) && tree.store()[c] == (if m0.dom().contains(c) {
                            m0[c]
                        } else {
                            (NodeView::Dir { files: Map::empty() })
                        }),
                    forall|c: char|
                        !a.subrange(0, i as int).contains(c) ==> #[trigger] tree.store().dom().contains(
                            c,
                        ) == m0.dom().contains(c) && (m0.dom().contains(c) ==> tree.store()[c]
                            == m0[c]),
                decreases n - i,
            {
                let ghost prefix = a.subrange(0, i as int);
                let ghost before = tree.store();
                let c = symbols.as_str().get_char(i);
                proof {
                    if prefix.contains(c) {
                        assert(before.dom().contains(c));
                    } else {
                        assert(before.dom().contains(c) == m0.dom().contains(c));
                        assert(m0.dom().contains(c) ==> before[c] == m0[c]);
                    }
                }
                if !top_entry_exists(&tree, c) {
                    tree.create_dir(c);
                }
                i += 1;
                proof {
                    lemma_push_contains(prefix, c);
                    assert(a.subrange(0, i as int) =~= prefix.push(c));
                    assert forall|x: char| a.subrange(0, i as int).contains(x) implies #[trigger]
                        tree.store().dom().contains(x) && tree.store()[x] == (if m0.dom().contains(
                        x,
                    ) {
                        m0[x]
                    } else {
                        (NodeView::Dir { files: Map::empty() })
                    }) by {
                        if x != c {
                            assert(prefix.contains(x));
                            assert(before.dom().contains(x));
                            assert(before[x] == (if m0.dom().contains(x) {
                                m0[x]
                            } else {
                                (NodeView::Dir { files: Map::empty() })
                            }));
                        }
                    };
                    assert forall|x: char| !a.subrange(0, i as int).contains(x) implies
                        #[trigger] tree.store().dom().contains(x) == m0.dom().contains(x) && (
                    m0.dom().contains(x) ==> tree.store()[x] == m0[x]) by {
                        assert(!prefix.contains(x));
                        assert(before.dom().contains(x) == m0.dom().contains(x));
                        assert(m0.dom().contains(x) ==> before[x] == m0[x]);
                    };
                }
            }
            proof {
                assert(a.subrange(0, i as int) =~= a);
                assert(tree.store() =~= ensure_shards(m0, a.to_set())) by {
                    assert forall|c: char| ensure_shards(m0, a.to_set()).dom().contains(c) implies
                        tree.store().dom().contains(c) && tree.store()[c] == ensure_shards(
                        m0,
                        a.to_set(),
                    )[c] by {
                        assert(a.subrange(0, i as int).contains(c) == a.contains(c));
                        if a.contains(c) {
                            assert(tree.store().dom().contains(c));
                        } else {
                            assert(tree.store().dom().contains(c) == m0.dom().contains(c));
                        }
                    };
                    assert forall|c: char| tree.store().dom().contains(c) implies ensure_shards(
                        m0,
                        a.to_set(),
                    ).dom().contains(c) by {
                        assert(a.subrange(0, i as int).contains(c) == a.contains(c));
                        if !a.contains(c) {
                            assert(tree.store().dom().contains(c) == m0.dom().contains(c));
                        }
                    };
                }
            }
        }
        Ok(
            FsStorage {
                root: self.root.clone(),
                lazy: self.lazy,
                base_encoding: base,
                tree,
                _t: PhantomData,
            },
        )
    }

}

fn top_entry_exists(tree: &FsTree, c: char) -> (b: bool)
    requires
        tree.wf(),
    ensures
        b == tree.store().dom().contains(c),
{
    tree.dir_exists(c) || tree.foreign_exists(c)
}

} // verus!
