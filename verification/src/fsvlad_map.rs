//! Filesystem-backed mapping from verifiable-log addresses to content addresses:
//! the engine instantiated for verifiable-log addresses, exposed through the
//! [`CidMap`] contract.

use vstd::prelude::*;

use crate::cid_map::CidMap;
use crate::encoding::{alphabet, supported, Base};
use crate::error::{Error, FsStorageError};
use crate::fsstorage::{self, ensure_shards, FsStorage};
use crate::fstree::{FsTree, NodeView};
use crate::ids::{Cid, Vlad, RecordId};

verus! {

/// Mapping storage keyed by verifiable-log addresses.
pub type FsVladMap = FsStorage<Vlad>;

/// Builder for an [`FsVladMap`] instance.
pub struct Builder {
    /// the root directory
    pub root: String,
    /// lazy mode: tombstone deletes, shard directories made on demand
    pub lazy: bool,
    /// the base encoding to render identifiers in; z-base-32 where absent
    pub base_encoding: Option<Base>,
}

impl Builder {
    /// The base encoding the built handle will use.
    pub open spec fn chosen_base(&self) -> Base {
        match self.base_encoding {
            Some(b) => b,
            None => Base::Base32Z,
        }
    }

    /// A builder rooted at the given path; it defaults to lazy.
    pub fn new(root: &str) -> (r: Builder)
        ensures
            r.root@ == root@,
            r.lazy == true,
            r.base_encoding is None,
    {
        Builder { root: String::from_str(root), lazy: true, base_encoding: None }
    }

    /// Choose eager mode: deletes unlink at once, and the build pre-creates
    /// every shard directory.
    pub fn not_lazy(self) -> (r: Builder)
        ensures
            r.root == self.root,
            r.lazy == false,
            r.base_encoding == self.base_encoding,
    {
        Builder { lazy: false, ..self }
    }

    /// Choose the base encoding identifiers are rendered in.
    pub fn with_base_encoding(self, base: Base) -> (r: Builder)
        ensures
            r.root == self.root,
            r.lazy == self.lazy,
            r.base_encoding == Some(base),
    {
        Builder { base_encoding: Some(base), ..self }
    }

    /// Build the instance over an empty root.
    pub fn try_build(&self) -> (r: Result<FsVladMap, Error>)
        ensures
            match r {
                Ok(s) => {
                    &&& s.wf()
                    &&& s.root@ == self.root@
                    &&& s.lazy == self.lazy
                    &&& s.base_encoding == self.chosen_base()
                    &&& (self.lazy ==> s.store() == Map::<char, NodeView>::empty())
                    &&& (!self.lazy ==> supported(self.chosen_base()) && s.store() == ensure_shards(
                        Map::empty(),
                        alphabet(self.chosen_base()).to_set(),
                    ))
                },
                Err(e) => !self.lazy && !supported(self.chosen_base()) && e == Error::FsStorage(
                    FsStorageError::UnsupportedBaseEncoding(self.chosen_base()),
                ),
            },
    {
        self.try_build_in(FsTree::new())
    }

    /// Build the instance over a root that already holds the given
    /// contents.
    pub fn try_build_in(&self, tree: FsTree) -> (r: Result<FsVladMap, Error>)
        requires
            tree.wf(),
        ensures
            match r {
                Ok(s) => {
                    &&& s.wf()
                    &&& s.root@ == self.root@
                    &&& s.lazy == self.lazy
                    &&& s.base_encoding == self.chosen_base()
                    &&& (self.lazy ==> s.store() == tree.store())
                    &&& (!self.lazy ==> supported(self.chosen_base()) && s.store() == ensure_shards(
                        tree.store(),
                        alphabet(self.chosen_base()).to_set(),
                    ))
                },
                Err(e) => !self.lazy && !supported(self.chosen_base()) && e == Error::FsStorage(
                    FsStorageError::UnsupportedBaseEncoding(self.chosen_base()),
                ),
            },
    {
        let base = match self.base_encoding {
            Some(b) => b,
            None => Base::Base32Z,
        };
        let mut builder = fsstorage::Builder::<Vlad>::new(
            self.root.as_str(),
        ).with_base_encoding(base);
        if !self.lazy {
            builder = builder.not_lazy();
        }
        builder.try_build_in(tree)
    }
}

impl CidMap<Vlad> for FsStorage<Vlad> {
    open spec fn store_view(&self) -> Map<char, NodeView> {
        self.store()
    }

    open spec fn base_view(&self) -> Base {
        self.base_encoding
    }

    open spec fn lazy_view(&self) -> bool {
        self.lazy
    }

    open spec fn root_view(&self) -> Seq<char> {
        self.root@
    }

    open spec fn inv(&self) -> bool {
        self.wf()
    }

    fn contains(&self, id: &Vlad) -> (r: Result<bool, Error>) {
        self.contains_record(id)
    }

    fn get(&self, id: &Vlad) -> (r: Result<Cid, Error>) {
        match self.get_record(id) {
            Ok(v) => Ok(Cid::new(v)),
            Err(e) => Err(e),
        }
    }

    fn put(&mut self, id: &Vlad, cid: &Cid) -> (r: Result<Option<Cid>, Error>) {
        let data = cid.to_bytes();
        match self.put_record_replacing(id, &data) {
            Ok(prev) => Ok(
                match prev {
                    Some(v) => Some(Cid::new(v)),
                    None => None,
                },
            ),
            Err(e) => Err(e),
        }
    }

    fn rm(&mut self, id: &Vlad) -> (r: Result<Cid, Error>) {
        match self.remove_record(id) {
            Ok(v) => Ok(Cid::new(v)),
            Err(e) => Err(e),
        }
    }
}

} // verus!
