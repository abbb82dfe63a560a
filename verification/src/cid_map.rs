//! The abstract contract of a mapping from identifiers to content
//! addresses.

use vstd::prelude::*;

use crate::encoding::{supported, Base};
use crate::error::{Error, FsStorageError};
use crate::fstree::NodeView;
use crate::fsstorage::{
    exists_post, lookup, put_effect, read_err_spec, record_key, rm_eager_effect, rm_lazy_effect,
    shard_foreign, shard_of, subfolder_path,
};
use crate::ids::{Cid, RecordId};

verus! {

/// A mutable map from an arbitrary identifier domain to content addresses:
/// the caller supplies both the identifier and the address, and a put is an
/// upsert that reports the address it replaced.
pub trait CidMap<ID: RecordId>: Sized {
    /// the modeled contents of the storage root
    spec fn store_view(&self) -> Map<char, NodeView>;

    /// the base encoding identifiers are rendered in
    spec fn base_view(&self) -> Base;

    /// whether removal tombstones instead of unlinking
    spec fn lazy_view(&self) -> bool;

    /// the path of the storage root
    spec fn root_view(&self) -> Seq<char>;

    /// the store is well formed
    spec fn inv(&self) -> bool;

    /// Whether a mapping for the identifier exists. Tombstones are never
    /// consulted.
    fn contains(&self, id: &ID) -> (r: Result<bool, Error>)
        requires
            self.inv(),
        ensures
            exists_post(self.store_view(), self.base_view(), self.root_view(), id.id_bytes(), r),
    ;

    /// The content address the identifier maps to, reconstructed from the
    /// stored payload.
    fn get(&self, id: &ID) -> (r: Result<Cid, Error>)
        requires
            self.inv(),
        ensures
            match r {
                Ok(cid) => supported(self.base_view()) && lookup(
                    self.store_view(),
                    record_key(self.base_view(), id.id_bytes()),
                ) == Some(cid.id_bytes()),
                Err(e) => read_err_spec(
                    self.store_view(),
                    self.base_view(),
                    self.root_view(),
                    id.id_bytes(),
                    e,
                ),
            },
    ;

    /// Map the identifier to the content address, overwriting any previous
    /// mapping through the same staged-write-then-rename step the block
    /// store uses, and report the previous address if one existed.
    fn put(&mut self, id: &ID, cid: &Cid) -> (r: Result<Option<Cid>, Error>)
        requires
            old(self).inv(),
        ensures
            final(self).inv(),
            final(self).base_view() == old(self).base_view(),
            final(self).lazy_view() == old(self).lazy_view(),
            final(self).root_view() == old(self).root_view(),
            match r {
                Ok(prev) => {
                    &&& supported(old(self).base_view())
                    &&& !shard_foreign(
                        old(self).store_view(),
                        record_key(old(self).base_view(), id.id_bytes()),
                    )
                    &&& (match prev {
                        Some(p) => lookup(
                            old(self).store_view(),
                            record_key(old(self).base_view(), id.id_bytes()),
                        ) == Some(p.id_bytes()),
                        None => lookup(
                            old(self).store_view(),
                            record_key(old(self).base_view(), id.id_bytes()),
                        ) is None,
                    })
                    &&& final(self).store_view() == put_effect(
                        old(self).store_view(),
                        record_key(old(self).base_view(), id.id_bytes()),
                        cid.id_bytes(),
                    )
                },
                Err(e) => {
                    &&& final(self).store_view() == old(self).store_view()
                    &&& {
                        ||| (!supported(old(self).base_view()) && e == Error::FsStorage(
                            FsStorageError::UnsupportedBaseEncoding(old(self).base_view()),
                        ))
                        ||| (supported(old(self).base_view()) && shard_foreign(
                            old(self).store_view(),
                            record_key(old(self).base_view(), id.id_bytes()),
                        ) && (e matches Error::FsStorage(FsStorageError::NotDir(p))
                            && p@ == subfolder_path(
                            old(self).root_view(),
                            shard_of(record_key(old(self).base_view(), id.id_bytes())),
                        )))
                    }
                },
            },
    ;

    /// Remove the mapping and return the address it held: a
    /// read-before-delete, failing exactly as `get` does where the mapping
    /// is absent. Under lazy mode the mapping's file becomes its tombstone;
    /// otherwise it is unlinked, and its shard directory goes too once
    /// empty.
    fn rm(&mut self, id: &ID) -> (r: Result<Cid, Error>)
        requires
            old(self).inv(),
        ensures
            final(self).inv(),
            final(self).base_view() == old(self).base_view(),
            final(self).lazy_view() == old(self).lazy_view(),
            final(self).root_view() == old(self).root_view(),
            match r {
                Ok(cid) => {
                    &&& supported(old(self).base_view())
                    &&& lookup(
                        old(self).store_view(),
                        record_key(old(self).base_view(), id.id_bytes()),
                    ) == Some(cid.id_bytes())
                    &&& final(self).store_view() == (if old(self).lazy_view() {
                        rm_lazy_effect(
                            old(self).store_view(),
                            record_key(old(self).base_view(), id.id_bytes()),
                        )
                    } else {
                        rm_eager_effect(
                            old(self).store_view(),
                            record_key(old(self).base_view(), id.id_bytes()),
                        )
                    })
                },
                Err(e) => read_err_spec(
                    old(self).store_view(),
                    old(self).base_view(),
                    old(self).root_view(),
                    id.id_bytes(),
                    e,
                ) && final(self).store_view() == old(self).store_view(),
            },
    ;
}

} // verus!
