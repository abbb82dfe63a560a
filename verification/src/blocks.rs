//! The abstract contract of content-addressed block storage.

use vstd::prelude::*;

use crate::encoding::{supported, Base};
use crate::error::{Error, FsStorageError};
use crate::fstree::NodeView;
use crate::fsstorage::{
    exists_post, get_post, put_abort_effect, put_effect, read_err_spec, record_key,
    rm_eager_effect, rm_lazy_effect, shard_foreign, shard_of, subfolder_path,
};
use crate::ids::{Cid, RecordId};

verus! {

/// Content-addressed byte storage: a block's identifier is a function of
/// its content, computed by a caller-supplied callback — the store itself
/// never hashes.
pub trait Blocks: Sized {
    /// the modeled contents of the storage root
    spec fn store_view(&self) -> Map<char, NodeView>;

    /// the base encoding identifiers are rendered in
    spec fn base_view(&self) -> Base;

    /// whether removal tombstones instead of unlinking
    spec fn lazy_view(&self) -> bool;

    /// the path of the storage root
    spec fn root_view(&self) -> Seq<char>;

    /// the store is well formed
    spec fn inv(&self) -> bool;

    /// Whether the block's canonical file exists. Tombstones are never
    /// consulted.
    fn contains(&self, cid: &Cid) -> (r: Result<bool, Error>)
        requires
            self.inv(),
        ensures
            exists_post(self.store_view(), self.base_view(), self.root_view(), cid.id_bytes(), r),
    ;

    /// The block's committed bytes.
    fn get(&self, cid: &Cid) -> (r: Result<Vec<u8>, Error>)
        requires
            self.inv(),
        ensures
            get_post(self.store_view(), self.base_view(), self.root_view(), cid.id_bytes(), r),
    ;

    /// Store a block. `get_cid` derives the block's identifier from its
    /// bytes; `pre_commit` runs after the bytes are staged in a hidden
    /// temporary file but before the rename that makes them visible, so a
    /// caller can take side effects that must happen exactly once per
    /// successful put. Where either callback fails, the put fails with that
    /// error and the canonical file is never created; an aborted put leaves
    /// only the temporary file, which a later `gc` reclaims.
    fn put<F1: Fn(&Vec<u8>) -> Result<Cid, Error>, F2: Fn(&Cid) -> Result<(), Error>>(
        &mut self,
        data: &Vec<u8>,
        get_cid: F1,
        pre_commit: F2,
    ) -> (r: Result<Cid, Error>)
        requires
            old(self).inv(),
            call_requires(get_cid, (data,)),
            forall|c: Cid| call_requires(pre_commit, (&c,)),
        ensures
            final(self).inv(),
            final(self).base_view() == old(self).base_view(),
            final(self).lazy_view() == old(self).lazy_view(),
            final(self).root_view() == old(self).root_view(),
            match r {
                Ok(cid) => {
                    &&& call_ensures(get_cid, (data,), Ok(cid))
                    &&& supported(old(self).base_view())
                    &&& !shard_foreign(
                        old(self).store_view(),
                        record_key(old(self).base_view(), cid.id_bytes()),
                    )
                    &&& call_ensures(pre_commit, (&cid,), Ok(()))
                    &&& final(self).store_view() == put_effect(
                        old(self).store_view(),
                        record_key(old(self).base_view(), cid.id_bytes()),
                        data@,
                    )
                },
                Err(e) => {
                    ||| (call_ensures(get_cid, (data,), Err(e)) && final(self).store_view() == old(
                        self,
                    ).store_view())
                    ||| (!supported(old(self).base_view()) && e == Error::FsStorage(
                        FsStorageError::UnsupportedBaseEncoding(old(self).base_view()),
                    ) && final(self).store_view() == old(self).store_view())
                    ||| (exists|cid: Cid|
                        {
                            &&& #[trigger] call_ensures(get_cid, (data,), Ok(cid))
                            &&& supported(old(self).base_view())
                            &&& shard_foreign(
                                old(self).store_view(),
                                record_key(old(self).base_view(), cid.id_bytes()),
                            )
                            &&& (e matches Error::FsStorage(FsStorageError::NotDir(p))
                                && p@ == subfolder_path(
                                old(self).root_view(),
                                shard_of(record_key(old(self).base_view(), cid.id_bytes())),
                            ))
                            &&& final(self).store_view() == old(self).store_view()
                        })
                    ||| (exists|cid: Cid|
                        {
                            &&& #[trigger] call_ensures(get_cid, (data,), Ok(cid))
                            &&& supported(old(self).base_view())
                            &&& !shard_foreign(
                                old(self).store_view(),
                                record_key(old(self).base_view(), cid.id_bytes()),
                            )
                            &&& call_ensures(pre_commit, (&cid,), Err(e))
                            &&& final(self).store_view() == put_abort_effect(
                                old(self).store_view(),
                                record_key(old(self).base_view(), cid.id_bytes()),
                                data@,
                            )
                        })
                },
            },
    ;

    /// Remove the block and return its bytes: a read-before-delete, failing
    /// exactly as `get` does where the block is absent. Under lazy mode the
    /// canonical file becomes its tombstone; otherwise it is unlinked, and
    /// its shard directory goes too once empty.
    fn rm(&mut self, cid: &Cid) -> (r: Result<Vec<u8>, Error>)
        requires
            old(self).inv(),
        ensures
            final(self).inv(),
            final(self).base_view() == old(self).base_view(),
            final(self).lazy_view() == old(self).lazy_view(),
            final(self).root_view() == old(self).root_view(),
            match r {
                Ok(v) => {
                    &&& supported(old(self).base_view())
                    &&& lookup_of(old(self).store_view(), old(self).base_view(), cid.id_bytes())
                        == Some(v@)
                    &&& final(self).store_view() == (if old(self).lazy_view() {
                        rm_lazy_effect(
                            old(self).store_view(),
                            record_key(old(self).base_view(), cid.id_bytes()),
                        )
                    } else {
                        rm_eager_effect(
                            old(self).store_view(),
                            record_key(old(self).base_view(), cid.id_bytes()),
                        )
                    })
                },
                Err(e) => read_err_spec(
                    old(self).store_view(),
                    old(self).base_view(),
                    old(self).root_view(),
                    cid.id_bytes(),
                    e,
                ) && final(self).store_view() == old(self).store_view(),
            },
    ;
}

/// The committed bytes filed under an identifier's bytes, under the given
/// base encoding.
pub open spec fn lookup_of(m: Map<char, NodeView>, base: Base, id: Seq<u8>) -> Option<Seq<u8>> {
    crate::fsstorage::lookup(m, record_key(base, id))
}

} // verus!
