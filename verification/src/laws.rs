//! The laws the storage engine obeys, stated over the spec-level store
//! transitions and proved for every store state, every key and every
//! payload.

use vstd::map::*;
use vstd::prelude::*;

use crate::fstree::{hidden_name, visible_files, NodeView};
use crate::fsstorage::{
    dir_files, ensure_shards, gc_effect, lookup, put_abort_effect, put_effect, rm_eager_effect,
    rm_lazy_effect, shard_of, temp_of, tombstone_of,
};

verus! {

/// Round trip: reading a key right after a put of `data` committed under it
/// returns exactly `data`, whatever the store held before.
pub proof fn lemma_put_then_lookup(m: Map<char, NodeView>, key: Seq<char>, data: Seq<u8>)
    requires
        key.len() > 0,
    ensures
        lookup(put_effect(m, key, data), key) == Some(data),
{
}

/// Idempotent put: committing the same bytes under the same key twice
/// leaves exactly the state that committing them once leaves.
pub proof fn lemma_put_idempotent(m: Map<char, NodeView>, key: Seq<char>, data: Seq<u8>)
    requires
        key.len() > 0,
    ensures
        put_effect(put_effect(m, key, data), key, data) == put_effect(m, key, data),
{
    let c = shard_of(key);
    let t = temp_of(key);
    assert(t.len() == key.len() + 5);
    let f1 = dir_files(m, c).remove(t).insert(key, data);
    assert(dir_files(put_effect(m, key, data), c) == f1);
    assert(f1.remove(t).insert(key, data) =~= f1);
    assert(put_effect(put_effect(m, key, data), key, data) =~= put_effect(m, key, data));
}

/// Lazy delete reversibility: after a lazy removal the canonical file is
/// gone, so a read reports absence, yet the bytes still sit in the
/// tombstone file; and after a garbage collection pass whose alphabet
/// covers the record's shard, the tombstone is gone too.
pub proof fn lemma_lazy_rm(m: Map<char, NodeView>, key: Seq<char>, alpha: Set<char>)
    requires
        key.len() > 0,
        lookup(m, key) is Some,
        alpha.contains(shard_of(key)),
    ensures
        lookup(rm_lazy_effect(m, key), key) is None,
        dir_files(rm_lazy_effect(m, key), shard_of(key)).dom().contains(tombstone_of(key)),
        dir_files(rm_lazy_effect(m, key), shard_of(key))[tombstone_of(key)] == dir_files(
            m,
            shard_of(key),
        )[key],
        !dir_files(gc_effect(rm_lazy_effect(m, key), alpha), shard_of(key)).dom().contains(
            tombstone_of(key),
        ),
{
    let c = shard_of(key);
    let tomb = tombstone_of(key);
    assert(tomb.len() == key.len() + 1);
    assert(hidden_name(tomb)) by {
        assert(tomb[0] == '.');
    }
    let m2 = rm_lazy_effect(m, key);
    assert(!visible_files(m2[c]->files).dom().contains(tomb));
    if visible_files(m2[c]->files).dom() == Set::<Seq<char>>::empty() {
        assert(!gc_effect(m2, alpha).dom().contains(c));
    } else {
        assert(gc_effect(m2, alpha)[c] == (NodeView::Dir { files: visible_files(m2[c]->files) }));
    }
}

/// Eager delete directory cleanup, first half: removing the only record of
/// a shard removes the now-empty shard directory with it.
pub proof fn lemma_eager_rm_last(m: Map<char, NodeView>, key: Seq<char>)
    requires
        key.len() > 0,
        lookup(m, key) is Some,
        dir_files(m, shard_of(key)).dom() == set![key],
    ensures
        !rm_eager_effect(m, key).dom().contains(shard_of(key)),
{
    let c = shard_of(key);
    let remaining = dir_files(m, c).remove(key);
    assert(remaining.dom() =~= Set::<Seq<char>>::empty()) by {
        assert(forall|k: Seq<char>| #[trigger] remaining.dom().contains(k) ==> set![key].contains(k) && k != key);
    }
}

/// Eager delete directory cleanup, second half: removing one record while
/// others remain in its shard leaves the directory in place, with the other
/// records untouched.
pub proof fn lemma_eager_rm_keeps_dir(m: Map<char, NodeView>, key: Seq<char>, other: Seq<char>)
    requires
        key.len() > 0,
        lookup(m, key) is Some,
        dir_files(m, shard_of(key)).dom().contains(other),
        other != key,
    ensures
        rm_eager_effect(m, key).dom().contains(shard_of(key)),
        rm_eager_effect(m, key)[shard_of(key)] is Dir,
        dir_files(rm_eager_effect(m, key), shard_of(key)).dom().contains(other),
        dir_files(rm_eager_effect(m, key), shard_of(key))[other] == dir_files(m, shard_of(key))[other],
        !dir_files(rm_eager_effect(m, key), shard_of(key)).dom().contains(key),
{
    let c = shard_of(key);
    let remaining = dir_files(m, c).remove(key);
    assert(remaining.dom().contains(other));
    assert(remaining.dom() != Set::<Seq<char>>::empty()) by {
        assert(!Set::<Seq<char>>::empty().contains(other));
    }
}

/// Shard bounding: built over an empty root, the store's shard directories
/// are exactly the alphabet's characters, each an empty directory.
pub proof fn lemma_build_shards(alpha: Set<char>)
    ensures
        ensure_shards(Map::<char, NodeView>::empty(), alpha).dom() == alpha,
        forall|c: char|
            alpha.contains(c) ==> ensure_shards(Map::<char, NodeView>::empty(), alpha)[c] == (
            NodeView::Dir { files: Map::empty() }),
{
    assert(ensure_shards(Map::<char, NodeView>::empty(), alpha).dom() =~= alpha);
    assert forall|c: char| alpha.contains(c) implies ensure_shards(
        Map::<char, NodeView>::empty(),
        alpha,
    )[c] == (NodeView::Dir { files: Map::empty() }) by {
        assert(ensure_shards(Map::<char, NodeView>::empty(), alpha).dom().contains(c));
    };
}

/// Garbage collection is idempotent: a second pass over the same alphabet
/// changes nothing. The pass is defined pointwise over the store, so its
/// outcome does not depend on the order the shards are walked in.
pub proof fn lemma_gc_idempotent(m: Map<char, NodeView>, alpha: Set<char>)
    ensures
        gc_effect(gc_effect(m, alpha), alpha) == gc_effect(m, alpha),
{
    let g1 = gc_effect(m, alpha);
    assert_maps_equal!(gc_effect(g1, alpha), g1, c => {
        if g1.dom().contains(c) && alpha.contains(c) && g1[c] is Dir {
            assert(visible_files(visible_files(g1[c]->files)) =~= visible_files(g1[c]->files));
            if m.dom().contains(c) && m[c] is Dir {
                assert(g1[c]->files == visible_files(m[c]->files));
                assert(visible_files(m[c]->files).dom() != Set::<Seq<char>>::empty());
                assert(visible_files(g1[c]->files) =~= g1[c]->files);
            }
        }
    });
}

/// Pre-commit abort: a put whose pre-commit callback failed has not touched
/// the canonical name — a read finds exactly what it found before — while
/// the abandoned temporary file sits in the shard directory awaiting
/// garbage collection.
pub proof fn lemma_put_abort_preserves(m: Map<char, NodeView>, key: Seq<char>, data: Seq<u8>)
    requires
        key.len() > 0,
    ensures
        lookup(put_abort_effect(m, key, data), key) == lookup(m, key),
        dir_files(put_abort_effect(m, key, data), shard_of(key)).dom().contains(temp_of(key)),
{
    let t = temp_of(key);
    assert(t.len() == key.len() + 5);
}

} // verus!
