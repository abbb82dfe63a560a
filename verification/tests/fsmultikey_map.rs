use fsstorage::encoding::encoding_symbols;
use fsstorage::fsmultikey_map::{Builder, FsMultikeyMap};
use fsstorage::{Base, Cid, CidMap, Multikey};

// a key identifier from its serialized bytes
fn get_mk(b: &[u8]) -> Multikey {
    Multikey::new(b.to_vec())
}

// a content address derived from the passed-in data
fn get_cid(b: &[u8]) -> Cid {
    Cid::new(b.to_vec())
}

#[test]
fn fsmultikey_map_test_builder_lazy() {
    let mkm = Builder::new(".fsmultikeymap1").try_build().unwrap();
    assert_eq!(mkm.root, String::from(".fsmultikeymap1"));
    assert_eq!(mkm.lazy, true);
    assert_eq!(mkm.base_encoding, Base::Base32Z);
    assert_eq!(mkm.tree.top_names().len(), 0);
}

#[test]
fn fsmultikey_map_test_builder_not_lazy() {
    let mkm = Builder::new(".fsmultikeymap2").not_lazy().try_build().unwrap();
    assert_eq!(mkm.root, String::from(".fsmultikeymap2"));
    assert_eq!(mkm.lazy, false);
    assert_eq!(mkm.base_encoding, Base::Base32Z);

    let alpha = encoding_symbols(&Base::Base32Z).unwrap();
    for c in alpha.chars() {
        assert!(mkm.tree.dir_exists(c));
    }
    for c in mkm.tree.top_names() {
        assert!(alpha.contains(c));
    }
    assert_eq!(mkm.tree.top_names().len(), 32);
}

#[test]
fn fsmultikey_map_test_put_lazy() {
    let mut mkm = Builder::new(".fsmultikeymap3").try_build().unwrap();

    let mk = get_mk(b"a public key");
    let cid1 = get_cid(b"for great justice!");
    let _ = mkm.put(&mk, &cid1).unwrap();
    let cid2 = mkm.get(&mk).unwrap();

    assert_eq!(cid1, cid2);
}

#[test]
fn fsmultikey_map_test_put_not_lazy() {
    let mut mkm = Builder::new(".fsmultikeymap4").not_lazy().try_build().unwrap();

    let mk = get_mk(b"a public key");
    let cid1 = get_cid(b"for great justice!");
    let _ = mkm.put(&mk, &cid1).unwrap();
    let cid2 = mkm.get(&mk).unwrap();

    assert_eq!(cid1, cid2);
}

#[test]
fn fsmultikey_map_test_rm_lazy() {
    let mut mkm = Builder::new(".fsmultikeymap5").try_build().unwrap();

    let mk = get_mk(b"a public key");
    let cid1 = get_cid(b"for great justice!");
    let _ = mkm.put(&mk, &cid1).unwrap();

    // the paths of the mapping created by the put
    let p = mkm.get_paths(&mk).unwrap();

    // lazy delete the mapping
    let cid2 = mkm.rm(&mk).unwrap();
    assert_eq!(cid1, cid2);

    // this is lazy so the tombstone file should still be there
    assert!(mkm.tree.file_exists(p.shard, &p.tombstone_name));
    // and the canonical file should not be there
    assert!(!mkm.tree.file_exists(p.shard, &p.encoded));
}

#[test]
fn fsmultikey_map_test_rm_not_lazy() {
    let mut mkm = Builder::new(".fsmultikeymap6").not_lazy().try_build().unwrap();

    let mk = get_mk(b"a public key");
    let cid1 = get_cid(b"for great justice!");
    let _ = mkm.put(&mk, &cid1).unwrap();

    // the paths of the mapping created by the put
    let p = mkm.get_paths(&mk).unwrap();

    // delete the mapping
    let cid2 = mkm.rm(&mk).unwrap();
    assert_eq!(cid1, cid2);

    // this is not lazy so no tombstone file may exist
    assert!(!mkm.tree.file_exists(p.shard, &p.tombstone_name));
    // and the canonical file should not be there either
    assert!(!mkm.tree.file_exists(p.shard, &p.encoded));
    // and since the shard directory is empty it should not be there either
    assert!(!mkm.tree.dir_exists(p.shard));
}

#[test]
fn fsmultikey_map_test_gc() {
    let mut mkm = Builder::new(".fsmultikeymap7").try_build().unwrap();

    let mk1 = get_mk(b"one public key");
    let cid1 = get_cid(b"for great justice!");
    let _ = mkm.put(&mk1, &cid1).unwrap();
    let mk2 = get_mk(b"another public key");
    let cid2 = get_cid(b"move every zig!");
    let _ = mkm.put(&mk2, &cid2).unwrap();

    let _ = mkm.rm(&mk1).unwrap();
    let _ = mkm.rm(&mk2).unwrap();

    // lazy delete: the file is gone, the tombstone and the folder remain
    let p1 = mkm.get_paths(&mk1).unwrap();
    assert!(mkm.tree.file_exists(p1.shard, &p1.tombstone_name));
    assert!(!mkm.tree.file_exists(p1.shard, &p1.encoded));
    assert!(mkm.tree.dir_exists(p1.shard));

    // lazy delete: the file is gone, the tombstone and the folder remain
    let p2 = mkm.get_paths(&mk2).unwrap();
    assert!(mkm.tree.file_exists(p2.shard, &p2.tombstone_name));
    assert!(!mkm.tree.file_exists(p2.shard, &p2.encoded));
    assert!(mkm.tree.dir_exists(p2.shard));

    // garbage collect
    mkm.gc().unwrap();

    // no files nor folders should exist
    assert!(!mkm.tree.file_exists(p1.shard, &p1.tombstone_name));
    assert!(!mkm.tree.file_exists(p1.shard, &p1.encoded));
    assert!(!mkm.tree.dir_exists(p1.shard));
    assert!(!mkm.tree.file_exists(p2.shard, &p2.tombstone_name));
    assert!(!mkm.tree.file_exists(p2.shard, &p2.encoded));
    assert!(!mkm.tree.dir_exists(p2.shard));
}
