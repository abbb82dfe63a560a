use fsstorage::encoding::encoding_symbols;
use fsstorage::fsblocks::{Builder, FsBlocks};
use fsstorage::{Base, Blocks, Cid, Error};

fn put(blocks: &mut FsBlocks, v: &[u8]) -> Cid {
    let data: Vec<u8> = v.to_vec();
    blocks
        .put(
            &data,
            |d: &Vec<u8>| -> Result<Cid, Error> { Ok(Cid::new(d.clone())) },
            |_c: &Cid| -> Result<(), Error> { Ok(()) },
        )
        .unwrap()
}

#[test]
fn fsblocks_test_builder_lazy() {
    let blocks = Builder::new(".fsblocks1").try_build().unwrap();
    assert_eq!(blocks.root, String::from(".fsblocks1"));
    assert_eq!(blocks.lazy, true);
    assert_eq!(blocks.base_encoding, Base::Base32Z);
    // a lazy build creates no shard directories up front
    assert_eq!(blocks.tree.top_names().len(), 0);
}

#[test]
fn fsblocks_test_builder_not_lazy() {
    let blocks = Builder::new(".fsblocks2").not_lazy().try_build().unwrap();
    assert_eq!(blocks.root, String::from(".fsblocks2"));
    assert_eq!(blocks.lazy, false);
    assert_eq!(blocks.base_encoding, Base::Base32Z);

    let alpha = encoding_symbols(&Base::Base32Z).unwrap();
    for c in alpha.chars() {
        assert!(blocks.tree.dir_exists(c));
    }
    for c in blocks.tree.top_names() {
        assert!(alpha.contains(c));
    }
    assert_eq!(blocks.tree.top_names().len(), 32);
}

#[test]
fn fsblocks_test_put_lazy() {
    let mut blocks = Builder::new(".fsblocks3").try_build().unwrap();

    let v1 = b"for great justice!".to_vec();
    let cid = put(&mut blocks, &v1);

    let v2 = blocks.get(&cid).unwrap();
    assert_eq!(v1, v2);
}

#[test]
fn fsblocks_test_put_not_lazy() {
    let mut blocks = Builder::new(".fsblocks4").not_lazy().try_build().unwrap();

    let v1 = b"move every zig!".to_vec();
    let cid = put(&mut blocks, &v1);

    let v2 = blocks.get(&cid).unwrap();
    assert_eq!(v1, v2);
}

#[test]
fn fsblocks_test_rm_lazy() {
    let mut blocks = Builder::new(".fsblocks5").try_build().unwrap();

    let v1 = b"for great justice!".to_vec();
    let cid = put(&mut blocks, &v1);

    // the paths of the record created by the put
    let p = blocks.get_paths(&cid).unwrap();

    // lazy delete the block
    let v2 = blocks.rm(&cid).unwrap();
    assert_eq!(v1, v2);

    // this is lazy so the tombstone file should still be there
    assert!(blocks.tree.file_exists(p.shard, &p.tombstone_name));
    // and the canonical file should not be there
    assert!(!blocks.tree.file_exists(p.shard, &p.encoded));
}

#[test]
fn fsblocks_test_rm_not_lazy() {
    let mut blocks = Builder::new(".fsblocks6").not_lazy().try_build().unwrap();

    let v1 = b"move every zig!".to_vec();
    let cid = put(&mut blocks, &v1);

    // the paths of the record created by the put
    let p = blocks.get_paths(&cid).unwrap();

    // delete the block
    let v2 = blocks.rm(&cid).unwrap();
    assert_eq!(v1, v2);

    // this is not lazy so no tombstone file may exist
    assert!(!blocks.tree.file_exists(p.shard, &p.tombstone_name));
    // and the canonical file should not be there either
    assert!(!blocks.tree.file_exists(p.shard, &p.encoded));
    // and since the shard directory is empty it should not be there either
    assert!(!blocks.tree.dir_exists(p.shard));
}

#[test]
fn fsblocks_test_gc() {
    let mut blocks = Builder::new(".fsblocks7").try_build().unwrap();

    let v1 = b"for great justice!".to_vec();
    let cid1 = put(&mut blocks, &v1);
    let v2 = b"move every zig!".to_vec();
    let cid2 = put(&mut blocks, &v2);

    let _ = blocks.rm(&cid1).unwrap();
    let _ = blocks.rm(&cid2).unwrap();

    // lazy delete: the file is gone, the tombstone and the folder remain
    let p1 = blocks.get_paths(&cid1).unwrap();
    assert!(blocks.tree.file_exists(p1.shard, &p1.tombstone_name));
    assert!(!blocks.tree.file_exists(p1.shard, &p1.encoded));
    assert!(blocks.tree.dir_exists(p1.shard));

    // lazy delete: the file is gone, the tombstone and the folder remain
    let p2 = blocks.get_paths(&cid2).unwrap();
    assert!(blocks.tree.file_exists(p2.shard, &p2.tombstone_name));
    assert!(!blocks.tree.file_exists(p2.shard, &p2.encoded));
    assert!(blocks.tree.dir_exists(p2.shard));

    // garbage collect
    blocks.gc().unwrap();

    // no files nor folders should exist
    assert!(!blocks.tree.file_exists(p1.shard, &p1.tombstone_name));
    assert!(!blocks.tree.file_exists(p1.shard, &p1.encoded));
    assert!(!blocks.tree.dir_exists(p1.shard));
    assert!(!blocks.tree.file_exists(p2.shard, &p2.tombstone_name));
    assert!(!blocks.tree.file_exists(p2.shard, &p2.encoded));
    assert!(!blocks.tree.dir_exists(p2.shard));
}
