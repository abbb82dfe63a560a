use fsstorage::encoding::encoding_symbols;
use fsstorage::fsvlad_map::{Builder, FsVladMap};
use fsstorage::{Base, Cid, CidMap, Vlad};

// a verifiable-log address from its serialized bytes
fn get_vlad(b: &[u8]) -> Vlad {
    Vlad::new(b.to_vec())
}

// a content address derived from the passed-in data
fn get_cid(b: &[u8]) -> Cid {
    Cid::new(b.to_vec())
}

#[test]
fn fsvlad_map_test_builder_lazy() {
    let vm = Builder::new(".fsvladmap1").try_build().unwrap();
    assert_eq!(vm.root, String::from(".fsvladmap1"));
    assert_eq!(vm.lazy, true);
    assert_eq!(vm.base_encoding, Base::Base32Z);
    assert_eq!(vm.tree.top_names().len(), 0);
}

#[test]
fn fsvlad_map_test_builder_not_lazy() {
    let vm = Builder::new(".fsvladmap2").not_lazy().try_build().unwrap();
    assert_eq!(vm.root, String::from(".fsvladmap2"));
    assert_eq!(vm.lazy, false);
    assert_eq!(vm.base_encoding, Base::Base32Z);

    let alpha = encoding_symbols(&Base::Base32Z).unwrap();
    for c in alpha.chars() {
        assert!(vm.tree.dir_exists(c));
    }
    for c in vm.tree.top_names() {
        assert!(alpha.contains(c));
    }
    assert_eq!(vm.tree.top_names().len(), 32);
}

#[test]
fn fsvlad_map_test_put_lazy() {
    let mut vm = Builder::new(".fsvladmap3").try_build().unwrap();

    let vlad = get_vlad(b"for great justice!");
    let cid1 = get_cid(b"move every zig!");
    let _ = vm.put(&vlad, &cid1).unwrap();
    let cid2 = vm.get(&vlad).unwrap();

    assert_eq!(cid1, cid2);
}

#[test]
fn fsvlad_map_test_put_not_lazy() {
    let mut vm = Builder::new(".fsvladmap4").not_lazy().try_build().unwrap();

    let vlad = get_vlad(b"for great justice!");
    let cid1 = get_cid(b"move every zig!");
    let _ = vm.put(&vlad, &cid1).unwrap();
    let cid2 = vm.get(&vlad).unwrap();

    assert_eq!(cid1, cid2);
}

#[test]
fn fsvlad_map_test_rm_lazy() {
    let mut vm = Builder::new(".fsvladmap5").try_build().unwrap();

    let vlad = get_vlad(b"for great justice!");
    let cid1 = get_cid(b"move every zig!");
    let _ = vm.put(&vlad, &cid1).unwrap();

    // the paths of the mapping created by the put
    let p = vm.get_paths(&vlad).unwrap();

    // lazy delete the mapping
    let cid2 = vm.rm(&vlad).unwrap();
    assert_eq!(cid1, cid2);

    // this is lazy so the tombstone file should still be there
    assert!(vm.tree.file_exists(p.shard, &p.tombstone_name));
    // and the canonical file should not be there
    assert!(!vm.tree.file_exists(p.shard, &p.encoded));
}

#[test]
fn fsvlad_map_test_rm_not_lazy() {
    let mut vm = Builder::new(".fsvladmap6").not_lazy().try_build().unwrap();

    let vlad = get_vlad(b"for great justice!");
    let cid1 = get_cid(b"move every zig!");
    let _ = vm.put(&vlad, &cid1).unwrap();

    // the paths of the mapping created by the put
    let p = vm.get_paths(&vlad).unwrap();

    // delete the mapping
    let cid2 = vm.rm(&vlad).unwrap();
    assert_eq!(cid1, cid2);

    // this is not lazy so no tombstone file may exist
    assert!(!vm.tree.file_exists(p.shard, &p.tombstone_name));
    // and the canonical file should not be there either
    assert!(!vm.tree.file_exists(p.shard, &p.encoded));
    // and since the shard directory is empty it should not be there either
    assert!(!vm.tree.dir_exists(p.shard));
}

#[test]
fn fsvlad_map_test_gc() {
    let mut vm = Builder::new(".fsvladmap7").try_build().unwrap();

    let vlad1 = get_vlad(b"for great justice!");
    let cid1 = get_cid(b"move every zig!");
    let _ = vm.put(&vlad1, &cid1).unwrap();
    let vlad2 = get_vlad(b"someday");
    let cid2 = get_cid(b"will come");
    let _ = vm.put(&vlad2, &cid2).unwrap();

    let _ = vm.rm(&vlad1).unwrap();
    let _ = vm.rm(&vlad2).unwrap();

    // lazy delete: the file is gone, the tombstone and the folder remain
    let p1 = vm.get_paths(&vlad1).unwrap();
    assert!(vm.tree.file_exists(p1.shard, &p1.tombstone_name));
    assert!(!vm.tree.file_exists(p1.shard, &p1.encoded));
    assert!(vm.tree.dir_exists(p1.shard));

    // lazy delete: the file is gone, the tombstone and the folder remain
    let p2 = vm.get_paths(&vlad2).unwrap();
    assert!(vm.tree.file_exists(p2.shard, &p2.tombstone_name));
    assert!(!vm.tree.file_exists(p2.shard, &p2.encoded));
    assert!(vm.tree.dir_exists(p2.shard));

    // garbage collect
    vm.gc().unwrap();

    // no files nor folders should exist
    assert!(!vm.tree.file_exists(p1.shard, &p1.tombstone_name));
    assert!(!vm.tree.file_exists(p1.shard, &p1.encoded));
    assert!(!vm.tree.dir_exists(p1.shard));
    assert!(!vm.tree.file_exists(p2.shard, &p2.tombstone_name));
    assert!(!vm.tree.file_exists(p2.shard, &p2.encoded));
    assert!(!vm.tree.dir_exists(p2.shard));
}
