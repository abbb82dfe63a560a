use fsstorage::encoding::encoding_symbols;
use fsstorage::fsblocks::{Builder, FsBlocks};
use fsstorage::{Base, Blocks, Cid, CidMap, Error, FsStorage, FsStorageError, Multikey};

fn derive(d: &Vec<u8>) -> Result<Cid, Error> {
    Ok(Cid::new(d.clone()))
}

fn accept(_c: &Cid) -> Result<(), Error> {
    Ok(())
}

fn put(blocks: &mut FsBlocks, v: &[u8]) -> Cid {
    let data: Vec<u8> = v.to_vec();
    blocks.put(&data, derive, accept).unwrap()
}

#[test]
fn test_encoding_symbols_exact() {
    assert_eq!(encoding_symbols(&Base::Base2).unwrap(), "01");
    assert_eq!(encoding_symbols(&Base::Base16Lower).unwrap(), "0123456789abcdef");
    assert_eq!(
        encoding_symbols(&Base::Base32Z).unwrap(),
        "ybndrfg8ejkmcpqxot1uwisza345h769"
    );
    assert_eq!(
        encoding_symbols(&Base::Base58Btc).unwrap(),
        "123456789ABCDEFGHJKLMNPQRSTUVWXYZabcdefghijkmnopqrstuvwxyz"
    );
    assert_eq!(
        encoding_symbols(&Base::Base64).unwrap(),
        "ABCDEFGHIJKLMNOPQRSTUVWXYZabcdefghijklmnopqrstuvwxyz0123456789+/"
    );
}

#[test]
fn test_encoding_symbols_unsupported() {
    assert!(matches!(
        encoding_symbols(&Base::Identity),
        Err(Error::FsStorage(FsStorageError::UnsupportedBaseEncoding(Base::Identity)))
    ));
    assert!(matches!(
        encoding_symbols(&Base::Base256Emoji),
        Err(Error::FsStorage(FsStorageError::UnsupportedBaseEncoding(Base::Base256Emoji)))
    ));
}

// the rendered identifier is real multibase output: the code character
// followed by the base-encoded bytes, and the shard character sits at the
// near-middle position, counted from the end
#[test]
fn test_path_derivation_exact() {
    let blocks = Builder::new("root")
        .with_base_encoding(Base::Base58Btc)
        .try_build()
        .unwrap();
    let cid = Cid::new(b"hello".to_vec());
    let p = blocks.get_paths(&cid).unwrap();
    assert_eq!(p.encoded, "zCn8eVZg");
    // length 8: the character at index 8 - 1 - 8/2 = 3
    assert_eq!(p.shard, '8');
    assert_eq!(p.tombstone_name, ".zCn8eVZg");
    assert_eq!(p.subfolder, "root/8");
    assert_eq!(p.file, "root/8/zCn8eVZg");
    assert_eq!(p.tombstone, "root/8/.zCn8eVZg");
}

#[test]
fn test_subfolders_exact() {
    let root = String::from("store");
    let v = FsStorage::<Cid>::subfolders(Some(Base::Base2), &root).unwrap();
    assert_eq!(v, vec![String::from("store/0"), String::from("store/1")]);
    // with no base given, the identifier type's preferred encoding is used
    let w = FsStorage::<Cid>::subfolders(None, &root).unwrap();
    assert_eq!(w.len(), 32);
    assert_eq!(w[0], "store/y");
    assert!(matches!(
        FsStorage::<Cid>::subfolders(Some(Base::Base45), &root),
        Err(Error::FsStorage(FsStorageError::UnsupportedBaseEncoding(Base::Base45)))
    ));
}

#[test]
fn test_preferred_encoding() {
    assert_eq!(FsStorage::<Cid>::preferred_encoding(), Base::Base32Z);
    let blocks = Builder::new("r").with_base_encoding(Base::Base16Lower).try_build().unwrap();
    assert_eq!(blocks.encoding(), Base::Base16Lower);
}

#[test]
fn test_unsupported_base_surfaces_everywhere() {
    // a lazy build accepts a base it has no alphabet for; the operations
    // that must render or walk shards then refuse it
    let mut blocks = Builder::new("r").with_base_encoding(Base::Identity).try_build().unwrap();
    let cid = Cid::new(b"x".to_vec());
    assert!(matches!(
        blocks.contains(&cid),
        Err(Error::FsStorage(FsStorageError::UnsupportedBaseEncoding(Base::Identity)))
    ));
    assert!(matches!(
        blocks.get(&cid),
        Err(Error::FsStorage(FsStorageError::UnsupportedBaseEncoding(Base::Identity)))
    ));
    assert!(matches!(
        blocks.gc(),
        Err(Error::FsStorage(FsStorageError::UnsupportedBaseEncoding(Base::Identity)))
    ));
    // an eager build refuses it outright
    assert!(matches!(
        Builder::new("r").with_base_encoding(Base::Identity).not_lazy().try_build(),
        Err(Error::FsStorage(FsStorageError::UnsupportedBaseEncoding(Base::Identity)))
    ));
}

#[test]
fn test_get_missing_shard_is_no_such_data() {
    let blocks = Builder::new("r").try_build().unwrap();
    let cid = Cid::new(b"missing".to_vec());
    let p = blocks.get_paths(&cid).unwrap();
    match blocks.get(&cid) {
        Err(Error::FsStorage(FsStorageError::NoSuchData(s))) => assert_eq!(s, p.encoded),
        _ => panic!("a missing shard directory must report NoSuchData"),
    }
}

#[test]
fn test_get_missing_file_is_io() {
    let mut blocks = Builder::new("r").try_build().unwrap();
    let cid = put(&mut blocks, b"soon gone");
    let p = blocks.get_paths(&cid).unwrap();
    // pull the record's file out from under the engine; the shard stays
    blocks.tree.remove_file(p.shard, &p.encoded);
    match blocks.get(&cid) {
        Err(Error::Io(s)) => assert_eq!(s, p.file),
        _ => panic!("a missing record file in an existing shard is an input/output error"),
    }
}

#[test]
fn test_foreign_shard_entry_is_not_dir() {
    let mut blocks = Builder::new("r").try_build().unwrap();
    let cid = Cid::new(b"blocked".to_vec());
    let p = blocks.get_paths(&cid).unwrap();
    // something other than a directory occupies the shard path
    blocks.tree.add_foreign(p.shard);
    match blocks.get(&cid) {
        Err(Error::FsStorage(FsStorageError::NotDir(s))) => assert_eq!(s, p.subfolder),
        _ => panic!("a foreign entry at the shard path must report NotDir"),
    }
    assert!(matches!(
        blocks.contains(&cid),
        Err(Error::FsStorage(FsStorageError::NotDir(_)))
    ));
    let data = b"blocked".to_vec();
    assert!(matches!(
        blocks.put(&data, derive, accept),
        Err(Error::FsStorage(FsStorageError::NotDir(_)))
    ));
}

// putting the same content twice yields the same identifier and leaves the
// first record's bytes intact
#[test]
fn test_put_idempotent() {
    let mut blocks = Builder::new("r").try_build().unwrap();
    let cid1 = put(&mut blocks, b"same bytes");
    let cid2 = put(&mut blocks, b"same bytes");
    assert_eq!(cid1, cid2);
    assert_eq!(blocks.get(&cid1).unwrap(), b"same bytes".to_vec());
}

// if the pre-commit callback fails, the put fails with that error, the
// canonical file is never created, and only the abandoned temporary file
// remains until the next gc
#[test]
fn test_pre_commit_abort() {
    let mut blocks = Builder::new("r").try_build().unwrap();
    let data = b"never committed".to_vec();
    let r = blocks.put(&data, derive, |_c: &Cid| -> Result<(), Error> {
        Err(Error::Custom(String::from("side effect refused")))
    });
    match r {
        Err(Error::Custom(s)) => assert_eq!(s, "side effect refused"),
        _ => panic!("the pre-commit error must surface unchanged"),
    }
    let cid = Cid::new(data.clone());
    assert_eq!(blocks.contains(&cid).unwrap(), false);
    let p = blocks.get_paths(&cid).unwrap();
    assert!(!blocks.tree.file_exists(p.shard, &p.encoded));
    // the abandoned temporary file sits in the shard directory
    let tmp = format!(".tmp.{}", p.encoded);
    assert!(blocks.tree.file_exists(p.shard, &tmp));
    // until a gc pass reclaims it
    blocks.gc().unwrap();
    assert!(!blocks.tree.file_exists(p.shard, &tmp));
    assert!(!blocks.tree.dir_exists(p.shard));
}

// running gc twice in a row produces the same state as running it once
#[test]
fn test_gc_idempotent() {
    let mut blocks = Builder::new("r").try_build().unwrap();
    let keep = put(&mut blocks, b"keep me");
    let drop1 = put(&mut blocks, b"drop me");
    let _ = blocks.rm(&drop1).unwrap();

    blocks.gc().unwrap();
    let names_once = blocks.tree.top_names();
    let kept_once = blocks.get(&keep).unwrap();

    blocks.gc().unwrap();
    let names_twice = blocks.tree.top_names();
    let kept_twice = blocks.get(&keep).unwrap();

    assert_eq!(names_once, names_twice);
    assert_eq!(kept_once, kept_twice);
    let pd = blocks.get_paths(&drop1).unwrap();
    assert!(!blocks.tree.file_exists(pd.shard, &pd.tombstone_name));
}

// under not-lazy mode, right after the build every shard directory named by
// the alphabet exists and no other
#[test]
fn test_shard_bounding() {
    let blocks = Builder::new("r")
        .with_base_encoding(Base::Base16Lower)
        .not_lazy()
        .try_build()
        .unwrap();
    let alpha = encoding_symbols(&Base::Base16Lower).unwrap();
    let names = blocks.tree.top_names();
    assert_eq!(names.len(), alpha.chars().count());
    for c in alpha.chars() {
        assert!(names.contains(&c));
        assert!(blocks.tree.dir_exists(c));
    }
}

// eager delete directory cleanup: removing the only record of a shard
// removes the directory; removing one of several leaves it
#[test]
fn test_eager_rm_directory_cleanup() {
    let mut blocks = Builder::new("r").not_lazy().try_build().unwrap();
    // two records that land in the same shard: identical bytes except the
    // middle of the encoded form is pinned by construction; simply probe
    let cid1 = put(&mut blocks, b"first record");
    let p1 = blocks.get_paths(&cid1).unwrap();

    // a second record in the very same shard: write it there directly
    let other = String::from("zzother");
    blocks.tree.write_file(p1.shard, &other, &b"second".to_vec());

    let _ = blocks.rm(&cid1).unwrap();
    // other records remain, so the shard directory stays
    assert!(blocks.tree.dir_exists(p1.shard));

    blocks.tree.remove_file(p1.shard, &other);
    let cid3 = put(&mut blocks, b"first record");
    let _ = blocks.rm(&cid3).unwrap();
    // it held the only record, so the shard directory went with it
    assert!(!blocks.tree.dir_exists(p1.shard));
}

// the concrete walk of the record lifecycle: build a lazy handle at an
// empty root, put, get, rm, gc
#[test]
fn test_lazy_lifecycle_scenario() {
    let mut blocks = Builder::new("r").try_build().unwrap();
    assert_eq!(blocks.tree.top_names().len(), 0);

    let v1 = b"for great justice!".to_vec();
    let cid = put(&mut blocks, &v1);
    assert_eq!(blocks.get(&cid).unwrap(), v1);

    let v2 = blocks.rm(&cid).unwrap();
    assert_eq!(v2, v1);
    let p = blocks.get_paths(&cid).unwrap();
    assert!(blocks.tree.file_exists(p.shard, &p.tombstone_name));
    assert!(!blocks.tree.file_exists(p.shard, &p.encoded));
    assert_eq!(blocks.contains(&cid).unwrap(), false);
    // the bytes are still recoverable through the tombstone
    assert_eq!(blocks.tree.read_file(p.shard, &p.tombstone_name).unwrap(), v1);

    blocks.gc().unwrap();
    assert!(!blocks.tree.file_exists(p.shard, &p.tombstone_name));
    assert!(!blocks.tree.file_exists(p.shard, &p.encoded));
    assert!(!blocks.tree.dir_exists(p.shard));
}

// a put over an existing mapping reports the address it replaced
#[test]
fn test_cid_map_upsert() {
    let mut mkm = fsstorage::fsmultikey_map::Builder::new("r").try_build().unwrap();
    let mk = Multikey::new(b"a key".to_vec());
    let cid1 = Cid::new(b"first address".to_vec());
    let cid2 = Cid::new(b"second address".to_vec());

    assert!(mkm.put(&mk, &cid1).unwrap().is_none());
    let prev = mkm.put(&mk, &cid2).unwrap();
    assert_eq!(prev.unwrap(), cid1);
    assert_eq!(mkm.get(&mk).unwrap(), cid2);

    let last = mkm.rm(&mk).unwrap();
    assert_eq!(last, cid2);
    match mkm.get(&mk) {
        Err(Error::Io(_)) => {},
        _ => panic!("the removed mapping must not be readable"),
    }
}

// an odd-length rendering: one byte in lower hexadecimal encodes to three
// characters, whose shard character is the one at index 3 - 1 - 3/2 = 1
#[test]
fn test_shard_char_odd_length() {
    let blocks = Builder::new("root")
        .with_base_encoding(Base::Base16Lower)
        .try_build()
        .unwrap();
    let cid = Cid::new(vec![0xabu8]);
    let p = blocks.get_paths(&cid).unwrap();
    assert_eq!(p.encoded, "fab");
    assert_eq!(p.shard, 'a');
}

// an identifier with no bytes still renders to the base's code character,
// so a shard character always exists
#[test]
fn test_empty_id_bytes() {
    let mut blocks = Builder::new("root")
        .with_base_encoding(Base::Base16Lower)
        .try_build()
        .unwrap();
    let cid = Cid::new(Vec::new());
    let p = blocks.get_paths(&cid).unwrap();
    assert_eq!(p.encoded, "f");
    assert_eq!(p.shard, 'f');
    let data = b"filed under the bare code character".to_vec();
    let stored = blocks
        .put(&data, |_d: &Vec<u8>| Ok(Cid::new(Vec::new())), accept)
        .unwrap();
    assert_eq!(blocks.get(&stored).unwrap(), data);
}
