use std::collections::HashMap;

use vstorage::bucket::Bucket;
use vstorage::disk::Disk;
use vstorage::engine::{BlockEngine, EngineError, UnlinkOutcome, WriteOptions};
use vstorage::meta::{BlockMeta, BucketMeta, HashFun, MetaStore};
use vstorage::volume::{MountInfo, Volume};

const MIB: u64 = 1024 * 1024;

/// Files written by the engine's callers, by path.
type Files = HashMap<String, Vec<u8>>;

fn engine(buckets: u64, bucket_size: u64, limit: u64) -> BlockEngine {
    let mut db = MetaStore::new();
    let mounts = vec![MountInfo {
        mounted_from: "/dev/sda1".to_string(),
        mounted_on: "/".to_string(),
        total: (buckets + 1) * bucket_size,
    }];
    let mut v = Volume::new(&"/data/v1".to_string());
    v.bootstrap("/data/v1".to_string(), "/".to_string(), &mounts, bucket_size, &mut db, 100)
        .unwrap();
    let mut disk = Disk::new();
    disk.init_volumes(vec![v]);
    BlockEngine::new(disk, db, limit)
}

fn opts(compress: bool) -> WriteOptions {
    WriteOptions {
        content_type: "application/octet-stream".to_string(),
        compress,
        hash_fun: HashFun::Other,
        hash: String::new(),
    }
}

fn insert(e: &mut BlockEngine, files: &mut Files, id: &str, payload: Vec<u8>, compress: bool) -> Result<BlockMeta, EngineError> {
    let p = e.begin_insert(id.to_string(), "o1".to_string(), payload, opts(compress), 1000)?;
    files.insert(p.slot.file_path.clone(), p.body.clone());
    e.finish_write(p, true)
}

fn get(e: &BlockEngine, files: &Files, id: &str, if_none_match: &str, accept: bool) -> Result<(Vec<u8>, bool), EngineError> {
    let m = e.begin_get(&id.to_string(), &if_none_match.to_string())?;
    BlockEngine::finish_get(&m, files.get(&m.path).cloned(), accept)
}

fn bucket_row(e: &BlockEngine, m: &BlockMeta) -> BucketMeta {
    BucketMeta::get(&e.meta, m.bucket_id, &m.volume_id).unwrap()
}

fn placer_bucket(e: &BlockEngine, m: &BlockMeta) -> Bucket {
    let v = e.disk.volumes.iter().find(|v| v.id == m.volume_id).unwrap();
    v.buckets.iter().find(|b| b.id == m.bucket_id).unwrap().clone()
}

fn gc_tick(e: &mut BlockEngine, files: &mut Files, batch: u32) -> usize {
    let items = e.gc_candidates(batch);
    let outcomes: Vec<UnlinkOutcome> = items
        .iter()
        .map(|m| if files.remove(&m.path).is_some() { UnlinkOutcome::Removed } else { UnlinkOutcome::Missing })
        .collect();
    e.gc_pass(items, &outcomes).into_iter().filter(|d| *d).count()
}

#[test]
fn happy_path() {
    let mut e = engine(3, MIB, 10 * MIB);
    let mut files = Files::new();
    assert_eq!(e.disk.volumes[0].buckets.len(), 3);
    let m = insert(&mut e, &mut files, "a", b"hello".to_vec(), false).unwrap();
    assert_eq!(m.size, 5);
    assert_eq!(m.orig_size, 5);
    assert!(!m.compressed);
    let row = bucket_row(&e, &m);
    assert_eq!(row.cnt_blocks, 1);
    assert_eq!(row.avail_size_bytes, 1048571);
    let b = placer_bucket(&e, &m);
    assert_eq!(b.cnt_blocks, 1);
    assert_eq!(b.avail_size_bytes, 1048571);
    assert_eq!(b.active_slots, 0);
    assert_eq!(get(&e, &files, "a", "", false).unwrap(), (b"hello".to_vec(), false));
    assert_eq!(m.crc, BlockMeta::crc(b"hello"));
}

#[test]
fn compression_chosen() {
    let mut e = engine(3, MIB, 10 * MIB);
    let mut files = Files::new();
    let m = insert(&mut e, &mut files, "a", vec![0u8; 4096], true).unwrap();
    assert!(m.compressed);
    assert!(m.size < 4096);
    assert_eq!(m.orig_size, 4096);
    assert_eq!(files.get(&m.path).unwrap().len() as u64, m.size);
    assert_eq!(get(&e, &files, "a", "", false).unwrap(), (vec![0u8; 4096], false));
    let (raw, flag) = get(&e, &files, "a", "", true).unwrap();
    assert!(flag);
    assert_eq!(raw.len() as u64, m.size);
}

#[test]
fn compression_rejected() {
    let mut e = engine(3, MIB, 10 * MIB);
    let mut files = Files::new();
    let m = insert(&mut e, &mut files, "r", vec![0x13, 0x7a, 0xc1, 0x04, 0xee], true).unwrap();
    assert!(!m.compressed);
    assert_eq!(m.size, 5);
    assert_eq!(get(&e, &files, "r", "", false).unwrap().0, vec![0x13, 0x7a, 0xc1, 0x04, 0xee]);
}

#[test]
fn duplicate_insert() {
    let mut e = engine(3, MIB, 10 * MIB);
    let mut files = Files::new();
    insert(&mut e, &mut files, "b", b"x".to_vec(), false).unwrap();
    assert_eq!(insert(&mut e, &mut files, "b", b"y".to_vec(), false), Err(EngineError::AlreadyExists));
    assert_eq!(get(&e, &files, "b", "", false).unwrap().0, b"x".to_vec());
    assert_eq!(e.disk.volumes[0].active_slots, 0);
}

#[test]
fn delete_and_gc() {
    let mut e = engine(3, MIB, 10 * MIB);
    let mut files = Files::new();
    let before: Vec<BucketMeta> = e.meta.buckets.iter().map(|r| r.meta).collect();
    let m = insert(&mut e, &mut files, "c", vec![7u8; 1000], false).unwrap();
    let a = bucket_row(&e, &m).avail_size_bytes;
    assert_eq!(bucket_row(&e, &m).gc_size_bytes, 0);
    assert_eq!(bucket_row(&e, &m).cnt_blocks, 1);

    assert_eq!(e.delete(&"c".to_string()).unwrap(), "c");
    let row = bucket_row(&e, &m);
    assert_eq!((row.avail_size_bytes, row.gc_size_bytes, row.cnt_blocks), (a, 1000, 0));
    assert!(e.meta.delete_queue_has(&"c".to_string()));
    assert!(!e.has_block(&"c".to_string()));
    assert!(files.contains_key(&m.path));

    assert_eq!(gc_tick(&mut e, &mut files, 1000), 1);
    assert!(!files.contains_key(&m.path));
    assert!(!e.meta.delete_queue_has(&"c".to_string()));
    let row = bucket_row(&e, &m);
    assert_eq!((row.avail_size_bytes, row.gc_size_bytes, row.cnt_blocks), (a + 1000, 0, 0));
    let after: Vec<BucketMeta> = e.meta.buckets.iter().map(|r| r.meta).collect();
    assert_eq!(before, after);
    let b = placer_bucket(&e, &m);
    assert_eq!((b.avail_size_bytes, b.gc_size_bytes, b.cnt_blocks), (MIB, 0, 0));
}

#[test]
fn validator_detects_corruption() {
    let mut e = engine(3, MIB, 10 * MIB);
    let mut files = Files::new();
    let m = insert(&mut e, &mut files, "d", b"abc".to_vec(), false).unwrap();
    files.insert(m.path.clone(), b"xyz".to_vec());
    let due = e.blocks_due(2000, 0);
    assert_eq!(due.len(), 1);
    assert_eq!(due[0].id, "d");
    let ok = e.revalidate(&due[0], files.get(&due[0].path).cloned(), 2000);
    assert!(!ok);
    let row = BlockMeta::get(&e.meta, &"d".to_string()).unwrap();
    assert_eq!(row.last_check_ts, 2000);
    assert!(e.has_block(&"d".to_string()));
    assert_eq!(bucket_row(&e, &m).cnt_blocks, 1);
    assert_eq!(bucket_row(&e, &m).avail_size_bytes, MIB - 3);
}

#[test]
fn validator_accepts_intact_block() {
    let mut e = engine(3, MIB, 10 * MIB);
    let mut files = Files::new();
    let m = insert(&mut e, &mut files, "d", b"abc".to_vec(), false).unwrap();
    assert!(e.revalidate(&m, files.get(&m.path).cloned(), 1500));
    assert!(!e.revalidate(&m, None, 1600));
    assert!(e.blocks_due(1600, 0).len() == 0);
    assert!(e.blocks_due(1601, 0).len() == 1);
    assert!(e.blocks_due(1601 + 86400, 1).len() == 1);
    assert!(e.blocks_due(1600 + 86400, 1).len() == 0);
}

#[test]
fn size_limit_boundary() {
    let mut e = engine(3, MIB, 16);
    let mut files = Files::new();
    assert!(insert(&mut e, &mut files, "ok", vec![1u8; 16], false).is_ok());
    assert_eq!(insert(&mut e, &mut files, "big", vec![1u8; 17], false), Err(EngineError::TooLarge));
    assert_eq!(e.check_upload(17, 17), Err(EngineError::TooLarge));
    assert_eq!(e.check_upload(16, 15), Err(EngineError::LengthMismatch));
    assert_eq!(e.check_upload(16, 16), Ok(()));
}

#[test]
fn empty_id_gets_fresh_id() {
    let mut e = engine(3, MIB, 10 * MIB);
    let mut files = Files::new();
    let m = insert(&mut e, &mut files, "", b"q".to_vec(), false).unwrap();
    assert_eq!(m.id.len(), 32);
    assert!(m.id.chars().all(|c| c.is_ascii_hexdigit() && !c.is_ascii_uppercase()));
    assert!(e.has_block(&m.id));
    let name = m.path.rsplit('/').next().unwrap();
    assert_eq!(name.len(), 32);
}

#[test]
fn not_modified_on_matching_crc() {
    let mut e = engine(3, MIB, 10 * MIB);
    let mut files = Files::new();
    let m = insert(&mut e, &mut files, "e", b"etag".to_vec(), false).unwrap();
    let empty = Files::new();
    assert_eq!(get(&e, &empty, "e", &m.crc, false), Err(EngineError::NotModified));
    assert_eq!(get(&e, &files, "e", "other", false).unwrap().0, b"etag".to_vec());
    assert_eq!(get(&e, &empty, "e", "", false), Err(EngineError::IOError));
    assert_eq!(get(&e, &files, "nope", "", false), Err(EngineError::NotFound));
}

#[test]
fn no_buckets_no_capacity() {
    let mut e = engine(0, MIB, 10 * MIB);
    let mut files = Files::new();
    assert_eq!(e.disk.volumes[0].buckets.len(), 0);
    assert_eq!(insert(&mut e, &mut files, "z", b"z".to_vec(), false), Err(EngineError::NoCapacity));
    assert_eq!(e.disk.volumes[0].active_slots, 0);
    let mut none = BlockEngine::new(Disk::new(), MetaStore::new(), 10);
    assert_eq!(insert(&mut none, &mut files, "z", b"z".to_vec(), false), Err(EngineError::NoCapacity));
}

#[test]
fn second_delete_not_found() {
    let mut e = engine(3, MIB, 10 * MIB);
    let mut files = Files::new();
    insert(&mut e, &mut files, "f", b"f".to_vec(), false).unwrap();
    assert!(e.delete(&"f".to_string()).is_ok());
    assert_eq!(e.delete(&"f".to_string()), Err(EngineError::NotFound));
    assert_eq!(e.delete(&String::new()), Err(EngineError::InvalidArgument));
}

#[test]
fn id_awaiting_purge_is_taken() {
    let mut e = engine(3, MIB, 10 * MIB);
    let mut files = Files::new();
    insert(&mut e, &mut files, "g", b"g".to_vec(), false).unwrap();
    e.delete(&"g".to_string()).unwrap();
    assert_eq!(insert(&mut e, &mut files, "g", b"h".to_vec(), false), Err(EngineError::AlreadyExists));
    gc_tick(&mut e, &mut files, 10);
    assert!(insert(&mut e, &mut files, "g", b"h".to_vec(), false).is_ok());
}

#[test]
fn gc_on_empty_queue_changes_nothing() {
    let mut e = engine(3, MIB, 10 * MIB);
    let mut files = Files::new();
    insert(&mut e, &mut files, "k", b"k".to_vec(), false).unwrap();
    let before: Vec<BucketMeta> = e.meta.buckets.iter().map(|r| r.meta).collect();
    let placer_before = e.disk.volumes.clone();
    assert_eq!(gc_tick(&mut e, &mut files, 100), 0);
    let after: Vec<BucketMeta> = e.meta.buckets.iter().map(|r| r.meta).collect();
    assert_eq!(before, after);
    assert_eq!(placer_before, e.disk.volumes);
}

#[test]
fn gc_keeps_tombstone_when_unlink_fails() {
    let mut e = engine(3, MIB, 10 * MIB);
    let mut files = Files::new();
    insert(&mut e, &mut files, "u", b"u".to_vec(), false).unwrap();
    e.delete(&"u".to_string()).unwrap();
    let items = e.gc_candidates(10);
    assert_eq!(e.gc_pass(items, &vec![UnlinkOutcome::Failed]), vec![false]);
    assert!(e.meta.delete_queue_has(&"u".to_string()));
    let items = e.gc_candidates(10);
    assert_eq!(e.gc_pass(items, &vec![UnlinkOutcome::Missing]), vec![true]);
    assert!(!e.meta.delete_queue_has(&"u".to_string()));
}

#[test]
fn gc_batch_limit() {
    let mut e = engine(3, MIB, 10 * MIB);
    let mut files = Files::new();
    for id in ["p1", "p2", "p3"] {
        insert(&mut e, &mut files, id, b"p".to_vec(), false).unwrap();
        e.delete(&id.to_string()).unwrap();
    }
    let first = e.gc_candidates(2);
    assert_eq!(first.iter().map(|m| m.id.clone()).collect::<Vec<_>>(), vec!["p1", "p2"]);
    assert_eq!(gc_tick(&mut e, &mut files, 2), 2);
    assert_eq!(e.meta.delete_queue.len(), 1);
}

#[test]
fn failed_file_write_releases_slot() {
    let mut e = engine(3, MIB, 10 * MIB);
    let p = e.begin_insert("w".to_string(), "o".to_string(), b"w".to_vec(), opts(false), 5).unwrap();
    assert_eq!(e.disk.volumes[0].active_slots, 1);
    assert_eq!(e.finish_write(p, false), Err(EngineError::IOError));
    assert_eq!(e.disk.volumes[0].active_slots, 0);
    assert!(e.disk.volumes[0].buckets.iter().all(|b| b.active_slots == 0 && b.cnt_blocks == 0));
    assert!(!e.has_block(&"w".to_string()));
}

#[test]
fn full_bucket_refuses_batch() {
    let mut e = engine(1, 10, 100);
    let mut files = Files::new();
    assert!(insert(&mut e, &mut files, "s1", vec![1u8; 8], false).is_ok());
    assert_eq!(insert(&mut e, &mut files, "s2", vec![1u8; 8], false), Err(EngineError::IOError));
    assert_eq!(e.disk.volumes[0].active_slots, 0);
    assert!(!e.has_block(&"s2".to_string()));
}

#[test]
fn placement_balances_buckets() {
    let mut e = engine(3, MIB, 10 * MIB);
    let mut files = Files::new();
    let a = insert(&mut e, &mut files, "b1", b"1".to_vec(), false).unwrap();
    let b = insert(&mut e, &mut files, "b2", b"2".to_vec(), false).unwrap();
    let c = insert(&mut e, &mut files, "b3", b"3".to_vec(), false).unwrap();
    let d = insert(&mut e, &mut files, "b4", b"4".to_vec(), false).unwrap();
    assert_eq!((a.bucket_id, b.bucket_id, c.bucket_id, d.bucket_id), (1, 2, 3, 1));
    assert_eq!(e.disk.volumes[0].cnt_objects, 4);
    assert_eq!(a.path, "/data/v1/1/".to_string() + a.path.rsplit('/').next().unwrap());
}

#[test]
fn append_grows_block() {
    let mut e = engine(3, MIB, 10 * MIB);
    let mut files = Files::new();
    let m = insert(&mut e, &mut files, "ap", b"abc".to_vec(), false).unwrap();
    let row = e.begin_append(&"ap".to_string(), 2).unwrap();
    files.get_mut(&row.path).unwrap().extend_from_slice(b"de");
    let n = e.finish_append(&"ap".to_string(), 2, files.get(&row.path).cloned()).unwrap();
    assert_eq!(n.size, 5);
    assert_eq!(n.orig_size, 3);
    assert_eq!(n.crc, BlockMeta::crc(b"abcde"));
    assert_eq!(bucket_row(&e, &m).avail_size_bytes, MIB - 5);
    assert_eq!(get(&e, &files, "ap", "", false).unwrap().0, b"abcde".to_vec());
    assert_eq!(e.finish_append(&"ap".to_string(), 2, Some(b"abcde".to_vec())), Err(EngineError::IOError));
    assert_eq!(e.finish_append(&"ap".to_string(), 2, None), Err(EngineError::IOError));
    assert_eq!(e.finish_append(&"zz".to_string(), 2, None), Err(EngineError::NotFound));
}

#[test]
fn append_refusals() {
    let mut e = engine(3, MIB, 100);
    let mut files = Files::new();
    insert(&mut e, &mut files, "cz", vec![0u8; 90], true).unwrap();
    assert_eq!(e.begin_append(&"cz".to_string(), 1), Err(EngineError::InvalidArgument));
    assert_eq!(e.begin_append(&"cz".to_string(), 101), Err(EngineError::TooLarge));
    assert_eq!(e.begin_append(&"none".to_string(), 1), Err(EngineError::NotFound));
    assert_eq!(e.begin_append(&String::new(), 1), Err(EngineError::InvalidArgument));
}

#[test]
fn delete_reports_placer_refusal() {
    let mut e = engine(3, MIB, 10 * MIB);
    let mut files = Files::new();
    insert(&mut e, &mut files, "m", b"m".to_vec(), false).unwrap();
    let placer = e.disk.volumes.clone();
    e.disk = Disk::new();
    assert_eq!(e.delete(&"m".to_string()), Err(EngineError::MetaError));
    assert!(e.has_block(&"m".to_string()));
    assert!(!e.meta.delete_queue_has(&"m".to_string()));
    e.disk.init_volumes(placer);
    assert!(e.delete(&"m".to_string()).is_ok());
}

#[test]
fn upsert_of_live_id_refused() {
    let mut e = engine(3, MIB, 10 * MIB);
    let mut files = Files::new();
    insert(&mut e, &mut files, "up", b"1".to_vec(), false).unwrap();
    let r = e.begin_upsert("up".to_string(), "o".to_string(), b"2".to_vec(), opts(false), 5);
    assert!(matches!(r, Err(EngineError::AlreadyExists)));
    let p = e.begin_upsert("up2".to_string(), "o".to_string(), b"2".to_vec(), opts(false), 5).unwrap();
    files.insert(p.slot.file_path.clone(), p.body.clone());
    assert!(e.finish_write(p, true).is_ok());
}

#[test]
fn crc_is_deterministic() {
    let a = BlockMeta::crc(b"payload");
    let b = BlockMeta::crc(b"payload");
    assert_eq!(a, b);
    assert_eq!(a.len(), 32);
    assert_ne!(a, BlockMeta::crc(b"payloae"));
    assert_ne!(BlockMeta::crc(b"abc"), "abc");
    assert!(a.chars().all(|c| c.is_ascii_hexdigit() && !c.is_ascii_uppercase()));
}

#[test]
fn error_status_codes() {
    assert_eq!(EngineError::InvalidArgument.http_status(), 400);
    assert_eq!(EngineError::NotFound.http_status(), 404);
    assert_eq!(EngineError::AlreadyExists.http_status(), 409);
    assert_eq!(EngineError::TooLarge.http_status(), 413);
    assert_eq!(EngineError::LengthMismatch.http_status(), 411);
    assert_eq!(EngineError::NotModified.http_status(), 304);
    assert_eq!(EngineError::NoCapacity.http_status(), 503);
    assert_eq!(EngineError::IOError.http_status(), 503);
    assert_eq!(EngineError::MetaError.http_status(), 500);
}

#[test]
fn gc_waits_for_placer() {
    let mut e = engine(3, MIB, 10 * MIB);
    let mut files = Files::new();
    insert(&mut e, &mut files, "gp", b"gp".to_vec(), false).unwrap();
    e.delete(&"gp".to_string()).unwrap();
    let placer = e.disk.volumes.clone();
    e.disk = Disk::new();
    let items = e.gc_candidates(10);
    assert_eq!(e.gc_pass(items, &vec![UnlinkOutcome::Removed]), vec![false]);
    assert!(e.meta.delete_queue_has(&"gp".to_string()));
    e.disk.init_volumes(placer);
    let items = e.gc_candidates(10);
    assert_eq!(e.gc_pass(items, &vec![UnlinkOutcome::Missing]), vec![true]);
    assert!(!e.meta.delete_queue_has(&"gp".to_string()));
}
