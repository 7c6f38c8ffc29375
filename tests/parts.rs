use vstorage::route::{accepts_lz4, route, strip_quotes, Method, Route};
use vstorage::build_info::vm_version_info;
use vstorage::bucket::Bucket;
use vstorage::cluster::{NoCoordinators, Pong, RestPath, ServerRegistrationRequest, ServerRegistrationResponse, Server};
use vstorage::config::{Db, Interfaces, Storage};
use vstorage::digest::hex_words;
use vstorage::disk::{Disk, WriteSlot};
use vstorage::engine::mark_block_as_deleted;
use vstorage::meta::{db_size, BlockMeta, BucketMeta, Compression, HashFun, MetaStore, VolumeMeta};
use vstorage::status::{MemoryStatus, MetaStatus, NetStatus, NodeStatus, StorageStatus, UptimeStatus};
use vstorage::volume::{validate_volumes, MountInfo, Volume};

fn volume(id: &str, objects: u64, active: u64, buckets: Vec<Bucket>) -> Volume {
    let mut v = Volume::new(&format!("/v/{}", id));
    v.id = id.to_string();
    v.cnt_objects = objects;
    v.active_slots = active;
    v.buckets = buckets;
    v
}

fn bucket(id: u32, vol: &str, blocks: u64, active: u64) -> Bucket {
    let mut b = Bucket::new(id, &vol.to_string(), &format!("/v/{}/{}", vol, id), 100);
    b.cnt_blocks = blocks;
    b.active_slots = active;
    b
}

#[test]
fn bucket_key_is_padded() {
    assert_eq!(BucketMeta::db_id(7, &"abc".to_string()), "00007-abc");
    assert_eq!(BucketMeta::db_id(0, &"v".to_string()), "00000-v");
    assert_eq!(BucketMeta::db_id(123456, &"v".to_string()), "123456-v");
}

#[test]
fn hex_is_fixed_width() {
    assert_eq!(hex_words(1, 0xabc), "00000000000000010000000000000abc");
    assert_eq!(hex_words(u64::MAX, 0), "ffffffffffffffff0000000000000000");
}

#[test]
fn hash_fun_codes() {
    assert_eq!(HashFun::from_code(1), HashFun::Md5);
    assert_eq!(HashFun::from_code(5), HashFun::Hgw256);
    assert_eq!(HashFun::from_code(9), HashFun::Other);
    assert_eq!(HashFun::Sha256.to_code(), 3);
    assert_eq!(HashFun::from_header(b"0"), HashFun::Md5);
    assert_eq!(HashFun::from_header(b"4"), HashFun::Hgw256);
    assert_eq!(HashFun::from_header(b"7"), HashFun::Hgw128);
    assert_eq!(HashFun::from_header(b""), HashFun::Hgw128);
}

#[test]
fn compression_header() {
    assert_eq!(Compression::from_header(b"lz4"), Compression::LZ4);
    assert_eq!(Compression::from_header(b"LZ4"), Compression::LZ4);
    assert_eq!(Compression::from_header(b"lz5"), Compression::Plain);
    assert_eq!(Compression::from_header(b"gzip"), Compression::Plain);
}

#[test]
fn bucket_counts_from_size() {
    assert_eq!(Volume::volume_cnt_buckets(4 * 1024 * 1024, 1024 * 1024), 3);
    assert_eq!(Volume::volume_cnt_buckets(1024 * 1024, 1024 * 1024), 0);
    assert_eq!(Volume::volume_cnt_buckets(100, 1024), 0);
    assert_eq!(Volume::volume_cnt_buckets(u64::MAX, 1), u32::MAX);
}

#[test]
fn volume_bootstrap_lays_out_buckets() {
    let mut db = MetaStore::new();
    let mounts = vec![
        MountInfo { mounted_from: "/dev/sdb".to_string(), mounted_on: "/mnt".to_string(), total: 500 },
        MountInfo { mounted_from: "/dev/sda".to_string(), mounted_on: "/".to_string(), total: 400 },
    ];
    let mut v = Volume::new(&"./data".to_string());
    assert!(v.bootstrap("/data/v1".to_string(), "/".to_string(), &mounts, 100, &mut db, 9).is_ok());
    assert_eq!(v.id, "59737a14211d1ef19c615d8c5e6c5d4ffbf1c34c");
    assert_eq!(v.dev, "/dev/sda");
    assert_eq!(v.buckets.len(), 3);
    assert_eq!(v.buckets[2].path, "/data/v1/3");
    assert!(VolumeMeta::exists_volume(&db, &v.id));
    assert!(BucketMeta::exists_bucket(&db, 3, &v.id));
    assert_eq!(BucketMeta::get(&db, 2, &v.id).unwrap().init_size_bytes, 100);
    let mut w = Volume::new(&"./data".to_string());
    assert!(w.bootstrap("/data/v1".to_string(), "/nowhere".to_string(), &mounts, 100, &mut db, 9).is_ok());
    assert_eq!(w.buckets.len(), 0);
    assert_eq!(w.dev, "");
}

#[test]
fn duplicate_device_rejected() {
    let mut a = volume("a", 0, 0, vec![]);
    a.dev = "/dev/sda".to_string();
    let mut b = volume("b", 0, 0, vec![]);
    b.dev = "/dev/sda".to_string();
    let mut c = volume("c", 0, 0, vec![]);
    c.dev = "/dev/sdc".to_string();
    assert!(validate_volumes(&a, &vec![a.clone(), b.clone()]).is_err());
    assert_eq!(validate_volumes(&c, &vec![a.clone(), c.clone()]), Ok(true));
}

#[test]
fn least_loaded_volume_and_bucket() {
    let mut disk = Disk::new();
    disk.init_volumes(vec![
        volume("a", 5, 0, vec![bucket(1, "a", 5, 0)]),
        volume("b", 1, 1, vec![bucket(1, "b", 3, 0), bucket(2, "b", 1, 0), bucket(3, "b", 1, 0)]),
        volume("c", 2, 0, vec![bucket(1, "c", 0, 0)]),
    ]);
    let slot = disk.get_write_slot_named(&"f1".to_string()).unwrap();
    assert_eq!(slot, WriteSlot { volume_id: "b".to_string(), bucket_id: 2, file_path: "/v/b/2/f1".to_string() });
    assert_eq!(disk.volumes[1].active_slots, 2);
    assert_eq!(disk.volumes[1].buckets[1].active_slots, 1);
    let s2 = disk.get_write_slot().unwrap();
    assert_eq!(s2.volume_id, "c");
    assert_eq!(s2.file_path.len(), "/v/c/1/".len() + 32);
}

#[test]
fn release_counts_written_bytes() {
    let mut disk = Disk::new();
    disk.init_volumes(vec![volume("a", 0, 0, vec![bucket(1, "a", 0, 0)])]);
    let slot = disk.get_write_slot_named(&"x".to_string()).unwrap();
    assert_eq!(disk.release_write_slot(slot.clone(), 30), Ok(true));
    assert_eq!((disk.volumes[0].cnt_objects, disk.volumes[0].active_slots), (1, 0));
    let b = &disk.volumes[0].buckets[0];
    assert_eq!((b.cnt_blocks, b.active_slots, b.avail_size_bytes), (1, 0, 70));
    assert_eq!(disk.release_write_slot(slot.clone(), 0), Err(()));
    let s2 = disk.get_write_slot_named(&"y".to_string()).unwrap();
    s2.release(&mut disk, 0);
    assert_eq!(disk.volumes[0].buckets[0].cnt_blocks, 1);
    assert_eq!(disk.volumes[0].buckets[0].active_slots, 0);
    let stranger = WriteSlot { volume_id: "zz".to_string(), bucket_id: 1, file_path: String::new() };
    assert_eq!(disk.release_write_slot(stranger, 1), Err(()));
}

#[test]
fn delete_and_purge_object_counters() {
    let mut disk = Disk::new();
    disk.init_volumes(vec![volume("a", 1, 0, vec![bucket(1, "a", 1, 0)])]);
    assert_eq!(disk.delete_object(&"a".to_string(), 1, 40), Ok(()));
    assert_eq!(disk.volumes[0].cnt_objects, 0);
    assert_eq!(disk.volumes[0].buckets[0].gc_size_bytes, 40);
    assert_eq!(disk.delete_object(&"a".to_string(), 1, 40), Err(()));
    assert_eq!(disk.purge_object(&"a".to_string(), 1, 40), Ok(()));
    assert_eq!(disk.volumes[0].buckets[0].gc_size_bytes, 0);
    assert_eq!(disk.volumes[0].buckets[0].avail_size_bytes, 140);
    assert_eq!(disk.purge_object(&"a".to_string(), 1, 1), Err(()));
    assert_eq!(disk.purge_object(&"a".to_string(), 9, 0), Err(()));
}

fn block(id: &str, vol: &str, bucket: u32, size: u64) -> BlockMeta {
    let mut b = BlockMeta::new(1);
    b.id = id.to_string();
    b.volume_id = vol.to_string();
    b.bucket_id = bucket;
    b.size = size;
    b
}

fn store_with_bucket(cap: u64) -> MetaStore {
    let mut db = MetaStore::new();
    let mut m = BucketMeta::new(1);
    m.init_size_bytes = cap;
    m.avail_size_bytes = cap;
    m.upsert(1, &"v".to_string(), &mut db).unwrap();
    db
}

#[test]
fn store_batches_keep_counters() {
    let mut db = store_with_bucket(100);
    assert_eq!(block("a", "v", 1, 30).store(&mut db), Ok(()));
    assert_eq!(block("a", "v", 1, 30).store(&mut db), Err(()));
    assert_eq!(block("b", "v", 2, 30).store(&mut db), Err(()));
    assert_eq!(block("c", "v", 1, 71).store(&mut db), Err(()));
    let m = BucketMeta::get(&db, 1, &"v".to_string()).unwrap();
    assert_eq!((m.cnt_blocks, m.avail_size_bytes, m.gc_size_bytes), (1, 70, 0));
    assert!(BlockMeta::exists_block(&db, &"a".to_string()));
    assert_eq!(block("a", "v", 1, 30).delete(&mut db), Ok(()));
    assert_eq!(block("a", "v", 1, 30).delete(&mut db), Err(()));
    assert_eq!(block("a", "v", 1, 30).store(&mut db), Err(()));
    let m = BucketMeta::get(&db, 1, &"v".to_string()).unwrap();
    assert_eq!((m.cnt_blocks, m.avail_size_bytes, m.gc_size_bytes), (0, 70, 30));
    assert_eq!(BlockMeta::fetch_deleted(&db, 5).len(), 1);
    assert_eq!(block("a", "v", 1, 30).purge(&mut db), Ok(()));
    assert_eq!(block("a", "v", 1, 30).purge(&mut db), Err(()));
    let m = BucketMeta::get(&db, 1, &"v".to_string()).unwrap();
    assert_eq!((m.cnt_blocks, m.avail_size_bytes, m.gc_size_bytes), (0, 100, 0));
}

#[test]
fn store_append_and_touch() {
    let mut db = store_with_bucket(100);
    block("a", "v", 1, 3).store(&mut db).unwrap();
    let n = BlockMeta::append(&mut db, &"a".to_string(), b"abcdef").unwrap();
    assert_eq!(n.size, 6);
    assert_eq!(n.crc, BlockMeta::crc(b"abcdef"));
    assert_eq!(BucketMeta::get(&db, 1, &"v".to_string()).unwrap().avail_size_bytes, 94);
    assert_eq!(BlockMeta::append(&mut db, &"a".to_string(), b"ab"), Err(()));
    assert!(db.touch_block_meta(&"a".to_string(), 77));
    assert_eq!(BlockMeta::get(&db, &"a".to_string()).unwrap().last_check_ts, 77);
    assert!(!db.touch_block_meta(&"q".to_string(), 77));
}

#[test]
fn bucket_upsert_must_agree_with_rows() {
    let mut db = store_with_bucket(100);
    block("a", "v", 1, 10).store(&mut db).unwrap();
    let mut bad = BucketMeta::new(2);
    bad.init_size_bytes = 100;
    bad.avail_size_bytes = 100;
    assert_eq!(bad.upsert(1, &"v".to_string(), &mut db), Err(()));
    let mut good = bad;
    good.cnt_blocks = 1;
    good.avail_size_bytes = 90;
    assert_eq!(good.upsert(1, &"v".to_string(), &mut db), Ok(()));
    assert_eq!(BucketMeta::get(&db, 1, &"v".to_string()).unwrap().ts, 2);
    assert!(!BucketMeta::exists_bucket(&db, 5, &"v".to_string()));
}

#[test]
fn volume_rows() {
    let mut db = MetaStore::new();
    let mut v = VolumeMeta::new(3);
    v.id = "x".to_string();
    v.path = "/p".to_string();
    v.upsert(&mut db).unwrap();
    let mut w = VolumeMeta::new(4);
    w.id = "x".to_string();
    w.path = "/q".to_string();
    w.upsert(&mut db).unwrap();
    assert_eq!(db.volumes.len(), 1);
    assert_eq!(VolumeMeta::get(&db, &"x".to_string()).unwrap().path, "/q");
    assert!(VolumeMeta::get(&db, &"y".to_string()).is_none());
}

#[test]
fn commit_and_mark_deleted() {
    let mut db = store_with_bucket(100);
    let mut disk = Disk::new();
    disk.init_volumes(vec![volume("v", 0, 0, vec![bucket(1, "v", 0, 0)])]);
    let slot = disk.get_write_slot_named(&"f".to_string()).unwrap();
    assert_eq!(slot.clone().commit(block("a", "v", 1, 20), &mut disk, &mut db), Ok(()));
    assert_eq!(disk.volumes[0].buckets[0].cnt_blocks, 1);
    assert_eq!(disk.volumes[0].active_slots, 0);
    let slot = disk.get_write_slot_named(&"g".to_string()).unwrap();
    assert_eq!(slot.commit(block("a", "v", 1, 20), &mut disk, &mut db), Err(()));
    assert_eq!(disk.volumes[0].buckets[0].cnt_blocks, 1);
    assert_eq!(disk.volumes[0].active_slots, 0);
    assert_eq!(mark_block_as_deleted(block("a", "v", 1, 20), &mut db, &mut disk), Ok(()));
    assert_eq!(disk.volumes[0].buckets[0].gc_size_bytes, 20);
    assert_eq!(mark_block_as_deleted(block("a", "v", 1, 20), &mut db, &mut disk), Err(()));
}

#[test]
fn block_rows_and_reply() {
    let mut b = BlockMeta::new(55);
    assert_eq!((b.created, b.last_check_ts, b.hash_fun), (55, 55, HashFun::Hgw128));
    b.hash_fun = HashFun::Sha128;
    b.size = 9;
    let r = b.to_grpc();
    assert_eq!((r.hash_fun, r.size, r.created), (2, 9, 55));
    let mut db = MetaStore::new();
    assert_eq!(db_size(&db), None);
    assert_eq!(MetaStatus::get(&db).db_size, 0);
    db.set_size(4096);
    assert_eq!(MetaStatus::get(&db).db_size, 4096);
}

#[test]
fn storage_totals() {
    let mut disk = Disk::new();
    let mut b1 = bucket(1, "a", 2, 1);
    b1.gc_size_bytes = 5;
    b1.avail_size_bytes = 60;
    disk.init_volumes(vec![
        volume("a", 2, 1, vec![b1, bucket(2, "a", 1, 0)]),
        volume("b", 0, 0, vec![bucket(1, "b", 4, 2)]),
    ]);
    let s = StorageStatus::get(&disk);
    assert_eq!((s.objects, s.gc_bytes, s.move_bytes, s.init_bytes, s.avail_bytes, s.active_slots), (7, 5, 0, 300, 260, 3));
}

#[test]
fn status_snapshots() {
    let i = Interfaces::default();
    let n = NodeStatus::get(&"n1".to_string(), &"z".to_string(), &i, &"normal".to_string());
    assert_eq!(n.rest_public_endpoint, "[::1]:33088");
    assert_eq!(n.grpc_internal_endpoint, "[::1]:33085");
    let mut m = MemoryStatus::new();
    m.free = 3;
    assert_eq!(m.get().free, 3);
    assert_eq!(UptimeStatus::new().get().host, 0);
    assert_eq!(NetStatus::new().get().tcp_in_use, 0);
}

#[test]
fn config_defaults() {
    let s = Storage::default();
    assert_eq!(s.block_size_limit_bytes, 10485760);
    assert_eq!(s.volumes, vec!["./info/data".to_string()]);
    assert_eq!(Storage::default_volumes().len(), 1);
    assert_eq!(Db::default().meta_db_path, "./info/meta");
}

#[test]
fn cluster_paths() {
    assert_eq!(Pong::get_path(true), "/ping");
    let req = ServerRegistrationRequest {
        server: Server { nodename: "n".to_string(), zone: "z".to_string(), rack: "r".to_string(), endpoint: "e".to_string() },
    };
    assert_eq!(ServerRegistrationResponse::get_path(req), "/v1/server/register");
    assert_eq!(NoCoordinators.message(), "no active coordinator");
}

#[test]
fn version_banner() {
    let s = vm_version_info("1.0", "h", "b", "t", "u", "host", "rc");
    assert!(s.starts_with("\nRelease Version:   1.0\nGit Commit Hash:   h"));
    assert!(s.ends_with("\nRust Version:      rc"));
}

#[test]
fn routes() {
    assert_eq!(route(Method::Get, "/"), Route::Index);
    assert_eq!(route(Method::Get, "/index.html"), Route::Index);
    assert_eq!(route(Method::Get, ""), Route::Index);
    assert_eq!(route(Method::Get, "/status"), Route::Status);
    assert_eq!(route(Method::Get, "/status/"), Route::Status);
    assert_eq!(route(Method::Get, "/Metrics"), Route::Metrics);
    assert_eq!(route(Method::Head, "/block/abc"), Route::HeadBlock(b"abc".to_vec()));
    assert_eq!(route(Method::Get, "/block/ABC"), Route::GetBlock(b"abc".to_vec()));
    assert_eq!(route(Method::Put, "/block/k1"), Route::PutBlock(Some(b"k1".to_vec())));
    assert_eq!(route(Method::Post, "/block"), Route::PostBlock(None));
    assert_eq!(route(Method::Delete, "/block/x"), Route::DeleteBlock(b"x".to_vec()));
    assert_eq!(route(Method::Delete, "/block"), Route::NotFound);
    assert_eq!(route(Method::Get, "/block/x/y"), Route::NotFound);
    assert_eq!(route(Method::Post, "/status"), Route::NotFound);
    assert_eq!(route(Method::Other, "/"), Route::NotFound);
    assert_eq!(strip_quotes(b"\"abc\""), b"abc".to_vec());
    assert!(accepts_lz4(b"gzip, lz4"));
    assert!(!accepts_lz4(b"gzip"));
    assert!(!accepts_lz4(b"lz"));
}

#[test]
fn release_always_ends_reservation() {
    let mut disk = Disk::new();
    disk.init_volumes(vec![volume("a", 0, 0, vec![bucket(1, "a", 0, 0)])]);
    let slot = disk.get_write_slot_named(&"x".to_string()).unwrap();
    assert_eq!(disk.release_write_slot(slot, 150), Ok(true));
    assert_eq!(disk.volumes[0].active_slots, 0);
    let b = &disk.volumes[0].buckets[0];
    assert_eq!((b.active_slots, b.cnt_blocks, b.avail_size_bytes), (0, 1, 0));
    assert_eq!(disk.volumes[0].cnt_objects, 1);
}

#[test]
fn compressed_row_refuses_append() {
    let mut db = store_with_bucket(100);
    let mut b = block("z", "v", 1, 3);
    b.compressed = true;
    b.store(&mut db).unwrap();
    assert_eq!(BlockMeta::append(&mut db, &"z".to_string(), b"abcdef"), Err(()));
    assert_eq!(BlockMeta::get(&db, &"z".to_string()).unwrap().size, 3);
    assert_eq!(BucketMeta::get(&db, 1, &"v".to_string()).unwrap().avail_size_bytes, 97);
}

#[test]
fn placer_refusal_leaves_store_alone() {
    let mut db = store_with_bucket(100);
    block("a", "v", 1, 20).store(&mut db).unwrap();
    let mut disk = Disk::new();
    assert_eq!(mark_block_as_deleted(block("a", "v", 1, 20), &mut db, &mut disk), Err(()));
    assert!(BlockMeta::exists_block(&db, &"a".to_string()));
    assert_eq!(BucketMeta::get(&db, 1, &"v".to_string()).unwrap().gc_size_bytes, 0);
}

#[test]
fn volume_bootstrap_refuses_inconsistent_bucket() {
    let mut db = MetaStore::new();
    let vid = "59737a14211d1ef19c615d8c5e6c5d4ffbf1c34c".to_string();
    let mut stray = BlockMeta::new(1);
    stray.id = "s".to_string();
    stray.volume_id = vid.clone();
    stray.bucket_id = 2;
    stray.size = 5;
    db.blocks.push(stray);
    let mounts = vec![MountInfo { mounted_from: "/dev/sda".to_string(), mounted_on: "/".to_string(), total: 400 }];
    let mut v = Volume::new(&"./data".to_string());
    assert_eq!(v.bootstrap("/data/v1".to_string(), "/".to_string(), &mounts, 100, &mut db, 9), Err(()));
}
