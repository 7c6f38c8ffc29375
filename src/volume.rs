//! A volume: a filesystem-backed directory holding buckets.

use vstd::prelude::*;
use crypto::digest::Digest;
use crypto::sha1::Sha1;
use crate::bucket::Bucket;
use crate::meta::{has_bucket, has_volume, meta_consistent, BucketMeta, MetaStore, VolumeMeta};
use crate::status::{bucket_total, capped};
use crate::text::{dec_digits, push_char, push_decimal};

verus! {

/// In-memory picture of one volume.
#[derive(Debug, Clone, PartialEq)]
pub struct Volume {
    pub id: String,
    pub dev: String,
    pub path: String,
    pub mountpoint: String,
    pub buckets: Vec<Bucket>,
    pub cnt_objects: u64,
    pub active_slots: u64,
}

/// `n` is `o` with the given counters and bucket `bi` replaced by `b`.
pub open spec fn volume_with(o: Volume, n: Volume, active: int, objects: int, bi: int, b: Bucket) -> bool {
    &&& n.id == o.id
    &&& n.dev == o.dev
    &&& n.path == o.path
    &&& n.mountpoint == o.mountpoint
    &&& n.active_slots == active
    &&& n.cnt_objects == objects
    &&& n.buckets@ == o.buckets@.update(bi, b)
}

/// Number of buckets laid out on a filesystem of `total` bytes: one fewer
/// than fit whole.
pub open spec fn cnt_buckets_spec(total: u64, limit: u64) -> int {
    let n = total / limit;
    if n >= 1 {
        n - 1
    } else {
        0
    }
}

impl Volume {
    /// A volume at `volume_path`, not yet bootstrapped.
    pub fn new(volume_path: &String) -> (r: Volume)
        ensures
            r.id@.len() == 0,
            r.dev@.len() == 0,
            r.path == *volume_path,
            r.mountpoint@.len() == 0,
            r.buckets@.len() == 0,
            r.cnt_objects == 0,
            r.active_slots == 0,
    {
        Volume {
            id: String::new(),
            dev: String::new(),
            path: volume_path.clone(),
            mountpoint: String::new(),
            buckets: Vec::new(),
            cnt_objects: 0,
            active_slots: 0,
        }
    }

    /// Load used for placement: stored objects plus outstanding reservations.
    pub open spec fn load(self) -> int {
        self.cnt_objects + self.active_slots
    }

    /// How many buckets a filesystem of `volume_total_size` bytes gets:
    /// `floor(total / limit) - 1`, and none where not even one fits.
    pub fn volume_cnt_buckets(volume_total_size: u64, bucket_size_limit_bytes: u64) -> (r: u32)
        requires
            bucket_size_limit_bytes > 0,
        ensures
            cnt_buckets_spec(volume_total_size, bucket_size_limit_bytes) <= u32::MAX ==> r
                == cnt_buckets_spec(volume_total_size, bucket_size_limit_bytes),
            cnt_buckets_spec(volume_total_size, bucket_size_limit_bytes) > u32::MAX ==> r == u32::MAX,
    {
        let n = volume_total_size / bucket_size_limit_bytes;
        if n == 0 {
            0
        } else if n - 1 > u32::MAX as u64 {
            u32::MAX
        } else {
            (n - 1) as u32
        }
    }
}

/// Whether another volume than `volume` (by path) sits on the same device.
pub open spec fn dev_clash(volume: Volume, volumes: Seq<Volume>) -> bool {
    exists|i: int|
        0 <= i < volumes.len() && #[trigger] volumes[i].path@ != volume.path@ && volumes[i].dev@
            == volume.dev@
}

/// Rejects `volume` where another configured volume shares its device.
pub fn validate_volumes(volume: &Volume, volumes: &Vec<Volume>) -> (r: Result<bool, ()>)
    ensures
        r is Err <==> dev_clash(*volume, volumes@),
        r is Ok ==> r == Ok::<bool, ()>(true),
{
    let mut i: usize = 0;
    while i < volumes.len()
        invariant
            i <= volumes@.len(),
            forall|j: int|
                0 <= j < i ==> !(#[trigger] volumes@[j].path@ != volume.path@ && volumes@[j].dev@
                    == volume.dev@),
        decreases volumes@.len() - i,
    {
        if volumes[i].path != volume.path && volumes[i].dev == volume.dev {
            return Err(());
        }
        i = i + 1;
    }
    Ok(true)
}

/// The SHA-1 digest of the UTF-8 bytes of `s`, as lowercase hex.
pub uninterp spec fn sha1_hex_of(s: Seq<char>) -> Seq<char>;

/// Relies on rust-crypto's `Sha1`: `input_str` then `result_str`, the
/// 20-byte digest of the text as 40 lowercase hex digits.
#[verifier::external_body]
fn sha1_hex(s: &str) -> (r: String)
    ensures
        r@ == sha1_hex_of(s@),
        r@.len() == 40,
{
    let mut hasher = Sha1::new();
    hasher.input_str(s);
    hasher.result_str()
}

/// A mounted filesystem: device, mount point and size in bytes.
#[derive(Debug, Clone, PartialEq)]
pub struct MountInfo {
    pub mounted_from: String,
    pub mounted_on: String,
    pub total: u64,
}

/// `i` is the first mount at `point`.
pub open spec fn first_mount_at(mounts: Seq<MountInfo>, point: Seq<char>, i: int) -> bool {
    &&& 0 <= i < mounts.len()
    &&& mounts[i].mounted_on@ == point
    &&& forall|j: int| 0 <= j < i ==> #[trigger] mounts[j].mounted_on@ != point
}

/// Path of bucket `i` of a volume at `path`.
pub open spec fn bucket_path(path: Seq<char>, i: nat) -> Seq<char> {
    path.push('/') + dec_digits(i)
}

/// The row a bucket of `limit` bytes gets when first laid out at `now`.
pub open spec fn first_row(limit: u64, now: u64) -> BucketMeta {
    BucketMeta {
        cnt_blocks: 0,
        active_slots: 0,
        init_size_bytes: limit,
        avail_size_bytes: limit,
        gc_size_bytes: 0,
        ts: now,
    }
}

/// Whether bucket `i` of volume `vol` can be bootstrapped against `db`: it
/// has a row already, or a first row agrees with the blocks and tombstones
/// recorded for it.
pub open spec fn bucket_ready(db: MetaStore, vol: Seq<char>, i: u32, limit: u64, now: u64) -> bool {
    has_bucket(db.buckets@, vol, i) || meta_consistent(first_row(limit, now), vol, i, db.blocks@, db.delete_queue@)
}

/// How many buckets a volume mounted at `point` gets: the count for the first
/// mount at `point`, capped at the largest 32-bit value; none without one.
pub open spec fn layout_count(mounts: Seq<MountInfo>, point: Seq<char>, limit: u64) -> int {
    if exists|i: int| first_mount_at(mounts, point, i) {
        let i = choose|i: int| first_mount_at(mounts, point, i);
        let c = cnt_buckets_spec(mounts[i].total, limit);
        if c > u32::MAX {
            u32::MAX as int
        } else {
            c
        }
    } else {
        0
    }
}

fn mount_position(mounts: &Vec<MountInfo>, point: &String) -> (r: Option<usize>)
    ensures
        match r {
            Some(i) => first_mount_at(mounts@, point@, i as int),
            None => forall|j: int| 0 <= j < mounts@.len() ==> #[trigger] mounts@[j].mounted_on@ != point@,
        },
{
    let mut i: usize = 0;
    while i < mounts.len()
        invariant
            i <= mounts@.len(),
            forall|j: int| 0 <= j < i ==> #[trigger] mounts@[j].mounted_on@ != point@,
        decreases mounts@.len() - i,
    {
        if mounts[i].mounted_on == *point {
            return Some(i);
        }
        i = i + 1;
    }
    None
}

impl Volume {
    /// Lays the volume out at `canonical_path`, mounted at `mountpoint`. Its
    /// id is the SHA-1 hex of the path. The first mount at `mountpoint` gives
    /// the device and the size, from which the bucket count follows; buckets
    /// `1..=count` live at `<path>/<i>` with `bucket_size_limit` bytes each,
    /// and each is bootstrapped against its row. A first volume row is
    /// written where none exists. The object count is the sum of the
    /// buckets' block counts. Fails where a bucket's bootstrap fails.
    pub fn bootstrap(
        &mut self,
        canonical_path: String,
        mountpoint: String,
        mounts: &Vec<MountInfo>,
        bucket_size_limit: u64,
        db: &mut MetaStore,
        now: u64,
    ) -> (r: Result<bool, ()>)
        requires
            old(db).wf(),
            bucket_size_limit > 0,
        ensures
            final(db).wf(),
            final(db).blocks == old(db).blocks,
            final(db).delete_queue == old(db).delete_queue,
            r is Ok <==> forall|j: int|
                1 <= j <= layout_count(mounts@, mountpoint@, bucket_size_limit) ==> bucket_ready(
                    *old(db),
                    sha1_hex_of(canonical_path@),
                    #[trigger] (j as u32),
                    bucket_size_limit,
                    now,
                ),
            r is Ok ==> {
                &&& final(self).id@ == sha1_hex_of(canonical_path@)
                &&& final(self).path == canonical_path
                &&& final(self).mountpoint == mountpoint
                &&& final(self).active_slots == 0
                &&& final(self).cnt_objects == capped(bucket_total(final(self).buckets@, 0))
                &&& has_volume(final(db).volumes@, final(self).id@)
                &&& (forall|j: int| 0 <= j < mounts@.len() ==> #[trigger] mounts@[j].mounted_on@ != mountpoint@)
                    ==> final(self).buckets@.len() == 0 && final(self).dev@.len() == 0
                &&& forall|i: int| #[trigger] first_mount_at(mounts@, mountpoint@, i) ==> {
                    &&& final(self).dev == mounts@[i].mounted_from
                    &&& final(self).buckets@.len() == cnt_buckets_spec(mounts@[i].total, bucket_size_limit)
                        || (cnt_buckets_spec(mounts@[i].total, bucket_size_limit) > u32::MAX
                        && final(self).buckets@.len() == u32::MAX)
                }
                &&& forall|j: int|
                    0 <= j < final(self).buckets@.len() ==> {
                        let b = #[trigger] final(self).buckets@[j];
                        &&& b.id == j + 1
                        &&& b.volume_id == final(self).id
                        &&& b.path@ == bucket_path(canonical_path@, (j + 1) as nat)
                        &&& has_bucket(final(db).buckets@, b.volume_id@, b.id)
                    }
            },
    {
        let id = sha1_hex(canonical_path.as_str());
        let mut buckets: Vec<Bucket> = Vec::new();
        let mut dev = String::new();
        let ghost mut chosen: int = -1;
        let ghost mut count: int = 0;
        match mount_position(mounts, &mountpoint) {
            Some(mi) => {
                proof {
                    chosen = mi as int;
                    assert forall|i: int| #[trigger] first_mount_at(mounts@, mountpoint@, i) implies i == chosen by {
                        if i < chosen {
                            assert(mounts@[i].mounted_on@ != mountpoint@);
                        }
                        if chosen < i {
                            assert(mounts@[chosen].mounted_on@ != mountpoint@);
                        }
                    }
                }
                dev = mounts[mi].mounted_from.clone();
                let cnt = Volume::volume_cnt_buckets(mounts[mi].total, bucket_size_limit);
                proof {
                    count = cnt as int;
                    assert(first_mount_at(mounts@, mountpoint@, chosen));
                    assert(count == layout_count(mounts@, mountpoint@, bucket_size_limit));
                }
                let mut i: u64 = 1;
                while i <= cnt as u64
                    invariant
                        db.wf(),
                        db.blocks == old(db).blocks,
                        db.delete_queue == old(db).delete_queue,
                        1 <= i <= cnt + 1,
                        count == cnt,
                        count == layout_count(mounts@, mountpoint@, bucket_size_limit),
                        id@ == sha1_hex_of(canonical_path@),
                        forall|j: int| 1 <= j < i ==> bucket_ready(
                            *old(db),
                            id@,
                            #[trigger] (j as u32),
                            bucket_size_limit,
                            now,
                        ),
                        forall|vol2: Seq<char>, bid2: u32|
                            #[trigger] has_bucket(db.buckets@, vol2, bid2) ==> has_bucket(old(db).buckets@, vol2, bid2)
                                || (vol2 == id@ && 1 <= bid2 < i),
                        forall|vol2: Seq<char>, bid2: u32|
                            has_bucket(old(db).buckets@, vol2, bid2) ==> #[trigger] has_bucket(db.buckets@, vol2, bid2),
                        buckets@.len() == i - 1,
                        forall|j: int|
                            0 <= j < buckets@.len() ==> {
                                let b = #[trigger] buckets@[j];
                                &&& b.id == j + 1
                                &&& b.volume_id == id
                                &&& b.path@ == bucket_path(canonical_path@, (j + 1) as nat)
                                &&& has_bucket(db.buckets@, b.volume_id@, b.id)
                            },
                    decreases cnt as int + 1 - i,
                {
                    let mut path = canonical_path.clone();
                    push_char(&mut path, '/');
                    push_decimal(i, &mut path);
                    let mut bucket = Bucket::new(i as u32, &id, &path, bucket_size_limit);
                    let ghost rows_before = db.buckets@;
                    let ghost kept = buckets@;
                    let ghost key = id@;
                    let ghost bid = i as u32;
                    proof {
                        assert(has_bucket(db.buckets@, key, bid) == has_bucket(old(db).buckets@, key, bid));
                    }
                    let ghost cur = *db;
                    if bucket.bootstrap(db, now).is_err() {
                        proof {
                            assert(!bucket_ready(*old(db), key, bid, bucket_size_limit, now));
                            assert(!bucket_ready(*old(db), id@, ((i as int) as u32), bucket_size_limit, now));
                        }
                        return Err(());
                    }
                    proof {
                        assert(bucket_ready(*old(db), key, bid, bucket_size_limit, now));
                        assert forall|vol2: Seq<char>, bid2: u32|
                            has_bucket(old(db).buckets@, vol2, bid2) implies #[trigger] has_bucket(db.buckets@, vol2, bid2) by {
                            assert(has_bucket(cur.buckets@, vol2, bid2));
                            let w = choose|w: int| 0 <= w < cur.buckets@.len() && crate::meta::row_is(#[trigger] cur.buckets@[w], vol2, bid2);
                            assert(has_bucket(db.buckets@, cur.buckets@[w].volume_id@, cur.buckets@[w].bucket_id));
                        }
                        assert forall|vol2: Seq<char>, bid2: u32|
                            #[trigger] has_bucket(db.buckets@, vol2, bid2) implies has_bucket(old(db).buckets@, vol2, bid2)
                                || (vol2 == id@ && 1 <= bid2 < i + 1) by {
                            if !has_bucket(cur.buckets@, vol2, bid2) {
                                assert(vol2 == key && bid2 == bid);
                            }
                        }
                        assert forall|j: int| 1 <= j < i + 1 implies bucket_ready(
                            *old(db),
                            id@,
                            #[trigger] (j as u32),
                            bucket_size_limit,
                            now,
                        ) by {
                            if j == i {
                                assert((j as u32) == bid);
                            }
                        }
                    }
                    proof {
                        assert forall|j: int| 0 <= j < kept.len() implies has_bucket(
                            db.buckets@,
                            (#[trigger] kept[j]).volume_id@,
                            kept[j].id,
                        ) by {
                            let b = kept[j];
                            let k = crate::meta::bucket_index(rows_before, b.volume_id@, b.id);
                            assert(crate::meta::row_is(rows_before[k], b.volume_id@, b.id));
                            assert(has_bucket(db.buckets@, rows_before[k].volume_id@, rows_before[k].bucket_id));
                        }
                    }
                    buckets.push(bucket);
                    i = i + 1;
                }
            },
            None => {},
        }
        let mut total: u64 = 0;
        let mut k: usize = 0;
        while k < buckets.len()
            invariant
                k <= buckets@.len(),
                total == capped(bucket_total(buckets@.take(k as int), 0)),
            decreases buckets@.len() - k,
        {
            proof {
                assert(buckets@.take(k + 1).drop_last() =~= buckets@.take(k as int));
            }
            total = total.saturating_add(buckets[k].cnt_blocks);
            k = k + 1;
        }
        assert(buckets@.take(k as int) =~= buckets@);
        if !VolumeMeta::exists_volume(db, &id) {
            let mut vm = VolumeMeta::new(now);
            vm.id = id.clone();
            vm.path = canonical_path.clone();
            let ghost vm_copy = vm;
            let _ = vm.upsert(db);
            assert(db.volumes@[db.volumes@.len() - 1] == vm_copy);
            assert(db.volumes@[db.volumes@.len() - 1].id@ == id@);
        }
        proof {
            assert forall|i: int| #[trigger] first_mount_at(mounts@, mountpoint@, i) implies i == chosen by {
                if chosen >= 0 {
                    if i < chosen {
                        assert(mounts@[i].mounted_on@ != mountpoint@);
                    }
                    if chosen < i {
                        assert(mounts@[chosen].mounted_on@ != mountpoint@);
                    }
                }
            }
        }
        self.id = id;
        self.path = canonical_path;
        self.mountpoint = mountpoint;
        self.dev = dev;
        self.buckets = buckets;
        self.cnt_objects = total;
        self.active_slots = 0;
        Ok(true)
    }
}

} // verus!
