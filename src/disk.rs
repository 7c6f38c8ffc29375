//! The placer: picks a (volume, bucket) pair for each write under the
//! load-balancing rule, and keeps the in-memory counters of every volume and
//! bucket.

use vstd::prelude::*;
use crate::bucket::Bucket;
use crate::codec::{fresh_uuid_hex, is_lower_hex};
use crate::text::push_char;
use crate::volume::{volume_with, Volume};

verus! {

/// A reservation for one upcoming block write.
#[derive(Debug, Clone, PartialEq)]
pub struct WriteSlot {
    pub volume_id: String,
    pub bucket_id: u32,
    pub file_path: String,
}

/// The in-memory picture of all volumes, in registration order.
#[derive(Debug)]
pub struct Disk {
    pub volumes: Vec<Volume>,
}

/// `i` is the first volume of least load.
pub open spec fn first_least_volume(vs: Seq<Volume>, i: int) -> bool {
    &&& 0 <= i < vs.len()
    &&& forall|j: int| 0 <= j < vs.len() ==> vs[i].load() <= #[trigger] vs[j].load()
    &&& forall|j: int| 0 <= j < i ==> #[trigger] vs[j].load() > vs[i].load()
}

/// `i` is the first bucket of least load.
pub open spec fn first_least_bucket(bs: Seq<Bucket>, i: int) -> bool {
    &&& 0 <= i < bs.len()
    &&& forall|j: int| 0 <= j < bs.len() ==> bs[i].load() <= #[trigger] bs[j].load()
    &&& forall|j: int| 0 <= j < i ==> #[trigger] bs[j].load() > bs[i].load()
}

/// `i` is the first volume with id `id`.
pub open spec fn first_volume_with(vs: Seq<Volume>, id: Seq<char>, i: int) -> bool {
    &&& 0 <= i < vs.len()
    &&& vs[i].id@ == id
    &&& forall|j: int| 0 <= j < i ==> #[trigger] vs[j].id@ != id
}

pub open spec fn has_volume_id(vs: Seq<Volume>, id: Seq<char>) -> bool {
    exists|i: int| 0 <= i < vs.len() && #[trigger] vs[i].id@ == id
}

/// `i` is the first bucket with id `id`.
pub open spec fn first_bucket_with(bs: Seq<Bucket>, id: u32, i: int) -> bool {
    &&& 0 <= i < bs.len()
    &&& bs[i].id == id
    &&& forall|j: int| 0 <= j < i ==> #[trigger] bs[j].id != id
}

pub open spec fn has_bucket_id(bs: Seq<Bucket>, id: u32) -> bool {
    exists|i: int| 0 <= i < bs.len() && #[trigger] bs[i].id == id
}

fn least_volume(vs: &Vec<Volume>) -> (r: usize)
    requires
        vs@.len() > 0,
    ensures
        first_least_volume(vs@, r as int),
{
    let mut best: usize = 0;
    let mut i: usize = 1;
    while i < vs.len()
        invariant
            1 <= i <= vs@.len(),
            best < i,
            forall|j: int| 0 <= j < i ==> vs@[best as int].load() <= #[trigger] vs@[j].load(),
            forall|j: int| 0 <= j < best ==> #[trigger] vs@[j].load() > vs@[best as int].load(),
        decreases vs@.len() - i,
    {
        let li = vs[i].cnt_objects as u128 + vs[i].active_slots as u128;
        let lb = vs[best].cnt_objects as u128 + vs[best].active_slots as u128;
        if li < lb {
            best = i;
        }
        i = i + 1;
    }
    best
}

fn least_bucket(bs: &Vec<Bucket>) -> (r: usize)
    requires
        bs@.len() > 0,
    ensures
        first_least_bucket(bs@, r as int),
{
    let mut best: usize = 0;
    let mut i: usize = 1;
    while i < bs.len()
        invariant
            1 <= i <= bs@.len(),
            best < i,
            forall|j: int| 0 <= j < i ==> bs@[best as int].load() <= #[trigger] bs@[j].load(),
            forall|j: int| 0 <= j < best ==> #[trigger] bs@[j].load() > bs@[best as int].load(),
        decreases bs@.len() - i,
    {
        let li = bs[i].cnt_blocks as u128 + bs[i].active_slots as u128;
        let lb = bs[best].cnt_blocks as u128 + bs[best].active_slots as u128;
        if li < lb {
            best = i;
        }
        i = i + 1;
    }
    best
}

fn volume_position(vs: &Vec<Volume>, id: &String) -> (r: Option<usize>)
    ensures
        match r {
            Some(i) => first_volume_with(vs@, id@, i as int),
            None => !has_volume_id(vs@, id@),
        },
{
    let mut i: usize = 0;
    while i < vs.len()
        invariant
            i <= vs@.len(),
            forall|j: int| 0 <= j < i ==> #[trigger] vs@[j].id@ != id@,
        decreases vs@.len() - i,
    {
        if vs[i].id == *id {
            return Some(i);
        }
        i = i + 1;
    }
    None
}

fn bucket_position(bs: &Vec<Bucket>, id: u32) -> (r: Option<usize>)
    ensures
        match r {
            Some(i) => first_bucket_with(bs@, id, i as int),
            None => !has_bucket_id(bs@, id),
        },
{
    let mut i: usize = 0;
    while i < bs.len()
        invariant
            i <= bs@.len(),
            forall|j: int| 0 <= j < i ==> #[trigger] bs@[j].id != id,
        decreases bs@.len() - i,
    {
        if bs[i].id == id {
            return Some(i);
        }
        i = i + 1;
    }
    None
}

/// The volume and bucket indexes that a reservation would pick, where it can.
pub open spec fn placement(vs: Seq<Volume>, vi: int, bi: int) -> bool {
    &&& first_least_volume(vs, vi)
    &&& first_least_bucket(vs[vi].buckets@, bi)
}

/// Whether a reservation can be made: there is a volume, the least loaded one
/// has a bucket, and neither reservation counter is saturated.
pub open spec fn can_reserve(vs: Seq<Volume>) -> bool {
    &&& vs.len() > 0
    &&& forall|vi: int| first_least_volume(vs, vi) ==> {
        &&& (#[trigger] vs[vi]).buckets@.len() > 0
        &&& vs[vi].active_slots < u64::MAX
        &&& forall|bi: int| first_least_bucket(vs[vi].buckets@, bi)
            ==> (#[trigger] vs[vi].buckets@[bi]).active_slots < u64::MAX
    }
}

/// `n` is `o` with one more reservation on bucket `bi` of volume `vi`.
pub open spec fn reserved(o: Seq<Volume>, n: Seq<Volume>, vi: int, bi: int) -> bool {
    &&& n.len() == o.len()
    &&& forall|j: int| 0 <= j < o.len() && j != vi ==> #[trigger] n[j] == o[j]
    &&& volume_with(
        o[vi],
        n[vi],
        o[vi].active_slots + 1,
        o[vi].cnt_objects as int,
        bi,
        Bucket { active_slots: (o[vi].buckets@[bi].active_slots + 1) as u64, ..o[vi].buckets@[bi] },
    )
}

proof fn lemma_first_least_unique(vs: Seq<Volume>, a: int, b: int)
    requires
        first_least_volume(vs, a),
        first_least_volume(vs, b),
    ensures
        a == b,
{
    if a < b {
        assert(vs[a].load() > vs[b].load());
    } else if b < a {
        assert(vs[b].load() > vs[a].load());
    }
}

proof fn lemma_first_least_bucket_unique(bs: Seq<Bucket>, a: int, b: int)
    requires
        first_least_bucket(bs, a),
        first_least_bucket(bs, b),
    ensures
        a == b,
{
    if a < b {
        assert(bs[a].load() > bs[b].load());
    } else if b < a {
        assert(bs[b].load() > bs[a].load());
    }
}

impl Disk {
    /// No volumes.
    pub fn new() -> (r: Disk)
        ensures
            r.volumes@.len() == 0,
    {
        Disk { volumes: Vec::new() }
    }

    /// Registers `volumes`, in order, in place of any before.
    pub fn init_volumes(&mut self, volumes: Vec<Volume>)
        ensures
            final(self).volumes@ == volumes@,
    {
        self.volumes = volumes;
    }

    /// Reserves a slot for a file named `file_name`: the first volume of least
    /// load (objects plus reservations), then its first bucket of least load
    /// (blocks plus reservations); both reservation counters go up by one.
    /// The slot's path is the bucket's path, a slash, then `file_name`. Where
    /// no slot can be had, nothing changes.
    pub fn get_write_slot_named(&mut self, file_name: &String) -> (r: Result<WriteSlot, ()>)
        ensures
            r is Ok <==> can_reserve(old(self).volumes@),
            r matches Ok(slot) ==> exists|vi: int, bi: int|
                #![trigger placement(old(self).volumes@, vi, bi)]
                {
                    let b = old(self).volumes@[vi].buckets@[bi];
                    &&& placement(old(self).volumes@, vi, bi)
                    &&& reserved(old(self).volumes@, final(self).volumes@, vi, bi)
                    &&& slot.volume_id == old(self).volumes@[vi].id
                    &&& slot.bucket_id == b.id
                    &&& slot.file_path@ == b.path@.push('/') + file_name@
                },
            r is Err ==> final(self).volumes@ == old(self).volumes@,
    {
        let ghost vs0 = self.volumes@;
        if self.volumes.len() == 0 {
            return Err(());
        }
        let vi = least_volume(&self.volumes);
        if self.volumes[vi].buckets.len() == 0 || self.volumes[vi].active_slots == u64::MAX {
            proof {
                assert forall|v2: int| first_least_volume(vs0, v2) implies v2 == vi by {
                    lemma_first_least_unique(vs0, v2, vi as int);
                }
            }
            return Err(());
        }
        let bi = least_bucket(&self.volumes[vi].buckets);
        if self.volumes[vi].buckets[bi].active_slots == u64::MAX {
            proof {
                assert forall|v2: int| first_least_volume(vs0, v2) implies v2 == vi by {
                    lemma_first_least_unique(vs0, v2, vi as int);
                }
            }
            return Err(());
        }
        proof {
            assert forall|v2: int| first_least_volume(vs0, v2) implies {
                &&& (#[trigger] vs0[v2]).buckets@.len() > 0
                &&& vs0[v2].active_slots < u64::MAX
                &&& forall|b2: int| first_least_bucket(vs0[v2].buckets@, b2)
                    ==> (#[trigger] vs0[v2].buckets@[b2]).active_slots < u64::MAX
            } by {
                lemma_first_least_unique(vs0, v2, vi as int);
                assert forall|b2: int| first_least_bucket(vs0[v2].buckets@, b2) implies (
                #[trigger] vs0[v2].buckets@[b2]).active_slots < u64::MAX by {
                    lemma_first_least_bucket_unique(vs0[v2].buckets@, b2, bi as int);
                }
            }
        }
        let mut path = self.volumes[vi].buckets[bi].path.clone();
        push_char(&mut path, '/');
        path.append(file_name.as_str());
        let slot = WriteSlot {
            volume_id: self.volumes[vi].id.clone(),
            bucket_id: self.volumes[vi].buckets[bi].id,
            file_path: path,
        };
        let ghost ob = vs0[vi as int].buckets@[bi as int];
        self.volumes[vi].active_slots = self.volumes[vi].active_slots + 1;
        self.volumes[vi].buckets[bi].active_slots = self.volumes[vi].buckets[bi].active_slots + 1;
        proof {
            assert(self.volumes@[vi as int].buckets@ =~= vs0[vi as int].buckets@.update(
                bi as int,
                Bucket { active_slots: (ob.active_slots + 1) as u64, ..ob },
            ));
            assert(placement(vs0, vi as int, bi as int));
            assert(reserved(vs0, self.volumes@, vi as int, bi as int));
        }
        Ok(slot)
    }

    /// Reserves a slot whose file gets a fresh random name (32 hex digits);
    /// see `get_write_slot_named`.
    pub fn get_write_slot(&mut self) -> (r: Result<WriteSlot, ()>)
        ensures
            r is Ok <==> can_reserve(old(self).volumes@),
            r matches Ok(slot) ==> exists|vi: int, bi: int|
                #![trigger placement(old(self).volumes@, vi, bi)]
                {
                    let b = old(self).volumes@[vi].buckets@[bi];
                    &&& placement(old(self).volumes@, vi, bi)
                    &&& reserved(old(self).volumes@, final(self).volumes@, vi, bi)
                    &&& slot.volume_id == old(self).volumes@[vi].id
                    &&& slot.bucket_id == b.id
                    &&& slot.file_path@.len() == b.path@.len() + 33
                    &&& slot.file_path@.subrange(0, b.path@.len() as int + 1) == b.path@.push('/')
                    &&& forall|k: int|
                        b.path@.len() + 1 <= k < slot.file_path@.len() ==> is_lower_hex(#[trigger] slot.file_path@[k])
                },
            r is Err ==> final(self).volumes@ == old(self).volumes@,
    {
        let name = fresh_uuid_hex();
        let r = self.get_write_slot_named(&name);
        proof {
            if r is Ok {
                let slot = r->Ok_0;
                let (vi, bi) = choose|vi: int, bi: int|
                    #![trigger placement(old(self).volumes@, vi, bi)]
                    {
                        let b = old(self).volumes@[vi].buckets@[bi];
                        &&& placement(old(self).volumes@, vi, bi)
                        &&& reserved(old(self).volumes@, self.volumes@, vi, bi)
                        &&& slot.volume_id == old(self).volumes@[vi].id
                        &&& slot.bucket_id == b.id
                        &&& slot.file_path@ == b.path@.push('/') + name@
                    };
                let b = old(self).volumes@[vi].buckets@[bi];
                assert(slot.file_path@.subrange(0, b.path@.len() as int + 1) =~= b.path@.push('/'));
                assert forall|k: int|
                    b.path@.len() + 1 <= k < slot.file_path@.len() implies is_lower_hex(#[trigger] slot.file_path@[k]) by {
                    assert(slot.file_path@[k] == name@[k - b.path@.len() - 1]);
                }
            }
        }
        r
    }
}

/// Volume `vi` is the first with id `vol`, and bucket `bi` the first in it
/// with id `bid`.
pub open spec fn target(vs: Seq<Volume>, vol: Seq<char>, bid: u32, vi: int, bi: int) -> bool {
    &&& first_volume_with(vs, vol, vi)
    &&& first_bucket_with(vs[vi].buckets@, bid, bi)
}

/// `n` is `o` with volume `vi` given these counters and bucket `bi` replaced
/// by `b`, everything else kept.
pub open spec fn touched(o: Seq<Volume>, n: Seq<Volume>, vi: int, active: int, objects: int, bi: int, b: Bucket) -> bool {
    &&& n.len() == o.len()
    &&& forall|j: int| 0 <= j < o.len() && j != vi ==> #[trigger] n[j] == o[j]
    &&& volume_with(o[vi], n[vi], active, objects, bi, b)
}

/// Whether ending a reservation that wrote `w` bytes can be recorded on
/// volume `v`, bucket `b`.
pub open spec fn release_fits(v: Volume, b: Bucket, w: u64) -> bool {
    &&& v.active_slots >= 1
    &&& b.active_slots >= 1
}

/// One more, except at the largest 64-bit value.
pub open spec fn sat_inc(x: u64) -> u64 {
    if x < u64::MAX {
        (x + 1) as u64
    } else {
        x
    }
}

/// `x - y`, or zero where `y` is larger.
pub open spec fn sat_sub(x: u64, y: u64) -> u64 {
    if x >= y {
        (x - y) as u64
    } else {
        0
    }
}

/// Bucket `b` after a reservation that wrote `w` bytes ends.
pub open spec fn released_bucket(b: Bucket, w: u64) -> Bucket {
    Bucket {
        active_slots: (b.active_slots - 1) as u64,
        cnt_blocks: if w > 0 {
            sat_inc(b.cnt_blocks)
        } else {
            b.cnt_blocks
        },
        avail_size_bytes: sat_sub(b.avail_size_bytes, w),
        ..b
    }
}

/// Whether the deletion of a `bytes`-sized block can be recorded on bucket
/// `bid` of volume `vol`.
pub open spec fn can_delete_object(vs: Seq<Volume>, vol: Seq<char>, bid: u32, bytes: u64) -> bool {
    exists|vi: int, bi: int|
        #[trigger] target(vs, vol, bid, vi, bi) && vs[vi].cnt_objects >= 1 && vs[vi].buckets@[bi].cnt_blocks
            >= 1 && vs[vi].buckets@[bi].gc_size_bytes + bytes <= u64::MAX
}

/// `n` is `o` with one object and block fewer on that bucket, and `bytes`
/// more owed back.
pub open spec fn object_deleted(o: Seq<Volume>, n: Seq<Volume>, vol: Seq<char>, bid: u32, bytes: u64) -> bool {
    forall|vi: int, bi: int|
        #[trigger] target(o, vol, bid, vi, bi) ==> {
            let v = o[vi];
            let b = v.buckets@[bi];
            touched(
                o,
                n,
                vi,
                v.active_slots as int,
                v.cnt_objects - 1,
                bi,
                Bucket {
                    cnt_blocks: (b.cnt_blocks - 1) as u64,
                    gc_size_bytes: (b.gc_size_bytes + bytes) as u64,
                    ..b
                },
            )
        }
}

/// Whether the purge of a `bytes`-sized block can be recorded on bucket
/// `bid` of volume `vol`.
pub open spec fn can_purge_object(vs: Seq<Volume>, vol: Seq<char>, bid: u32, bytes: u64) -> bool {
    exists|vi: int, bi: int|
        #[trigger] target(vs, vol, bid, vi, bi) && vs[vi].buckets@[bi].gc_size_bytes >= bytes
            && vs[vi].buckets@[bi].avail_size_bytes + bytes <= u64::MAX
}

/// `n` is `o` with `bytes` moved from owed back to available on that bucket.
pub open spec fn object_purged(o: Seq<Volume>, n: Seq<Volume>, vol: Seq<char>, bid: u32, bytes: u64) -> bool {
    forall|vi: int, bi: int|
        #[trigger] target(o, vol, bid, vi, bi) ==> {
            let v = o[vi];
            let b = v.buckets@[bi];
            touched(
                o,
                n,
                vi,
                v.active_slots as int,
                v.cnt_objects as int,
                bi,
                Bucket {
                    gc_size_bytes: (b.gc_size_bytes - bytes) as u64,
                    avail_size_bytes: (b.avail_size_bytes + bytes) as u64,
                    ..b
                },
            )
        }
}

proof fn lemma_target_unique(vs: Seq<Volume>, vol: Seq<char>, bid: u32, a: int, b: int, c: int, d: int)
    requires
        target(vs, vol, bid, a, b),
        target(vs, vol, bid, c, d),
    ensures
        a == c,
        b == d,
{
    if a < c {
        assert(vs[a].id@ != vol);
    }
    if c < a {
        assert(vs[c].id@ != vol);
    }
    let bs = vs[a].buckets@;
    if b < d {
        assert(bs[b].id != bid);
    }
    if d < b {
        assert(bs[d].id != bid);
    }
}

impl Disk {
    fn locate(&self, vol: &String, bid: u32) -> (r: Option<(usize, usize)>)
        ensures
            match r {
                Some((vi, bi)) => target(self.volumes@, vol@, bid, vi as int, bi as int),
                None => forall|vi: int, bi: int| !#[trigger] target(self.volumes@, vol@, bid, vi, bi),
            },
    {
        match volume_position(&self.volumes, vol) {
            Some(vi) => match bucket_position(&self.volumes[vi].buckets, bid) {
                Some(bi) => Some((vi, bi)),
                None => {
                    proof {
                        assert forall|v2: int, b2: int| !#[trigger] target(self.volumes@, vol@, bid, v2, b2) by {
                            if target(self.volumes@, vol@, bid, v2, b2) {
                                if v2 < vi {
                                    assert(self.volumes@[v2].id@ != vol@);
                                }
                                if vi < v2 {
                                    assert(self.volumes@[vi as int].id@ != vol@);
                                }
                                assert(self.volumes@[v2].buckets@[b2].id == bid);
                            }
                        }
                    }
                    None
                },
            },
            None => {
                proof {
                    assert forall|v2: int, b2: int| !#[trigger] target(self.volumes@, vol@, bid, v2, b2) by {
                        if target(self.volumes@, vol@, bid, v2, b2) {
                            assert(self.volumes@[v2].id@ == vol@);
                        }
                    }
                }
                None
            },
        }
    }

    /// Ends the reservation `slot` on its volume and bucket: both reservation
    /// counters drop by one. Where `written_bytes` is positive the write is
    /// counted too, each counter kept within its range: one more object on the
    /// volume, one more block on the bucket, and that many fewer available
    /// bytes (down to zero). Where the slot's volume or bucket is unknown, or
    /// holds no reservation, nothing changes.
    pub fn release_write_slot(&mut self, slot: WriteSlot, written_bytes: u64) -> (r: Result<bool, ()>)
        ensures
            r is Ok <==> exists|vi: int, bi: int|
                #[trigger] target(old(self).volumes@, slot.volume_id@, slot.bucket_id, vi, bi)
                    && release_fits(old(self).volumes@[vi], old(self).volumes@[vi].buckets@[bi], written_bytes),
            r is Ok ==> r == Ok::<bool, ()>(true),
            r is Ok ==> forall|vi: int, bi: int|
                #[trigger] target(old(self).volumes@, slot.volume_id@, slot.bucket_id, vi, bi) ==> {
                    let v = old(self).volumes@[vi];
                    touched(
                        old(self).volumes@,
                        final(self).volumes@,
                        vi,
                        v.active_slots - 1,
                        if written_bytes > 0 {
                            sat_inc(v.cnt_objects) as int
                        } else {
                            v.cnt_objects as int
                        },
                        bi,
                        released_bucket(v.buckets@[bi], written_bytes),
                    )
                },
            r is Err ==> final(self).volumes@ == old(self).volumes@,
    {
        let ghost vs0 = self.volumes@;
        let (vi, bi) = match self.locate(&slot.volume_id, slot.bucket_id) {
            Some(p) => p,
            None => return Err(()),
        };
        let w = written_bytes;
        let v_active = self.volumes[vi].active_slots;
        let v_cnt = self.volumes[vi].cnt_objects;
        let b_active = self.volumes[vi].buckets[bi].active_slots;
        let b_cnt = self.volumes[vi].buckets[bi].cnt_blocks;
        let b_avail = self.volumes[vi].buckets[bi].avail_size_bytes;
        if v_active == 0 || b_active == 0 {
            proof {
                assert forall|v2: int, b2: int|
                    #[trigger] target(vs0, slot.volume_id@, slot.bucket_id, v2, b2) implies !release_fits(
                    vs0[v2],
                    vs0[v2].buckets@[b2],
                    w,
                ) by {
                    lemma_target_unique(vs0, slot.volume_id@, slot.bucket_id, v2, b2, vi as int, bi as int);
                }
            }
            return Err(());
        }
        let ghost ob = vs0[vi as int].buckets@[bi as int];
        self.volumes[vi].active_slots = v_active - 1;
        self.volumes[vi].buckets[bi].active_slots = b_active - 1;
        if w > 0 {
            self.volumes[vi].cnt_objects = v_cnt.saturating_add(1);
            self.volumes[vi].buckets[bi].cnt_blocks = b_cnt.saturating_add(1);
            self.volumes[vi].buckets[bi].avail_size_bytes = b_avail.saturating_sub(w);
        }
        proof {
            assert(self.volumes@[vi as int].buckets@ =~= vs0[vi as int].buckets@.update(
                bi as int,
                released_bucket(ob, w),
            ));
            assert(target(vs0, slot.volume_id@, slot.bucket_id, vi as int, bi as int));
            assert forall|v2: int, b2: int|
                #[trigger] target(vs0, slot.volume_id@, slot.bucket_id, v2, b2) implies v2 == vi && b2 == bi by {
                lemma_target_unique(vs0, slot.volume_id@, slot.bucket_id, v2, b2, vi as int, bi as int);
            }
        }
        Ok(true)
    }

    /// Records that a live block of `deleted_bytes` left bucket `bucket_id` of
    /// volume `volume_id`: one object and one block fewer, and its bytes owed
    /// back as reclaimable. Where either is unknown, or a counter would leave
    /// its range, nothing changes.
    pub fn delete_object(&mut self, volume_id: &String, bucket_id: u32, deleted_bytes: u64) -> (r: Result<(), ()>)
        ensures
            r is Ok <==> can_delete_object(old(self).volumes@, volume_id@, bucket_id, deleted_bytes),
            r is Ok ==> object_deleted(old(self).volumes@, final(self).volumes@, volume_id@, bucket_id, deleted_bytes),
            r is Err ==> final(self).volumes@ == old(self).volumes@,
    {
        let ghost vs0 = self.volumes@;
        let (vi, bi) = match self.locate(volume_id, bucket_id) {
            Some(p) => p,
            None => return Err(()),
        };
        let v_cnt = self.volumes[vi].cnt_objects;
        let b_cnt = self.volumes[vi].buckets[bi].cnt_blocks;
        let b_gc = self.volumes[vi].buckets[bi].gc_size_bytes;
        if v_cnt == 0 || b_cnt == 0 || b_gc > u64::MAX - deleted_bytes {
            proof {
                assert forall|v2: int, b2: int| #[trigger] target(vs0, volume_id@, bucket_id, v2, b2) implies !(
                vs0[v2].cnt_objects >= 1 && vs0[v2].buckets@[b2].cnt_blocks >= 1
                    && vs0[v2].buckets@[b2].gc_size_bytes + deleted_bytes <= u64::MAX) by {
                    lemma_target_unique(vs0, volume_id@, bucket_id, v2, b2, vi as int, bi as int);
                }
            }
            return Err(());
        }
        let ghost ob = vs0[vi as int].buckets@[bi as int];
        self.volumes[vi].cnt_objects = v_cnt - 1;
        self.volumes[vi].buckets[bi].cnt_blocks = b_cnt - 1;
        self.volumes[vi].buckets[bi].gc_size_bytes = b_gc + deleted_bytes;
        proof {
            assert(self.volumes@[vi as int].buckets@ =~= vs0[vi as int].buckets@.update(
                bi as int,
                Bucket {
                    cnt_blocks: (ob.cnt_blocks - 1) as u64,
                    gc_size_bytes: (ob.gc_size_bytes + deleted_bytes) as u64,
                    ..ob
                },
            ));
            assert(target(vs0, volume_id@, bucket_id, vi as int, bi as int));
            assert forall|v2: int, b2: int| #[trigger] target(vs0, volume_id@, bucket_id, v2, b2) implies v2
                == vi && b2 == bi by {
                lemma_target_unique(vs0, volume_id@, bucket_id, v2, b2, vi as int, bi as int);
            }
        }
        Ok(())
    }

    /// Records that a tombstoned block of `deleted_bytes` in bucket
    /// `bucket_id` of volume `volume_id` was purged: its bytes move from
    /// reclaimable to available. Where either is unknown, or a counter would
    /// leave its range, nothing changes.
    pub fn purge_object(&mut self, volume_id: &String, bucket_id: u32, deleted_bytes: u64) -> (r: Result<(), ()>)
        ensures
            r is Ok <==> can_purge_object(old(self).volumes@, volume_id@, bucket_id, deleted_bytes),
            r is Ok ==> object_purged(old(self).volumes@, final(self).volumes@, volume_id@, bucket_id, deleted_bytes),
            r is Err ==> final(self).volumes@ == old(self).volumes@,
    {
        let ghost vs0 = self.volumes@;
        let (vi, bi) = match self.locate(volume_id, bucket_id) {
            Some(p) => p,
            None => return Err(()),
        };
        let b_gc = self.volumes[vi].buckets[bi].gc_size_bytes;
        let b_avail = self.volumes[vi].buckets[bi].avail_size_bytes;
        if b_gc < deleted_bytes || b_avail > u64::MAX - deleted_bytes {
            proof {
                assert forall|v2: int, b2: int| #[trigger] target(vs0, volume_id@, bucket_id, v2, b2) implies !(
                vs0[v2].buckets@[b2].gc_size_bytes >= deleted_bytes
                    && vs0[v2].buckets@[b2].avail_size_bytes + deleted_bytes <= u64::MAX) by {
                    lemma_target_unique(vs0, volume_id@, bucket_id, v2, b2, vi as int, bi as int);
                }
            }
            return Err(());
        }
        let ghost ob = vs0[vi as int].buckets@[bi as int];
        self.volumes[vi].buckets[bi].gc_size_bytes = b_gc - deleted_bytes;
        self.volumes[vi].buckets[bi].avail_size_bytes = b_avail + deleted_bytes;
        proof {
            assert(self.volumes@[vi as int].buckets@ =~= vs0[vi as int].buckets@.update(
                bi as int,
                Bucket {
                    gc_size_bytes: (ob.gc_size_bytes - deleted_bytes) as u64,
                    avail_size_bytes: (ob.avail_size_bytes + deleted_bytes) as u64,
                    ..ob
                },
            ));
            assert(target(vs0, volume_id@, bucket_id, vi as int, bi as int));
            assert forall|v2: int, b2: int| #[trigger] target(vs0, volume_id@, bucket_id, v2, b2) implies v2
                == vi && b2 == bi by {
                lemma_target_unique(vs0, volume_id@, bucket_id, v2, b2, vi as int, bi as int);
            }
        }
        Ok(())
    }
}

impl Disk {
    /// Whether `delete_object` would record this deletion.
    pub fn can_delete(&self, volume_id: &String, bucket_id: u32, deleted_bytes: u64) -> (r: bool)
        ensures
            r == can_delete_object(self.volumes@, volume_id@, bucket_id, deleted_bytes),
    {
        match self.locate(volume_id, bucket_id) {
            None => false,
            Some((vi, bi)) => {
                let v = &self.volumes[vi];
                let b = &v.buckets[bi];
                let ok = v.cnt_objects >= 1 && b.cnt_blocks >= 1 && b.gc_size_bytes <= u64::MAX - deleted_bytes;
                proof {
                    assert(target(self.volumes@, volume_id@, bucket_id, vi as int, bi as int));
                    assert forall|v2: int, b2: int| #[trigger] target(self.volumes@, volume_id@, bucket_id, v2, b2) implies v2
                        == vi && b2 == bi by {
                        lemma_target_unique(self.volumes@, volume_id@, bucket_id, v2, b2, vi as int, bi as int);
                    }
                }
                ok
            },
        }
    }

    /// Whether `purge_object` would record this purge.
    pub fn can_purge(&self, volume_id: &String, bucket_id: u32, deleted_bytes: u64) -> (r: bool)
        ensures
            r == can_purge_object(self.volumes@, volume_id@, bucket_id, deleted_bytes),
    {
        match self.locate(volume_id, bucket_id) {
            None => false,
            Some((vi, bi)) => {
                let b = &self.volumes[vi].buckets[bi];
                let ok = b.gc_size_bytes >= deleted_bytes && b.avail_size_bytes <= u64::MAX - deleted_bytes;
                proof {
                    assert(target(self.volumes@, volume_id@, bucket_id, vi as int, bi as int));
                    assert forall|v2: int, b2: int| #[trigger] target(self.volumes@, volume_id@, bucket_id, v2, b2) implies v2
                        == vi && b2 == bi by {
                        lemma_target_unique(self.volumes@, volume_id@, bucket_id, v2, b2, vi as int, bi as int);
                    }
                }
                ok
            },
        }
    }
}

} // verus!
