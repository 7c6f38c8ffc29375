//! Properties that hold across the store's batches, the placer's counters and
//! a write read back.

use vstd::prelude::*;
use crate::ledger::{bytes_in, count_in};
use crate::meta::{
    adjust, bucket_consistent, has_id, index_of, row_is,
    row_of, BlockMeta, BucketDelta, MetaStore,
};
use crate::store::{can_store, purged, stored, tombstoned};
use crate::engine::{decoded_form, read_payload, write_prepared, BlockEngine, PendingWrite, WriteOptions};
use crate::bucket::Bucket;
use crate::disk::released_bucket;

verus! {

/// Every bucket row accounts for its capacity exactly: available bytes,
/// bytes owed back by pending purges, and the sizes of the live blocks in it
/// add up to the configured capacity.
pub proof fn bucket_bytes_balance(db: MetaStore, k: int)
    requires
        db.wf(),
        0 <= k < db.buckets@.len(),
    ensures
        db.buckets@[k].meta.avail_size_bytes + db.buckets@[k].meta.gc_size_bytes + bytes_in(
            db.blocks@,
            db.buckets@[k].volume_id@,
            db.buckets@[k].bucket_id,
        ) == db.buckets@[k].meta.init_size_bytes,
{
    assert(bucket_consistent(db.buckets@[k], db.blocks@, db.delete_queue@));
}

/// Every bucket row's block count is the number of live blocks in it.
pub proof fn bucket_count_matches(db: MetaStore, k: int)
    requires
        db.wf(),
        0 <= k < db.buckets@.len(),
    ensures
        db.buckets@[k].meta.cnt_blocks == count_in(
            db.blocks@,
            db.buckets@[k].volume_id@,
            db.buckets@[k].bucket_id,
        ),
{
    assert(bucket_consistent(db.buckets@[k], db.blocks@, db.delete_queue@));
}

/// A block id is at most once in the store: never both live and
/// tombstoned, and never twice in either family.
pub proof fn id_in_one_family(db: MetaStore, id: Seq<char>)
    requires
        db.wf(),
    ensures
        !(has_id(db.blocks@, id) && has_id(db.delete_queue@, id)),
        forall|i: int, j: int|
            0 <= i < db.blocks@.len() && 0 <= j < db.blocks@.len() && db.blocks@[i].id@ == id
                && db.blocks@[j].id@ == id ==> i == j,
        forall|i: int, j: int|
            0 <= i < db.delete_queue@.len() && 0 <= j < db.delete_queue@.len()
                && db.delete_queue@[i].id@ == id && db.delete_queue@[j].id@ == id ==> i == j,
{
    if has_id(db.blocks@, id) && has_id(db.delete_queue@, id) {
        let i = choose|i: int| 0 <= i < db.blocks@.len() && #[trigger] db.blocks@[i].id@ == id;
        let j = choose|j: int| 0 <= j < db.delete_queue@.len() && #[trigger] db.delete_queue@[j].id@ == id;
        assert(db.blocks@[i].id@ != db.delete_queue@[j].id@);
    }
}

/// Once a block has been tombstoned it is no longer live, so deleting it
/// again finds nothing.
pub proof fn tombstoned_is_gone(m1: MetaStore, m2: MetaStore, id: Seq<char>)
    requires
        m1.wf(),
        has_id(m1.blocks@, id),
        tombstoned(m1, m2, id),
    ensures
        !has_id(m2.blocks@, id),
        has_id(m2.delete_queue@, id),
{
    let i = index_of(m1.blocks@, id);
    assert(m1.blocks@[i].id@ == id);
    if has_id(m2.blocks@, id) {
        let j = choose|j: int| 0 <= j < m2.blocks@.len() && #[trigger] m2.blocks@[j].id@ == id;
        let j0 = if j < i { j } else { j + 1 };
        assert(m2.blocks@[j] == m1.blocks@[j0]);
        assert(m1.blocks@[j0].id@ == id);
    }
    let last = m2.delete_queue@.len() - 1;
    assert(m2.delete_queue@[last] == m1.blocks@[i]);
}

proof fn lemma_push_index(rows: Seq<BlockMeta>, b: BlockMeta)
    requires
        !has_id(rows, b.id@),
    ensures
        has_id(rows.push(b), b.id@),
        index_of(rows.push(b), b.id@) == rows.len(),
        row_of(rows.push(b), b.id@) == b,
        rows.push(b).remove(rows.len() as int) == rows,
{
    let n = rows.push(b);
    assert(n[rows.len() as int].id@ == b.id@);
    let i = index_of(n, b.id@);
    if i < rows.len() {
        assert(rows[i].id@ == b.id@);
    }
    assert(n.remove(rows.len() as int) =~= rows);
}

/// Writing a block live, tombstoning it, then purging its tombstone leaves
/// the store as it was before the write: the id is neither live nor
/// tombstoned, and every bucket row has its old counters.
pub proof fn store_delete_purge_restores(m0: MetaStore, m1: MetaStore, m2: MetaStore, m3: MetaStore, b: BlockMeta)
    requires
        m0.wf(),
        can_store(m0, b),
        stored(m0, m1, b),
        tombstoned(m1, m2, b.id@),
        purged(m2, m3, b.id@),
    ensures
        m3.blocks@ == m0.blocks@,
        m3.delete_queue@ == m0.delete_queue@,
        m3.buckets@ == m0.buckets@,
        m3.volumes@ == m0.volumes@,
        !has_id(m3.blocks@, b.id@),
        !has_id(m3.delete_queue@, b.id@),
{
    lemma_push_index(m0.blocks@, b);
    assert(m2.blocks@ == m0.blocks@);
    lemma_push_index(m0.delete_queue@, b);
    assert(m3.delete_queue@ == m0.delete_queue@);
    let vol = b.volume_id@;
    let bid = b.bucket_id;
    let s = b.size;
    assert forall|k: int| 0 <= k < m0.buckets@.len() implies #[trigger] m3.buckets@[k] == m0.buckets@[k] by {
        if row_is(m0.buckets@[k], vol, bid) {
            let r = m0.buckets@[k];
            assert(m1.buckets@[k].meta == adjust(r.meta, BucketDelta::Store(s)));
        }
    }
    assert(m3.buckets@ =~= m0.buckets@);
}

/// A prepared write reads back as the caller's payload: the row that
/// `finish_write` stores keeps the prepared row's compression flag, and its
/// stored bytes, read by a caller that does not accept compressed bytes, give
/// the payload back uncompressed.
pub proof fn written_payload_reads_back(
    o: BlockEngine,
    n: BlockEngine,
    p: PendingWrite,
    key: Seq<char>,
    object_id: Seq<char>,
    payload: Seq<u8>,
    options: WriteOptions,
    now: u64,
    b: BlockMeta,
)
    requires
        write_prepared(o, n, p, key, object_id, payload, options, now),
        b == (BlockMeta { crc: b.crc, ..p.meta }),
    ensures
        read_payload(b.compressed, Some(p.body@), false) == Some((payload, false)),
        decoded_form(p.body@, b.compressed) == Some(payload),
{
}

/// Ending a reservation on a volume and bucket that hold one lowers both
/// reservation counters by exactly one, whether or not a write is counted.
pub proof fn slot_release_ends_reservation(
    o: Seq<crate::volume::Volume>,
    n: Seq<crate::volume::Volume>,
    slot: crate::disk::WriteSlot,
    w: u64,
    vi: int,
    bi: int,
)
    requires
        crate::engine::released(o, n, slot, w),
        crate::disk::target(o, slot.volume_id@, slot.bucket_id, vi, bi),
        crate::disk::release_fits(o[vi], o[vi].buckets@[bi], w),
    ensures
        n[vi].active_slots == o[vi].active_slots - 1,
        n[vi].buckets@[bi].active_slots == o[vi].buckets@[bi].active_slots - 1,
        forall|j: int| 0 <= j < o.len() && j != vi ==> #[trigger] n[j] == o[j],
{
    assert(crate::disk::touched(
        o,
        n,
        vi,
        o[vi].active_slots - 1,
        if w > 0 {
            crate::disk::sat_inc(o[vi].cnt_objects) as int
        } else {
            o[vi].cnt_objects as int
        },
        bi,
        released_bucket(o[vi].buckets@[bi], w),
    ));
}

proof fn lemma_target_kept(
    o: Seq<crate::volume::Volume>,
    n: Seq<crate::volume::Volume>,
    vol: Seq<char>,
    bid: u32,
    vi: int,
    bi: int,
    active: int,
    objects: int,
    b: Bucket,
)
    requires
        crate::disk::target(o, vol, bid, vi, bi),
        crate::disk::touched(o, n, vi, active, objects, bi, b),
        b.id == o[vi].buckets@[bi].id,
    ensures
        crate::disk::target(n, vol, bid, vi, bi),
{
    assert forall|j: int| 0 <= j < vi implies #[trigger] n[j].id@ != vol by {
        assert(n[j] == o[j]);
    }
    assert forall|j: int| 0 <= j < bi implies #[trigger] n[vi].buckets@[j].id != bid by {
        assert(n[vi].buckets@[j] == o[vi].buckets@[j]);
    }
}

/// On the placer, a write reserved on a bucket, committed with `size`
/// bytes, then deleted and purged, leaves every volume and bucket counter as
/// it was before the reservation.
pub proof fn placer_round_trip(
    v0: Seq<crate::volume::Volume>,
    v1: Seq<crate::volume::Volume>,
    v2: Seq<crate::volume::Volume>,
    v3: Seq<crate::volume::Volume>,
    v4: Seq<crate::volume::Volume>,
    slot: crate::disk::WriteSlot,
    vi: int,
    bi: int,
    size: u64,
)
    requires
        crate::disk::target(v0, slot.volume_id@, slot.bucket_id, vi, bi),
        crate::disk::reserved(v0, v1, vi, bi),
        crate::engine::released(v1, v2, slot, size),
        crate::disk::object_deleted(v2, v3, slot.volume_id@, slot.bucket_id, size),
        crate::disk::object_purged(v3, v4, slot.volume_id@, slot.bucket_id, size),
        size > 0,
        v0[vi].cnt_objects < u64::MAX,
        v0[vi].active_slots < u64::MAX,
        v0[vi].buckets@[bi].active_slots < u64::MAX,
        v0[vi].buckets@[bi].cnt_blocks < u64::MAX,
        v0[vi].buckets@[bi].avail_size_bytes >= size,
        v0[vi].buckets@[bi].gc_size_bytes + size <= u64::MAX,
    ensures
        v4.len() == v0.len(),
        forall|j: int| 0 <= j < v0.len() && j != vi ==> #[trigger] v4[j] == v0[j],
        v4[vi].active_slots == v0[vi].active_slots,
        v4[vi].cnt_objects == v0[vi].cnt_objects,
        v4[vi].id == v0[vi].id,
        v4[vi].buckets@ == v0[vi].buckets@,
{
    let vol = slot.volume_id@;
    let bid = slot.bucket_id;
    let b0 = v0[vi].buckets@[bi];
    let r1 = Bucket { active_slots: (b0.active_slots + 1) as u64, ..b0 };
    assert(crate::disk::touched(v0, v1, vi, v0[vi].active_slots + 1, v0[vi].cnt_objects as int, bi, r1));
    lemma_target_kept(v0, v1, vol, bid, vi, bi, v0[vi].active_slots + 1, v0[vi].cnt_objects as int, r1);
    assert(v1[vi].buckets@[bi] == r1);
    assert(crate::disk::release_fits(v1[vi], v1[vi].buckets@[bi], size));
    let r2 = released_bucket(r1, size);
    let o2 = crate::disk::sat_inc(v1[vi].cnt_objects) as int;
    assert(crate::disk::touched(v1, v2, vi, v1[vi].active_slots - 1, o2, bi, r2));
    lemma_target_kept(v1, v2, vol, bid, vi, bi, v1[vi].active_slots - 1, o2, r2);
    assert(v2[vi].buckets@[bi] == r2);
    let r3 = Bucket {
        cnt_blocks: (r2.cnt_blocks - 1) as u64,
        gc_size_bytes: (r2.gc_size_bytes + size) as u64,
        ..r2
    };
    assert(crate::disk::touched(v2, v3, vi, v2[vi].active_slots as int, v2[vi].cnt_objects - 1, bi, r3));
    lemma_target_kept(v2, v3, vol, bid, vi, bi, v2[vi].active_slots as int, v2[vi].cnt_objects - 1, r3);
    assert(v3[vi].buckets@[bi] == r3);
    let r4 = Bucket {
        gc_size_bytes: (r3.gc_size_bytes - size) as u64,
        avail_size_bytes: (r3.avail_size_bytes + size) as u64,
        ..r3
    };
    assert(crate::disk::touched(v3, v4, vi, v3[vi].active_slots as int, v3[vi].cnt_objects as int, bi, r4));
    assert(r4 == b0);
    assert(v4[vi].buckets@ =~= v0[vi].buckets@);
}

} // verus!
