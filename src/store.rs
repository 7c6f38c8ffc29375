//! The metadata store's batches. Each one either applies whole or leaves the
//! store as it was, and keeps every bucket row consistent with the block rows.

use vstd::prelude::*;
use crate::digest::crc_of;
use crate::ledger::{lemma_member, lemma_push, lemma_remove, lemma_update};
use crate::catalog::find_bucket;
use crate::meta::{
    adjust_rows, bucket_consistent, bucket_of, buckets_unique, has_bucket,
    has_id, index_of, row_is, row_of, BlockMeta, BucketDelta, BucketMeta, MetaStore,
};

verus! {

/// Whether `b` can be written as a live row: its bucket has a row with room
/// for it, and its id is neither live nor awaiting purge.
pub open spec fn can_store(db: MetaStore, b: BlockMeta) -> bool {
    &&& has_bucket(db.buckets@, b.volume_id@, b.bucket_id)
    &&& !has_id(db.blocks@, b.id@)
    &&& !has_id(db.delete_queue@, b.id@)
    &&& bucket_of(db.buckets@, b.volume_id@, b.bucket_id).avail_size_bytes >= b.size
    &&& bucket_of(db.buckets@, b.volume_id@, b.bucket_id).cnt_blocks < u64::MAX
}

/// `n` is `o` after `b` was written live: pushed onto the live rows, and its
/// bucket charged.
pub open spec fn stored(o: MetaStore, n: MetaStore, b: BlockMeta) -> bool {
    &&& n.blocks@ == o.blocks@.push(b)
    &&& n.delete_queue@ == o.delete_queue@
    &&& n.buckets@ == adjust_rows(o.buckets@, b.volume_id@, b.bucket_id, BucketDelta::Store(b.size))
    &&& n.volumes@ == o.volumes@
    &&& n.size_bytes == o.size_bytes
}

/// `n` is `o` after the live row `id` moved to the tombstones, and its bucket
/// was credited.
pub open spec fn tombstoned(o: MetaStore, n: MetaStore, id: Seq<char>) -> bool {
    let row = row_of(o.blocks@, id);
    &&& n.blocks@ == o.blocks@.remove(index_of(o.blocks@, id))
    &&& n.delete_queue@ == o.delete_queue@.push(row)
    &&& n.buckets@ == adjust_rows(o.buckets@, row.volume_id@, row.bucket_id, BucketDelta::Tombstone(row.size))
    &&& n.volumes@ == o.volumes@
    &&& n.size_bytes == o.size_bytes
}

/// `n` is `o` after the tombstone `id` was dropped, and its bytes given back
/// to its bucket.
pub open spec fn purged(o: MetaStore, n: MetaStore, id: Seq<char>) -> bool {
    let row = row_of(o.delete_queue@, id);
    &&& n.blocks@ == o.blocks@
    &&& n.delete_queue@ == o.delete_queue@.remove(index_of(o.delete_queue@, id))
    &&& n.buckets@ == adjust_rows(o.buckets@, row.volume_id@, row.bucket_id, BucketDelta::Purge(row.size))
    &&& n.volumes@ == o.volumes@
    &&& n.size_bytes == o.size_bytes
}

/// `n` is `b` with the size and checksum of `body`, every other field kept.
pub open spec fn grown(n: BlockMeta, b: BlockMeta, body: Seq<u8>) -> bool {
    &&& n == BlockMeta { size: body.len() as u64, crc: n.crc, ..b }
    &&& n.crc@ == crc_of(body)
}

/// Applies `d` to row `k`, the row of bucket (`vol`, `bid`).
fn adjust_row(db: &mut MetaStore, k: usize, d: BucketDelta)
    requires
        k < old(db).buckets@.len(),
        buckets_unique(old(db).buckets@),
        match d {
            BucketDelta::Store(n) => old(db).buckets@[k as int].meta.cnt_blocks < u64::MAX
                && old(db).buckets@[k as int].meta.avail_size_bytes >= n,
            BucketDelta::Tombstone(n) => old(db).buckets@[k as int].meta.cnt_blocks >= 1
                && old(db).buckets@[k as int].meta.gc_size_bytes + n <= u64::MAX,
            BucketDelta::Purge(n) => old(db).buckets@[k as int].meta.gc_size_bytes >= n
                && old(db).buckets@[k as int].meta.avail_size_bytes + n <= u64::MAX,
            BucketDelta::Grow(n) => old(db).buckets@[k as int].meta.avail_size_bytes >= n,
        },
    ensures
        final(db).buckets@ == adjust_rows(
            old(db).buckets@,
            old(db).buckets@[k as int].volume_id@,
            old(db).buckets@[k as int].bucket_id,
            d,
        ),
        final(db).blocks == old(db).blocks,
        final(db).delete_queue == old(db).delete_queue,
        final(db).volumes == old(db).volumes,
        final(db).size_bytes == old(db).size_bytes,
{
    let ghost rows = db.buckets@;
    let ghost vol = rows[k as int].volume_id@;
    let ghost bid = rows[k as int].bucket_id;
    let m = db.buckets[k].meta;
    let nm = match d {
        BucketDelta::Store(n) => BucketMeta {
            cnt_blocks: m.cnt_blocks + 1,
            avail_size_bytes: m.avail_size_bytes - n,
            ..m
        },
        BucketDelta::Tombstone(n) => BucketMeta {
            cnt_blocks: m.cnt_blocks - 1,
            gc_size_bytes: m.gc_size_bytes + n,
            ..m
        },
        BucketDelta::Purge(n) => BucketMeta {
            gc_size_bytes: m.gc_size_bytes - n,
            avail_size_bytes: m.avail_size_bytes + n,
            ..m
        },
        BucketDelta::Grow(n) => BucketMeta { avail_size_bytes: m.avail_size_bytes - n, ..m },
    };
    db.buckets[k].meta = nm;
    assert forall|i: int| 0 <= i < rows.len() implies #[trigger] db.buckets@[i] == adjust_rows(
        rows,
        vol,
        bid,
        d,
    )[i] by {
        if i != k && row_is(rows[i], vol, bid) {
            assert(rows[i].bucket_id == rows[k as int].bucket_id);
        }
    }
    assert(db.buckets@ =~= adjust_rows(rows, vol, bid, d));
}

impl BlockMeta {
    /// Writes `self` as a live row and charges its bucket (one more block,
    /// `size` fewer available bytes), in one batch. Refused, with no effect,
    /// where `can_store` does not hold.
    pub fn store(self, db: &mut MetaStore) -> (r: Result<(), ()>)
        requires
            old(db).wf(),
        ensures
            final(db).wf(),
            r is Ok <==> can_store(*old(db), self),
            r is Ok ==> stored(*old(db), *final(db), self),
            r is Err ==> *final(db) == *old(db),
    {
        let ghost db0 = *db;
        let k = match find_bucket(&db.buckets, &self.volume_id, self.bucket_id) {
            Some(k) => k,
            None => return Err(()),
        };
        proof {
            crate::meta::lemma_bucket_index_pub(db.buckets@, k as int);
        }
        if exists_in(&db.blocks, &self.id) || exists_in(&db.delete_queue, &self.id) {
            return Err(());
        }
        let m = db.buckets[k].meta;
        if m.avail_size_bytes < self.size || m.cnt_blocks == u64::MAX {
            return Err(());
        }
        let ghost b = self;
        let ghost vol = self.volume_id@;
        let ghost bid = self.bucket_id;
        adjust_row(db, k, BucketDelta::Store(self.size));
        db.blocks.push(self);
        proof {
            let blocks0 = db0.blocks@;
            let tombs = db0.delete_queue@;
            let rows0 = db0.buckets@;
            assert forall|j: int| 0 <= j < db.buckets@.len() implies bucket_consistent(
                #[trigger] db.buckets@[j],
                db.blocks@,
                db.delete_queue@,
            ) by {
                let r0 = rows0[j];
                lemma_push(blocks0, b, r0.volume_id@, r0.bucket_id);
                assert(bucket_consistent(r0, blocks0, tombs));
                if row_is(r0, vol, bid) {
                    assert(r0.bucket_id == rows0[k as int].bucket_id);
                    assert(j == k);
                }
            }
            assert forall|i: int, j: int|
                0 <= i < db.blocks@.len() && 0 <= j < db.blocks@.len()
                    && #[trigger] db.blocks@[i].id@ == #[trigger] db.blocks@[j].id@ implies i == j by {
                if i < blocks0.len() && j == blocks0.len() {
                    assert(blocks0[i].id@ == b.id@);
                }
                if j < blocks0.len() && i == blocks0.len() {
                    assert(blocks0[j].id@ == b.id@);
                }
            }
            assert forall|i: int, j: int|
                0 <= i < db.blocks@.len() && 0 <= j < db.delete_queue@.len() implies #[trigger] db.blocks@[i].id@
                != #[trigger] db.delete_queue@[j].id@ by {
                if i == blocks0.len() {
                    assert(tombs[j].id@ != b.id@);
                }
            }
        }
        Ok(())
    }
}

impl BlockMeta {
    /// Moves the live row with `self`'s id to the tombstones and credits its
    /// bucket (one block fewer, its `size` owed back as reclaimable bytes), in
    /// one batch. The stored row is what moves. Refused, with no effect, where
    /// the id is not live or its bucket has no row.
    pub fn delete(self, db: &mut MetaStore) -> (r: Result<(), ()>)
        requires
            old(db).wf(),
        ensures
            final(db).wf(),
            r is Ok <==> has_id(old(db).blocks@, self.id@) && has_bucket(
                old(db).buckets@,
                row_of(old(db).blocks@, self.id@).volume_id@,
                row_of(old(db).blocks@, self.id@).bucket_id,
            ),
            r is Ok ==> tombstoned(*old(db), *final(db), self.id@),
            r is Err ==> *final(db) == *old(db),
    {
        let ghost db0 = *db;
        let i = match position(&db.blocks, &self.id) {
            Some(i) => i,
            None => return Err(()),
        };
        proof {
            crate::meta::lemma_index_of(db.blocks@, i as int);
        }
        let k = match find_bucket(&db.buckets, &db.blocks[i].volume_id, db.blocks[i].bucket_id) {
            Some(k) => k,
            None => return Err(()),
        };
        let ghost row = db0.blocks@[i as int];
        let ghost vol = row.volume_id@;
        let ghost bid = row.bucket_id;
        proof {
            crate::meta::lemma_bucket_index_pub(db.buckets@, k as int);
            assert(bucket_consistent(db.buckets@[k as int], db.blocks@, db.delete_queue@));
            lemma_member(db.blocks@, i as int, vol, bid);
        }
        let size = db.blocks[i].size;
        adjust_row(db, k, BucketDelta::Tombstone(size));
        let moved = db.blocks.remove(i);
        db.delete_queue.push(moved);
        proof {
            let blocks0 = db0.blocks@;
            let tombs0 = db0.delete_queue@;
            let rows0 = db0.buckets@;
            assert forall|j: int| 0 <= j < db.buckets@.len() implies bucket_consistent(
                #[trigger] db.buckets@[j],
                db.blocks@,
                db.delete_queue@,
            ) by {
                let r0 = rows0[j];
                lemma_remove(blocks0, i as int, r0.volume_id@, r0.bucket_id);
                lemma_push(tombs0, row, r0.volume_id@, r0.bucket_id);
                assert(bucket_consistent(r0, blocks0, tombs0));
                if row_is(r0, vol, bid) {
                    assert(r0.bucket_id == rows0[k as int].bucket_id);
                    assert(j == k);
                }
            }
            assert forall|a: int, b: int|
                0 <= a < db.blocks@.len() && 0 <= b < db.blocks@.len()
                    && #[trigger] db.blocks@[a].id@ == #[trigger] db.blocks@[b].id@ implies a == b by {
                let a0 = if a < i { a } else { a + 1 };
                let b0 = if b < i { b } else { b + 1 };
                assert(db.blocks@[a] == blocks0[a0]);
                assert(db.blocks@[b] == blocks0[b0]);
            }
            assert forall|a: int, b: int|
                0 <= a < db.delete_queue@.len() && 0 <= b < db.delete_queue@.len()
                    && #[trigger] db.delete_queue@[a].id@ == #[trigger] db.delete_queue@[b].id@ implies a == b by {
                if a < tombs0.len() && b == tombs0.len() {
                    assert(blocks0[i as int].id@ != tombs0[a].id@);
                }
                if b < tombs0.len() && a == tombs0.len() {
                    assert(blocks0[i as int].id@ != tombs0[b].id@);
                }
            }
            assert forall|a: int, b: int|
                0 <= a < db.blocks@.len() && 0 <= b < db.delete_queue@.len() implies #[trigger] db.blocks@[a].id@
                != #[trigger] db.delete_queue@[b].id@ by {
                let a0 = if a < i { a } else { a + 1 };
                assert(db.blocks@[a] == blocks0[a0]);
                if b == tombs0.len() {
                    assert(a0 != i);
                } else {
                    assert(db.delete_queue@[b] == tombs0[b]);
                }
            }
        }
        Ok(())
    }

    /// Drops the tombstone with `self`'s id and gives its bytes back to its
    /// bucket (reclaimable to available), in one batch. The stored tombstone's
    /// size is what moves. Refused, with no effect, where there is no such
    /// tombstone or its bucket has no row.
    pub fn purge(self, db: &mut MetaStore) -> (r: Result<(), ()>)
        requires
            old(db).wf(),
        ensures
            final(db).wf(),
            r is Ok <==> has_id(old(db).delete_queue@, self.id@) && has_bucket(
                old(db).buckets@,
                row_of(old(db).delete_queue@, self.id@).volume_id@,
                row_of(old(db).delete_queue@, self.id@).bucket_id,
            ),
            r is Ok ==> purged(*old(db), *final(db), self.id@),
            r is Err ==> *final(db) == *old(db),
    {
        let ghost db0 = *db;
        let i = match position(&db.delete_queue, &self.id) {
            Some(i) => i,
            None => return Err(()),
        };
        proof {
            crate::meta::lemma_index_of(db.delete_queue@, i as int);
        }
        let k = match find_bucket(&db.buckets, &db.delete_queue[i].volume_id, db.delete_queue[i].bucket_id) {
            Some(k) => k,
            None => return Err(()),
        };
        let ghost row = db0.delete_queue@[i as int];
        let ghost vol = row.volume_id@;
        let ghost bid = row.bucket_id;
        proof {
            crate::meta::lemma_bucket_index_pub(db.buckets@, k as int);
            assert(bucket_consistent(db.buckets@[k as int], db.blocks@, db.delete_queue@));
            lemma_member(db.delete_queue@, i as int, vol, bid);
        }
        let size = db.delete_queue[i].size;
        adjust_row(db, k, BucketDelta::Purge(size));
        let _gone = db.delete_queue.remove(i);
        proof {
            let blocks0 = db0.blocks@;
            let tombs0 = db0.delete_queue@;
            let rows0 = db0.buckets@;
            assert forall|j: int| 0 <= j < db.buckets@.len() implies bucket_consistent(
                #[trigger] db.buckets@[j],
                db.blocks@,
                db.delete_queue@,
            ) by {
                let r0 = rows0[j];
                lemma_remove(tombs0, i as int, r0.volume_id@, r0.bucket_id);
                assert(bucket_consistent(r0, blocks0, tombs0));
                if row_is(r0, vol, bid) {
                    assert(r0.bucket_id == rows0[k as int].bucket_id);
                    assert(j == k);
                }
            }
            assert forall|a: int, b: int|
                0 <= a < db.delete_queue@.len() && 0 <= b < db.delete_queue@.len()
                    && #[trigger] db.delete_queue@[a].id@ == #[trigger] db.delete_queue@[b].id@ implies a == b by {
                let a0 = if a < i { a } else { a + 1 };
                let b0 = if b < i { b } else { b + 1 };
                assert(db.delete_queue@[a] == tombs0[a0]);
                assert(db.delete_queue@[b] == tombs0[b0]);
            }
            assert forall|a: int, b: int|
                0 <= a < db.blocks@.len() && 0 <= b < db.delete_queue@.len() implies #[trigger] db.blocks@[a].id@
                != #[trigger] db.delete_queue@[b].id@ by {
                let b0 = if b < i { b } else { b + 1 };
                assert(db.delete_queue@[b] == tombs0[b0]);
            }
        }
        Ok(())
    }
}

impl BlockMeta {
    /// Grows the live row `block_id` to the full stored `body`: its size and
    /// checksum become those of `body`, and its bucket's available bytes drop
    /// by the growth, in one batch. Refused, with no effect, where the id is
    /// not live, the row is stored compressed (raw bytes cannot be appended
    /// to an encoded stream), `body` is shorter than the row's size, or the
    /// bucket has no row or too little room.
    pub fn append(db: &mut MetaStore, block_id: &String, body: &[u8]) -> (r: Result<BlockMeta, ()>)
        requires
            old(db).wf(),
        ensures
            final(db).wf(),
            r is Ok <==> {
                let row = row_of(old(db).blocks@, block_id@);
                &&& has_id(old(db).blocks@, block_id@)
                &&& !row.compressed
                &&& body@.len() >= row.size
                &&& has_bucket(old(db).buckets@, row.volume_id@, row.bucket_id)
                &&& bucket_of(old(db).buckets@, row.volume_id@, row.bucket_id).avail_size_bytes
                    >= body@.len() - row.size
            },
            r matches Ok(n) ==> {
                let row = row_of(old(db).blocks@, block_id@);
                &&& grown(n, row, body@)
                &&& final(db).blocks@ == old(db).blocks@.update(index_of(old(db).blocks@, block_id@), n)
                &&& final(db).delete_queue@ == old(db).delete_queue@
                &&& final(db).buckets@ == adjust_rows(
                    old(db).buckets@,
                    row.volume_id@,
                    row.bucket_id,
                    BucketDelta::Grow((body@.len() - row.size) as u64),
                )
                &&& final(db).volumes@ == old(db).volumes@
                &&& final(db).size_bytes == old(db).size_bytes
            },
            r is Err ==> *final(db) == *old(db),
    {
        let ghost db0 = *db;
        let i = match position(&db.blocks, block_id) {
            Some(i) => i,
            None => return Err(()),
        };
        proof {
            crate::meta::lemma_index_of(db.blocks@, i as int);
        }
        if db.blocks[i].compressed {
            return Err(());
        }
        let new_size = body.len() as u64;
        if new_size < db.blocks[i].size {
            return Err(());
        }
        let k = match find_bucket(&db.buckets, &db.blocks[i].volume_id, db.blocks[i].bucket_id) {
            Some(k) => k,
            None => return Err(()),
        };
        proof {
            crate::meta::lemma_bucket_index_pub(db.buckets@, k as int);
        }
        let extra = new_size - db.blocks[i].size;
        if db.buckets[k].meta.avail_size_bytes < extra {
            return Err(());
        }
        let ghost row = db0.blocks@[i as int];
        let ghost vol = row.volume_id@;
        let ghost bid = row.bucket_id;
        let mut n = db.blocks[i].dup();
        n.size = new_size;
        n.crc = BlockMeta::crc(body);
        let out = n.dup();
        adjust_row(db, k, BucketDelta::Grow(extra));
        db.blocks.set(i, n);
        proof {
            let blocks0 = db0.blocks@;
            let tombs0 = db0.delete_queue@;
            let rows0 = db0.buckets@;
            assert forall|j: int| 0 <= j < db.buckets@.len() implies bucket_consistent(
                #[trigger] db.buckets@[j],
                db.blocks@,
                db.delete_queue@,
            ) by {
                let r0 = rows0[j];
                lemma_update(blocks0, i as int, out, r0.volume_id@, r0.bucket_id);
                assert(bucket_consistent(r0, blocks0, tombs0));
                if row_is(r0, vol, bid) {
                    assert(r0.bucket_id == rows0[k as int].bucket_id);
                    assert(j == k);
                }
            }
            assert forall|a: int, b: int|
                0 <= a < db.blocks@.len() && 0 <= b < db.blocks@.len()
                    && #[trigger] db.blocks@[a].id@ == #[trigger] db.blocks@[b].id@ implies a == b by {
                assert(blocks0[a].id@ == db.blocks@[a].id@);
                assert(blocks0[b].id@ == db.blocks@[b].id@);
            }
            assert forall|a: int, b: int|
                0 <= a < db.blocks@.len() && 0 <= b < db.delete_queue@.len() implies #[trigger] db.blocks@[a].id@
                != #[trigger] db.delete_queue@[b].id@ by {
                assert(blocks0[a].id@ == db.blocks@[a].id@);
            }
        }
        Ok(out)
    }

    /// The live row with key `block_id`, if any.
    pub fn get(db: &MetaStore, block_id: &String) -> (r: Option<BlockMeta>)
        requires
            db.wf(),
        ensures
            r == (if has_id(db.blocks@, block_id@) {
                Some(row_of(db.blocks@, block_id@))
            } else {
                None
            }),
    {
        match position(&db.blocks, block_id) {
            Some(i) => {
                proof {
                    crate::meta::lemma_index_of(db.blocks@, i as int);
                }
                Some(db.blocks[i].dup())
            },
            None => None,
        }
    }

    /// Whether `block_id` is live.
    pub fn exists_block(db: &MetaStore, block_id: &String) -> (r: bool)
        ensures
            r == has_id(db.blocks@, block_id@),
    {
        exists_in(&db.blocks, block_id)
    }

    /// Up to `limit` tombstones, in store order.
    pub fn fetch_deleted(db: &MetaStore, limit: u32) -> (r: Vec<BlockMeta>)
        ensures
            r@ == db.delete_queue@.take(
                if (limit as int) < db.delete_queue@.len() {
                    limit as int
                } else {
                    db.delete_queue@.len() as int
                },
            ),
    {
        let mut out: Vec<BlockMeta> = Vec::new();
        let mut i: usize = 0;
        while i < db.delete_queue.len() && (i as u64) < (limit as u64)
            invariant
                i <= db.delete_queue@.len(),
                i <= limit,
                out@ == db.delete_queue@.take(i as int),
            decreases db.delete_queue@.len() - i,
        {
            out.push(db.delete_queue[i].dup());
            i = i + 1;
            assert(out@ =~= db.delete_queue@.take(i as int));
        }
        out
    }
}

/// Whether a row last checked at `b.last_check_ts` is due for revalidation
/// at `now`, with a check interval of `days` days.
pub open spec fn due(b: BlockMeta, now: u64, days: u32) -> bool {
    b.last_check_ts + days * 86400 < now
}

/// The rows of `rows` that are due, in order.
pub open spec fn due_rows(rows: Seq<BlockMeta>, now: u64, days: u32) -> Seq<BlockMeta>
    decreases rows.len(),
{
    if rows.len() == 0 {
        Seq::empty()
    } else if due(rows.last(), now, days) {
        due_rows(rows.drop_last(), now, days).push(rows.last())
    } else {
        due_rows(rows.drop_last(), now, days)
    }
}

impl MetaStore {
    /// Whether `block_id` awaits purge.
    pub fn delete_queue_has(&self, block_id: &String) -> (r: bool)
        ensures
            r == has_id(self.delete_queue@, block_id@),
    {
        exists_in(&self.delete_queue, block_id)
    }

    /// The live rows due for revalidation at `now`, in store order.
    pub fn blocks_due(&self, now: u64, days: u32) -> (r: Vec<BlockMeta>)
        ensures
            r@ == due_rows(self.blocks@, now, days),
    {
        let mut out: Vec<BlockMeta> = Vec::new();
        let mut i: usize = 0;
        let span: u64 = days as u64 * 86400;
        while i < self.blocks.len()
            invariant
                i <= self.blocks@.len(),
                span == days * 86400,
                out@ == due_rows(self.blocks@.take(i as int), now, days),
            decreases self.blocks@.len() - i,
        {
            let ts = self.blocks[i].last_check_ts;
            let is_due = match ts.checked_add(span) {
                Some(t) => t < now,
                None => false,
            };
            proof {
                assert(self.blocks@.take(i + 1).drop_last() =~= self.blocks@.take(i as int));
            }
            if is_due {
                out.push(self.blocks[i].dup());
            }
            i = i + 1;
        }
        assert(self.blocks@.take(i as int) =~= self.blocks@);
        out
    }

    /// Sets `last_check_ts` of the live row `block_id` to `now`, and nothing
    /// else: no bucket counter moves. False, with no effect, where the id is
    /// not live.
    pub fn touch_block_meta(&mut self, block_id: &String, now: u64) -> (r: bool)
        requires
            old(self).wf(),
        ensures
            final(self).wf(),
            r == has_id(old(self).blocks@, block_id@),
            r ==> final(self).blocks@ == old(self).blocks@.update(
                index_of(old(self).blocks@, block_id@),
                BlockMeta { last_check_ts: now, ..row_of(old(self).blocks@, block_id@) },
            ),
            !r ==> final(self).blocks@ == old(self).blocks@,
            final(self).delete_queue@ == old(self).delete_queue@,
            final(self).buckets@ == old(self).buckets@,
            final(self).volumes@ == old(self).volumes@,
            final(self).size_bytes == old(self).size_bytes,
    {
        let ghost s0 = *self;
        match position(&self.blocks, block_id) {
            Some(i) => {
                proof {
                    crate::meta::lemma_index_of(self.blocks@, i as int);
                }
                let mut n = self.blocks[i].dup();
                n.last_check_ts = now;
                let ghost nn = n;
                self.blocks.set(i, n);
                proof {
                    let blocks0 = s0.blocks@;
                    assert forall|j: int| 0 <= j < self.buckets@.len() implies bucket_consistent(
                        #[trigger] self.buckets@[j],
                        self.blocks@,
                        self.delete_queue@,
                    ) by {
                        let r0 = s0.buckets@[j];
                        lemma_update(blocks0, i as int, nn, r0.volume_id@, r0.bucket_id);
                        assert(bucket_consistent(r0, blocks0, s0.delete_queue@));
                    }
                    assert forall|a: int, b: int|
                        0 <= a < self.blocks@.len() && 0 <= b < self.blocks@.len()
                            && #[trigger] self.blocks@[a].id@ == #[trigger] self.blocks@[b].id@ implies a == b by {
                        assert(blocks0[a].id@ == self.blocks@[a].id@);
                        assert(blocks0[b].id@ == self.blocks@[b].id@);
                    }
                    assert forall|a: int, b: int|
                        0 <= a < self.blocks@.len() && 0 <= b < self.delete_queue@.len() implies #[trigger] self.blocks@[a].id@
                        != #[trigger] self.delete_queue@[b].id@ by {
                        assert(blocks0[a].id@ == self.blocks@[a].id@);
                    }
                }
                true
            },
            None => false,
        }
    }
}

fn exists_in(rows: &Vec<BlockMeta>, id: &String) -> (r: bool)
    ensures
        r == has_id(rows@, id@),
{
    match position(rows, id) {
        Some(_) => true,
        None => false,
    }
}

pub(crate) fn position(rows: &Vec<BlockMeta>, id: &String) -> (r: Option<usize>)
    ensures
        match r {
            Some(i) => i < rows@.len() && rows@[i as int].id@ == id@,
            None => !has_id(rows@, id@),
        },
{
    let mut i: usize = 0;
    while i < rows.len()
        invariant
            i <= rows@.len(),
            forall|j: int| 0 <= j < i ==> rows@[j].id@ != id@,
        decreases rows@.len() - i,
    {
        if rows[i].id == *id {
            return Some(i);
        }
        i = i + 1;
    }
    None
}

} // verus!
