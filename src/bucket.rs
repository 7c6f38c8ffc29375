//! A bucket: a fixed-capacity directory inside a volume, with its counters.

use vstd::prelude::*;
use crate::meta::{bucket_of, has_bucket, meta_consistent, BucketMeta, MetaStore};

verus! {

/// In-memory picture of one bucket.
#[derive(Debug, Clone, PartialEq)]
pub struct Bucket {
    pub id: u32,
    pub volume_id: String,
    pub path: String,
    pub cnt_blocks: u64,
    pub active_slots: u64,
    pub initial_size_bytes: u64,
    pub avail_size_bytes: u64,
    pub gc_size_bytes: u64,
}

impl Bucket {
    /// An empty bucket of `initial_size_bytes` capacity, all of it available.
    pub fn new(id: u32, volume_id: &String, bucket_path: &String, initial_size_bytes: u64) -> (r: Bucket)
        ensures
            r == (Bucket {
                id,
                volume_id: *volume_id,
                path: *bucket_path,
                cnt_blocks: 0,
                active_slots: 0,
                initial_size_bytes,
                avail_size_bytes: initial_size_bytes,
                gc_size_bytes: 0,
            }),
    {
        Bucket {
            id,
            volume_id: volume_id.clone(),
            path: bucket_path.clone(),
            cnt_blocks: 0,
            active_slots: 0,
            initial_size_bytes,
            avail_size_bytes: initial_size_bytes,
            gc_size_bytes: 0,
        }
    }

    /// Load used for placement: stored blocks plus outstanding reservations.
    pub open spec fn load(self) -> int {
        self.cnt_blocks + self.active_slots
    }
}

/// The row a bucket gets when it is first laid out.
pub open spec fn fresh_row(b: Bucket, now: u64) -> BucketMeta {
    BucketMeta {
        cnt_blocks: 0,
        active_slots: 0,
        init_size_bytes: b.initial_size_bytes,
        avail_size_bytes: b.avail_size_bytes,
        gc_size_bytes: 0,
        ts: now,
    }
}

impl Bucket {
    /// Loads the bucket's counters from its row, or writes a first row for
    /// it stamped `now`. Reservations are not loaded: they live in memory
    /// only. Fails, with no effect, where a first row would disagree with
    /// blocks already recorded in this bucket.
    pub fn bootstrap(&mut self, db: &mut MetaStore, now: u64) -> (r: Result<bool, ()>)
        requires
            old(db).wf(),
        ensures
            final(db).wf(),
            has_bucket(old(db).buckets@, old(self).volume_id@, old(self).id) ==> {
                let m = bucket_of(old(db).buckets@, old(self).volume_id@, old(self).id);
                &&& r is Ok
                &&& *final(db) == *old(db)
                &&& *final(self) == Bucket {
                    cnt_blocks: m.cnt_blocks,
                    avail_size_bytes: m.avail_size_bytes,
                    initial_size_bytes: m.init_size_bytes,
                    gc_size_bytes: m.gc_size_bytes,
                    active_slots: 0,
                    ..*old(self)
                }
            },
            !has_bucket(old(db).buckets@, old(self).volume_id@, old(self).id) ==> {
                &&& *final(self) == *old(self)
                &&& r is Ok <==> meta_consistent(
                    fresh_row(*old(self), now),
                    old(self).volume_id@,
                    old(self).id,
                    old(db).blocks@,
                    old(db).delete_queue@,
                )
                &&& r is Ok ==> has_bucket(final(db).buckets@, old(self).volume_id@, old(self).id)
                    && bucket_of(final(db).buckets@, old(self).volume_id@, old(self).id) == fresh_row(
                    *old(self),
                    now,
                )
                &&& r is Err ==> *final(db) == *old(db)
            },
            r is Ok ==> forall|vol2: Seq<char>, bid2: u32|
                #[trigger] has_bucket(final(db).buckets@, vol2, bid2) ==> has_bucket(old(db).buckets@, vol2, bid2)
                    || (vol2 == old(self).volume_id@ && bid2 == old(self).id),
            r is Err ==> *final(db) == *old(db),
            final(self).id == old(self).id,
            final(self).volume_id == old(self).volume_id,
            final(self).path == old(self).path,
            final(db).blocks == old(db).blocks,
            final(db).delete_queue == old(db).delete_queue,
            r is Ok ==> forall|k: int|
                0 <= k < old(db).buckets@.len() ==> has_bucket(
                    final(db).buckets@,
                    #[trigger] old(db).buckets@[k].volume_id@,
                    old(db).buckets@[k].bucket_id,
                ) && bucket_of(final(db).buckets@, old(db).buckets@[k].volume_id@, old(db).buckets@[k].bucket_id)
                    == old(db).buckets@[k].meta,
    {
        match BucketMeta::get(db, self.id, &self.volume_id) {
            Some(m) => {
                self.cnt_blocks = m.cnt_blocks;
                self.avail_size_bytes = m.avail_size_bytes;
                self.initial_size_bytes = m.init_size_bytes;
                self.gc_size_bytes = m.gc_size_bytes;
                self.active_slots = 0;
                proof {
                    assert forall|k: int| 0 <= k < db.buckets@.len() implies has_bucket(
                        db.buckets@,
                        #[trigger] db.buckets@[k].volume_id@,
                        db.buckets@[k].bucket_id,
                    ) && bucket_of(db.buckets@, db.buckets@[k].volume_id@, db.buckets@[k].bucket_id)
                        == db.buckets@[k].meta by {
                        crate::meta::lemma_bucket_index_pub(db.buckets@, k);
                    }
                }
                Ok(true)
            },
            None => {
                let mut bm = BucketMeta::new(now);
                bm.init_size_bytes = self.initial_size_bytes;
                bm.avail_size_bytes = self.avail_size_bytes;
                let ghost rows0 = db.buckets@;
                match bm.upsert(self.id, &self.volume_id, db) {
                    Ok(_) => {
                        proof {
                            assert forall|k: int| 0 <= k < rows0.len() implies has_bucket(
                                db.buckets@,
                                #[trigger] rows0[k].volume_id@,
                                rows0[k].bucket_id,
                            ) && bucket_of(db.buckets@, rows0[k].volume_id@, rows0[k].bucket_id)
                                == rows0[k].meta by {
                                if crate::meta::row_is(rows0[k], self.volume_id@, self.id) {
                                    assert(has_bucket(rows0, self.volume_id@, self.id));
                                }
                            }
                        }
                        Ok(true)
                    },
                    Err(_) => Err(()),
                }
            },
        }
    }
}

} // verus!
