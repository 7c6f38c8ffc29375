//! Volume and bucket rows of the metadata store.

use vstd::prelude::*;
use crate::ledger::{bytes_in, count_in};
use crate::meta::{
    bucket_of, has_bucket, has_volume,
    meta_consistent, row_is, vol_ids_unique, volume_index, BlockMeta, BucketMeta, BucketRow,
    MetaStore, VolumeMeta,
};
use crate::text::{dec_digits, push_char, push_decimal_padded, zero_padded};

verus! {

/// The store key of bucket `id` of volume `volume_id`: the bucket number as
/// at least five decimal digits, a dash, then the volume id.
pub open spec fn bucket_key(id: u32, volume_id: Seq<char>) -> Seq<char> {
    zero_padded(dec_digits(id as nat), 5).push('-') + volume_id
}

fn find_volume(rows: &Vec<VolumeMeta>, id: &String) -> (r: Option<usize>)
    ensures
        match r {
            Some(i) => i < rows@.len() && rows@[i as int].id@ == id@,
            None => !has_volume(rows@, id@),
        },
{
    let mut i: usize = 0;
    while i < rows.len()
        invariant
            i <= rows@.len(),
            forall|j: int| 0 <= j < i ==> rows@[j].id@ != id@,
        decreases rows@.len() - i,
    {
        if rows[i].id == *id {
            return Some(i);
        }
        i = i + 1;
    }
    None
}

pub(crate) fn find_bucket(rows: &Vec<BucketRow>, vol: &String, bid: u32) -> (r: Option<usize>)
    ensures
        match r {
            Some(k) => k < rows@.len() && row_is(rows@[k as int], vol@, bid),
            None => !has_bucket(rows@, vol@, bid),
        },
{
    let mut k: usize = 0;
    while k < rows.len()
        invariant
            k <= rows@.len(),
            forall|j: int| 0 <= j < k ==> !row_is(#[trigger] rows@[j], vol@, bid),
        decreases rows@.len() - k,
    {
        if rows[k].bucket_id == bid && rows[k].volume_id == *vol {
            return Some(k);
        }
        k = k + 1;
    }
    None
}

proof fn lemma_volume_index(rows: Seq<VolumeMeta>, i: int)
    requires
        vol_ids_unique(rows),
        0 <= i < rows.len(),
    ensures
        has_volume(rows, rows[i].id@),
        volume_index(rows, rows[i].id@) == i,
{
    let id = rows[i].id@;
    assert(rows[i].id@ == id);
    let j = volume_index(rows, id);
    assert(rows[j].id@ == id);
}

impl VolumeMeta {
    /// A blank row stamped with `now`.
    pub fn new(now: u64) -> (r: VolumeMeta)
        ensures
            r.id@.len() == 0,
            r.path@.len() == 0,
            r.last_check_ts == now,
    {
        VolumeMeta { id: String::new(), path: String::new(), last_check_ts: now }
    }

    /// A field-by-field copy.
    pub fn dup(&self) -> (r: VolumeMeta)
        ensures
            r == *self,
    {
        VolumeMeta { id: self.id.clone(), path: self.path.clone(), last_check_ts: self.last_check_ts }
    }

    /// Writes the row under its id, replacing any row with that id.
    pub fn upsert(self, db: &mut MetaStore) -> (r: Result<(), ()>)
        requires
            old(db).wf(),
        ensures
            final(db).wf(),
            r is Ok,
            has_volume(old(db).volumes@, self.id@) ==> final(db).volumes@ == old(db).volumes@.update(
                volume_index(old(db).volumes@, self.id@),
                self,
            ),
            !has_volume(old(db).volumes@, self.id@) ==> final(db).volumes@ == old(db).volumes@.push(self),
            final(db).blocks == old(db).blocks,
            final(db).delete_queue == old(db).delete_queue,
            final(db).buckets == old(db).buckets,
            final(db).size_bytes == old(db).size_bytes,
    {
        let ghost rows0 = db.volumes@;
        let ghost v = self;
        match find_volume(&db.volumes, &self.id) {
            Some(i) => {
                proof {
                    lemma_volume_index(rows0, i as int);
                }
                db.volumes.set(i, self);
                assert forall|a: int, b: int|
                    0 <= a < db.volumes@.len() && 0 <= b < db.volumes@.len()
                        && #[trigger] db.volumes@[a].id@ == #[trigger] db.volumes@[b].id@ implies a == b by {
                    assert(rows0[a].id@ == db.volumes@[a].id@);
                    assert(rows0[b].id@ == db.volumes@[b].id@);
                }
            },
            None => {
                db.volumes.push(self);
                assert forall|a: int, b: int|
                    0 <= a < db.volumes@.len() && 0 <= b < db.volumes@.len()
                        && #[trigger] db.volumes@[a].id@ == #[trigger] db.volumes@[b].id@ implies a == b by {
                    if a < rows0.len() && b == rows0.len() {
                        assert(rows0[a].id@ == v.id@);
                    }
                    if b < rows0.len() && a == rows0.len() {
                        assert(rows0[b].id@ == v.id@);
                    }
                }
            },
        }
        Ok(())
    }

    /// The row with id `volume_id`, if any.
    pub fn get(db: &MetaStore, volume_id: &String) -> (r: Option<VolumeMeta>)
        requires
            db.wf(),
        ensures
            r == (if has_volume(db.volumes@, volume_id@) {
                Some(db.volumes@[volume_index(db.volumes@, volume_id@)])
            } else {
                None
            }),
    {
        match find_volume(&db.volumes, volume_id) {
            Some(i) => {
                proof {
                    lemma_volume_index(db.volumes@, i as int);
                }
                Some(db.volumes[i].dup())
            },
            None => None,
        }
    }

    /// Whether a row with id `volume_id` exists.
    pub fn exists_volume(db: &MetaStore, volume_id: &String) -> (r: bool)
        ensures
            r == has_volume(db.volumes@, volume_id@),
    {
        match find_volume(&db.volumes, volume_id) {
            Some(_) => true,
            None => false,
        }
    }
}

/// Number of rows in bucket (`vol`, `bid`), where it fits in 64 bits.
fn count_rows(rows: &Vec<BlockMeta>, vol: &String, bid: u32) -> (r: Option<u64>)
    ensures
        r == (if count_in(rows@, vol@, bid) <= u64::MAX {
            Some(count_in(rows@, vol@, bid) as u64)
        } else {
            None
        }),
{
    let mut acc: u64 = 0;
    let mut i: usize = 0;
    while i < rows.len()
        invariant
            i <= rows@.len(),
            acc == count_in(rows@.take(i as int), vol@, bid),
        decreases rows@.len() - i,
    {
        proof {
            assert(rows@.take(i + 1).drop_last() =~= rows@.take(i as int));
        }
        if rows[i].bucket_id == bid && rows[i].volume_id == *vol {
            if acc == u64::MAX {
                proof {
                    lemma_count_prefix(rows@, i + 1, vol@, bid);
                }
                return None;
            }
            acc = acc + 1;
        }
        i = i + 1;
    }
    assert(rows@.take(i as int) =~= rows@);
    Some(acc)
}

/// Total size of the rows in bucket (`vol`, `bid`), where it fits in 64 bits.
fn sum_rows(rows: &Vec<BlockMeta>, vol: &String, bid: u32) -> (r: Option<u64>)
    ensures
        r == (if bytes_in(rows@, vol@, bid) <= u64::MAX {
            Some(bytes_in(rows@, vol@, bid) as u64)
        } else {
            None
        }),
{
    let mut acc: u64 = 0;
    let mut i: usize = 0;
    while i < rows.len()
        invariant
            i <= rows@.len(),
            acc == bytes_in(rows@.take(i as int), vol@, bid),
        decreases rows@.len() - i,
    {
        proof {
            assert(rows@.take(i + 1).drop_last() =~= rows@.take(i as int));
        }
        if rows[i].bucket_id == bid && rows[i].volume_id == *vol {
            match acc.checked_add(rows[i].size) {
                Some(t) => {
                    acc = t;
                },
                None => {
                    proof {
                        lemma_count_prefix(rows@, i + 1, vol@, bid);
                    }
                    return None;
                },
            }
        }
        i = i + 1;
    }
    assert(rows@.take(i as int) =~= rows@);
    Some(acc)
}

/// Counts and sums over a prefix never exceed those over the whole.
proof fn lemma_count_prefix(rows: Seq<BlockMeta>, n: int, vol: Seq<char>, bid: u32)
    requires
        0 <= n <= rows.len(),
    ensures
        count_in(rows.take(n), vol, bid) <= count_in(rows, vol, bid),
        bytes_in(rows.take(n), vol, bid) <= bytes_in(rows, vol, bid),
    decreases rows.len(),
{
    if n < rows.len() {
        assert(rows.drop_last().take(n) =~= rows.take(n));
        lemma_count_prefix(rows.drop_last(), n, vol, bid);
    } else {
        assert(rows.take(n) =~= rows);
    }
}

impl BucketMeta {
    /// An empty bucket row of no capacity, stamped with `now`.
    pub fn new(now: u64) -> (r: BucketMeta)
        ensures
            r == (BucketMeta {
                cnt_blocks: 0,
                active_slots: 0,
                init_size_bytes: 0,
                avail_size_bytes: 0,
                gc_size_bytes: 0,
                ts: now,
            }),
    {
        BucketMeta {
            cnt_blocks: 0,
            active_slots: 0,
            init_size_bytes: 0,
            avail_size_bytes: 0,
            gc_size_bytes: 0,
            ts: now,
        }
    }

    /// The store key of bucket `id` of volume `volume_id`, as
    /// `%05u-<volume_id>`.
    pub fn db_id(id: u32, volume_id: &String) -> (r: String)
        ensures
            r@ == bucket_key(id, volume_id@),
    {
        let mut s = String::new();
        push_decimal_padded(id as u64, 5, &mut s);
        push_char(&mut s, '-');
        s.append(volume_id.as_str());
        assert(s@ =~= bucket_key(id, volume_id@));
        s
    }

    /// Writes the row of bucket `id` of volume `volume_id`, replacing any row
    /// with that key. Refused, with no effect, where the counters disagree
    /// with the live rows and tombstones of that bucket.
    pub fn upsert(self, id: u32, volume_id: &String, db: &mut MetaStore) -> (r: Result<(), ()>)
        requires
            old(db).wf(),
        ensures
            final(db).wf(),
            r is Ok <==> meta_consistent(self, volume_id@, id, old(db).blocks@, old(db).delete_queue@),
            r is Ok ==> has_bucket(final(db).buckets@, volume_id@, id) && bucket_of(
                final(db).buckets@,
                volume_id@,
                id,
            ) == self,
            r is Ok ==> forall|k: int|
                0 <= k < old(db).buckets@.len() && !row_is(old(db).buckets@[k], volume_id@, id)
                    ==> has_bucket(final(db).buckets@, #[trigger] old(db).buckets@[k].volume_id@, old(db).buckets@[k].bucket_id)
                    && bucket_of(final(db).buckets@, old(db).buckets@[k].volume_id@, old(db).buckets@[k].bucket_id)
                    == old(db).buckets@[k].meta,
            r is Ok ==> final(db).buckets@.len() == old(db).buckets@.len() + (if has_bucket(
                old(db).buckets@,
                volume_id@,
                id,
            ) {
                0int
            } else {
                1int
            }),
            r is Ok ==> forall|vol2: Seq<char>, bid2: u32|
                #[trigger] has_bucket(final(db).buckets@, vol2, bid2) ==> has_bucket(old(db).buckets@, vol2, bid2)
                    || (vol2 == volume_id@ && bid2 == id),
            r is Err ==> *final(db) == *old(db),
            final(db).blocks == old(db).blocks,
            final(db).delete_queue == old(db).delete_queue,
            final(db).volumes == old(db).volumes,
            final(db).size_bytes == old(db).size_bytes,
    {
        let ghost rows0 = db.buckets@;
        let cnt = count_rows(&db.blocks, volume_id, id);
        let live = sum_rows(&db.blocks, volume_id, id);
        let gc = sum_rows(&db.delete_queue, volume_id, id);
        let ok = match (cnt, live, gc) {
            (Some(c), Some(l), Some(g)) => c == self.cnt_blocks && g == self.gc_size_bytes && (
            self.avail_size_bytes as u128) + (g as u128) + (l as u128) == self.init_size_bytes as u128,
            _ => false,
        };
        if !ok {
            return Err(());
        }
        match find_bucket(&db.buckets, volume_id, id) {
            Some(k) => {
                db.buckets[k].meta = self;
                proof {
                    assert forall|a: int, b: int|
                        0 <= a < db.buckets@.len() && 0 <= b < db.buckets@.len() && row_is(
                            #[trigger] db.buckets@[a],
                            db.buckets@[b].volume_id@,
                            db.buckets@[b].bucket_id,
                        ) && #[trigger] db.buckets@[b].bucket_id == db.buckets@[a].bucket_id implies a
                        == b by {
                        assert(row_is(rows0[a], rows0[b].volume_id@, rows0[b].bucket_id));
                        assert(rows0[b].bucket_id == rows0[a].bucket_id);
                    }
                    crate::meta::lemma_bucket_index_pub(db.buckets@, k as int);
                    assert forall|vol2: Seq<char>, bid2: u32|
                        #[trigger] has_bucket(db.buckets@, vol2, bid2) implies has_bucket(rows0, vol2, bid2) by {
                        let w = choose|w: int| 0 <= w < db.buckets@.len() && row_is(#[trigger] db.buckets@[w], vol2, bid2);
                        assert(row_is(rows0[w], vol2, bid2));
                    }
                    assert forall|j: int|
                        0 <= j < rows0.len() && !row_is(rows0[j], volume_id@, id) implies has_bucket(
                        db.buckets@,
                        #[trigger] rows0[j].volume_id@,
                        rows0[j].bucket_id,
                    ) && bucket_of(db.buckets@, rows0[j].volume_id@, rows0[j].bucket_id)
                        == rows0[j].meta by {
                        assert(db.buckets@[j] == rows0[j]);
                        crate::meta::lemma_bucket_index_pub(db.buckets@, j);
                    }
                }
            },
            None => {
                let row = BucketRow { volume_id: volume_id.clone(), bucket_id: id, meta: self };
                db.buckets.push(row);
                proof {
                    assert forall|a: int, b: int|
                        0 <= a < db.buckets@.len() && 0 <= b < db.buckets@.len() && row_is(
                            #[trigger] db.buckets@[a],
                            db.buckets@[b].volume_id@,
                            db.buckets@[b].bucket_id,
                        ) && #[trigger] db.buckets@[b].bucket_id == db.buckets@[a].bucket_id implies a
                        == b by {
                        if a < rows0.len() && b == rows0.len() {
                            assert(row_is(rows0[a], volume_id@, id));
                        }
                        if b < rows0.len() && a == rows0.len() {
                            assert(row_is(rows0[b], volume_id@, id));
                        }
                    }
                    crate::meta::lemma_bucket_index_pub(db.buckets@, rows0.len() as int);
                    assert forall|vol2: Seq<char>, bid2: u32|
                        #[trigger] has_bucket(db.buckets@, vol2, bid2) implies has_bucket(rows0, vol2, bid2)
                            || (vol2 == volume_id@ && bid2 == id) by {
                        let w = choose|w: int| 0 <= w < db.buckets@.len() && row_is(#[trigger] db.buckets@[w], vol2, bid2);
                        if w < rows0.len() {
                            assert(db.buckets@[w] == rows0[w]);
                        }
                    }
                    assert forall|j: int|
                        0 <= j < rows0.len() && !row_is(rows0[j], volume_id@, id) implies has_bucket(
                        db.buckets@,
                        #[trigger] rows0[j].volume_id@,
                        rows0[j].bucket_id,
                    ) && bucket_of(db.buckets@, rows0[j].volume_id@, rows0[j].bucket_id)
                        == rows0[j].meta by {
                        assert(db.buckets@[j] == rows0[j]);
                        crate::meta::lemma_bucket_index_pub(db.buckets@, j);
                    }
                }
            },
        }
        Ok(())
    }

    /// The counters of bucket `id` of volume `volume_id`, if it has a row.
    pub fn get(db: &MetaStore, id: u32, volume_id: &String) -> (r: Option<BucketMeta>)
        requires
            db.wf(),
        ensures
            r == (if has_bucket(db.buckets@, volume_id@, id) {
                Some(bucket_of(db.buckets@, volume_id@, id))
            } else {
                None
            }),
    {
        match find_bucket(&db.buckets, volume_id, id) {
            Some(k) => {
                proof {
                    crate::meta::lemma_bucket_index_pub(db.buckets@, k as int);
                }
                Some(db.buckets[k].meta)
            },
            None => None,
        }
    }

    /// Whether bucket `id` of volume `volume_id` has a row.
    pub fn exists_bucket(db: &MetaStore, id: u32, volume_id: &String) -> (r: bool)
        ensures
            r == has_bucket(db.buckets@, volume_id@, id),
    {
        match find_bucket(&db.buckets, volume_id, id) {
            Some(_) => true,
            None => false,
        }
    }
}

} // verus!
