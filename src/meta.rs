//! Block, volume and bucket rows, and the metadata store that holds them in
//! four column families with atomic batches.

use vstd::prelude::*;
use crate::digest::{crc, crc_of};
use crate::ledger::{bytes_in, count_in};

verus! {

/// Digest algorithm that a caller says its `hash` was made with; stored as a tag.
#[derive(Debug, Clone, Copy, PartialEq, Eq, Structural)]
pub enum HashFun {
    Other,
    Md5,
    Sha128,
    Sha256,
    Hgw128,
    Hgw256,
}

impl HashFun {
    /// The RPC wire code.
    pub open spec fn code_spec(self) -> i32 {
        match self {
            HashFun::Other => 0,
            HashFun::Md5 => 1,
            HashFun::Sha128 => 2,
            HashFun::Sha256 => 3,
            HashFun::Hgw128 => 4,
            HashFun::Hgw256 => 5,
        }
    }

    pub fn to_code(&self) -> (r: i32)
        ensures
            r == self.code_spec(),
    {
        match self {
            HashFun::Other => 0,
            HashFun::Md5 => 1,
            HashFun::Sha128 => 2,
            HashFun::Sha256 => 3,
            HashFun::Hgw128 => 4,
            HashFun::Hgw256 => 5,
        }
    }

    /// Reads an RPC wire code; unknown codes are `Other`.
    pub fn from_code(code: i32) -> (r: HashFun)
        ensures
            1 <= code <= 5 ==> r.code_spec() == code,
            !(1 <= code <= 5) ==> r == HashFun::Other,
    {
        if code == 1 {
            HashFun::Md5
        } else if code == 2 {
            HashFun::Sha128
        } else if code == 3 {
            HashFun::Sha256
        } else if code == 4 {
            HashFun::Hgw128
        } else if code == 5 {
            HashFun::Hgw256
        } else {
            HashFun::Other
        }
    }

    /// Reads the `v-hash-fun` header: one digit `0` to `4` for md5, sha128,
    /// sha256, hgw128, hgw256; anything else is hgw128.
    pub fn from_header(v: &[u8]) -> (r: HashFun)
        ensures
            v@.len() == 1 && 48 <= v@[0] <= 52 ==> r.code_spec() == v@[0] - 47,
            !(v@.len() == 1 && 48 <= v@[0] <= 52) ==> r == HashFun::Hgw128,
    {
        if v.len() == 1 {
            let d = v[0];
            if d == 48 {
                HashFun::Md5
            } else if d == 49 {
                HashFun::Sha128
            } else if d == 50 {
                HashFun::Sha256
            } else if d == 51 {
                HashFun::Hgw128
            } else if d == 52 {
                HashFun::Hgw256
            } else {
                HashFun::Hgw128
            }
        } else {
            HashFun::Hgw128
        }
    }
}

/// Transfer or storage encoding of a payload.
#[derive(Debug, Clone, Copy, PartialEq, Eq, Structural)]
pub enum Compression {
    Plain,
    LZ4,
}

pub open spec fn ascii_lower(b: u8) -> u8 {
    if 65 <= b <= 90 {
        (b + 32) as u8
    } else {
        b
    }
}

impl Compression {
    /// Reads the `v-compress` header: `lz4` in any letter case selects LZ4.
    pub fn from_header(v: &[u8]) -> (r: Compression)
        ensures
            r == (if v@.len() == 3 && ascii_lower(v@[0]) == 108 && ascii_lower(v@[1]) == 122
                && v@[2] == 52 {
                Compression::LZ4
            } else {
                Compression::Plain
            }),
    {
        if v.len() == 3 {
            let a = v[0];
            let b = v[1];
            let la: u8 = if 65 <= a && a <= 90 { a + 32 } else { a };
            let lb: u8 = if 65 <= b && b <= 90 { b + 32 } else { b };
            if la == 108 && lb == 122 && v[2] == 52 {
                return Compression::LZ4;
            }
        }
        Compression::Plain
    }
}

/// Marker type of the metadata subsystem; it carries no data.
#[derive(Debug)]
pub struct Metainfo {}

/// A block row: what the store knows of one stored payload.
#[derive(Debug, Clone, PartialEq)]
pub struct BlockMeta {
    pub id: String,
    pub object_id: String,
    pub volume_id: String,
    pub bucket_id: u32,
    pub content_type: String,
    pub hash_fun: HashFun,
    pub hash: String,
    pub crc: String,
    pub size: u64,
    pub orig_size: u64,
    pub compressed: bool,
    pub path: String,
    pub created: u64,
    pub last_check_ts: u64,
}

/// The block fields that the RPC surface returns.
#[derive(Debug, Clone, PartialEq)]
pub struct MetaReply {
    pub content_type: String,
    pub crc: String,
    pub created: u64,
    pub hash: String,
    pub hash_fun: i32,
    pub last_check: u64,
    pub size: u64,
}

/// A volume row.
#[derive(Debug, Clone, PartialEq)]
pub struct VolumeMeta {
    pub id: String,
    pub path: String,
    pub last_check_ts: u64,
}

/// A bucket row: its space and block counters.
#[derive(Debug, Clone, Copy, PartialEq, Eq, Structural)]
pub struct BucketMeta {
    pub cnt_blocks: u64,
    pub active_slots: u64,
    pub init_size_bytes: u64,
    pub avail_size_bytes: u64,
    pub gc_size_bytes: u64,
    pub ts: u64,
}

/// A bucket row with its key, bucket `bucket_id` of volume `volume_id`.
#[derive(Debug, Clone, PartialEq)]
pub struct BucketRow {
    pub volume_id: String,
    pub bucket_id: u32,
    pub meta: BucketMeta,
}

/// A change that one batch makes to a bucket row.
pub enum BucketDelta {
    /// a block of this many bytes became live
    Store(u64),
    /// a live block of this many bytes was tombstoned
    Tombstone(u64),
    /// a tombstoned block of this many bytes was purged
    Purge(u64),
    /// a live block grew by this many bytes
    Grow(u64),
}

pub open spec fn adjust(m: BucketMeta, d: BucketDelta) -> BucketMeta {
    match d {
        BucketDelta::Store(n) => BucketMeta {
            cnt_blocks: (m.cnt_blocks + 1) as u64,
            avail_size_bytes: (m.avail_size_bytes - n) as u64,
            ..m
        },
        BucketDelta::Tombstone(n) => BucketMeta {
            cnt_blocks: (m.cnt_blocks - 1) as u64,
            gc_size_bytes: (m.gc_size_bytes + n) as u64,
            ..m
        },
        BucketDelta::Purge(n) => BucketMeta {
            gc_size_bytes: (m.gc_size_bytes - n) as u64,
            avail_size_bytes: (m.avail_size_bytes + n) as u64,
            ..m
        },
        BucketDelta::Grow(n) => BucketMeta { avail_size_bytes: (m.avail_size_bytes - n) as u64, ..m },
    }
}

pub open spec fn row_is(r: BucketRow, vol: Seq<char>, bid: u32) -> bool {
    r.volume_id@ == vol && r.bucket_id == bid
}

/// `rows` with delta `d` applied to the row of bucket `bid` of volume `vol`.
pub open spec fn adjust_rows(rows: Seq<BucketRow>, vol: Seq<char>, bid: u32, d: BucketDelta) -> Seq<
    BucketRow,
> {
    Seq::new(
        rows.len(),
        |i: int|
            if row_is(rows[i], vol, bid) {
                BucketRow {
                    volume_id: rows[i].volume_id,
                    bucket_id: rows[i].bucket_id,
                    meta: adjust(rows[i].meta, d),
                }
            } else {
                rows[i]
            },
    )
}

pub open spec fn has_id(rows: Seq<BlockMeta>, id: Seq<char>) -> bool {
    exists|i: int| 0 <= i < rows.len() && #[trigger] rows[i].id@ == id
}

pub open spec fn index_of(rows: Seq<BlockMeta>, id: Seq<char>) -> int {
    choose|i: int| 0 <= i < rows.len() && #[trigger] rows[i].id@ == id
}

/// The row with key `id`, where there is one.
pub open spec fn row_of(rows: Seq<BlockMeta>, id: Seq<char>) -> BlockMeta {
    rows[index_of(rows, id)]
}

pub open spec fn ids_unique(rows: Seq<BlockMeta>) -> bool {
    forall|i: int, j: int|
        0 <= i < rows.len() && 0 <= j < rows.len() && #[trigger] rows[i].id@ == #[trigger] rows[j].id@
            ==> i == j
}

pub open spec fn has_bucket(rows: Seq<BucketRow>, vol: Seq<char>, bid: u32) -> bool {
    exists|k: int| 0 <= k < rows.len() && row_is(#[trigger] rows[k], vol, bid)
}

pub open spec fn bucket_index(rows: Seq<BucketRow>, vol: Seq<char>, bid: u32) -> int {
    choose|k: int| 0 <= k < rows.len() && row_is(#[trigger] rows[k], vol, bid)
}

/// The counters of bucket `bid` of volume `vol`, where it has a row.
pub open spec fn bucket_of(rows: Seq<BucketRow>, vol: Seq<char>, bid: u32) -> BucketMeta {
    rows[bucket_index(rows, vol, bid)].meta
}

pub open spec fn buckets_unique(rows: Seq<BucketRow>) -> bool {
    forall|i: int, j: int|
        0 <= i < rows.len() && 0 <= j < rows.len() && row_is(
            #[trigger] rows[i],
            rows[j].volume_id@,
            rows[j].bucket_id,
        ) && #[trigger] rows[j].bucket_id == rows[i].bucket_id ==> i == j
}

/// A bucket row agrees with the live rows and tombstones: its block count is
/// the number of live blocks in it, its reclaimable bytes are the sizes of
/// its tombstones, and available, reclaimable and live bytes add up to its
/// capacity.
pub open spec fn bucket_consistent(r: BucketRow, blocks: Seq<BlockMeta>, tombs: Seq<BlockMeta>) -> bool {
    meta_consistent(r.meta, r.volume_id@, r.bucket_id, blocks, tombs)
}

/// `m` agrees, as the row of bucket `bid` of volume `vol`, with the live rows
/// and tombstones.
pub open spec fn meta_consistent(
    m: BucketMeta,
    vol: Seq<char>,
    bid: u32,
    blocks: Seq<BlockMeta>,
    tombs: Seq<BlockMeta>,
) -> bool {
    &&& m.cnt_blocks == count_in(blocks, vol, bid)
    &&& m.gc_size_bytes == bytes_in(tombs, vol, bid)
    &&& m.avail_size_bytes + m.gc_size_bytes + bytes_in(blocks, vol, bid) == m.init_size_bytes
}

pub open spec fn vol_ids_unique(rows: Seq<VolumeMeta>) -> bool {
    forall|i: int, j: int|
        0 <= i < rows.len() && 0 <= j < rows.len() && #[trigger] rows[i].id@ == #[trigger] rows[j].id@
            ==> i == j
}

pub open spec fn has_volume(rows: Seq<VolumeMeta>, id: Seq<char>) -> bool {
    exists|i: int| 0 <= i < rows.len() && #[trigger] rows[i].id@ == id
}

pub open spec fn volume_index(rows: Seq<VolumeMeta>, id: Seq<char>) -> int {
    choose|i: int| 0 <= i < rows.len() && #[trigger] rows[i].id@ == id
}

/// The metadata store: live block rows (`blocks`), tombstones
/// (`delete_queue`), bucket rows and volume rows, each keyed uniquely.
#[derive(Debug)]
pub struct MetaStore {
    pub blocks: Vec<BlockMeta>,
    pub delete_queue: Vec<BlockMeta>,
    pub buckets: Vec<BucketRow>,
    pub volumes: Vec<VolumeMeta>,
    pub size_bytes: Option<u64>,
}

impl MetaStore {
    /// Keys are unique in each family, no id is both live and tombstoned, and
    /// every bucket row is consistent with the rows it accounts for.
    pub open spec fn wf(&self) -> bool {
        &&& ids_unique(self.blocks@)
        &&& ids_unique(self.delete_queue@)
        &&& forall|i: int, j: int|
            0 <= i < self.blocks@.len() && 0 <= j < self.delete_queue@.len() ==> #[trigger] self.blocks@[i].id@
                != #[trigger] self.delete_queue@[j].id@
        &&& buckets_unique(self.buckets@)
        &&& forall|k: int|
            0 <= k < self.buckets@.len() ==> bucket_consistent(
                #[trigger] self.buckets@[k],
                self.blocks@,
                self.delete_queue@,
            )
        &&& vol_ids_unique(self.volumes@)
    }

    /// An empty store.
    pub fn new() -> (r: MetaStore)
        ensures
            r.wf(),
            r.blocks@.len() == 0,
            r.delete_queue@.len() == 0,
            r.buckets@.len() == 0,
            r.volumes@.len() == 0,
            r.size_bytes is None,
    {
        MetaStore { blocks: Vec::new(), delete_queue: Vec::new(), buckets: Vec::new(), volumes: Vec::new(), size_bytes: None }
    }

    /// Records the on-disk size of the store, as last measured.
    pub fn set_size(&mut self, n: u64)
        ensures
            final(self).size_bytes == Some(n),
            final(self).blocks == old(self).blocks,
            final(self).delete_queue == old(self).delete_queue,
            final(self).buckets == old(self).buckets,
            final(self).volumes == old(self).volumes,
    {
        self.size_bytes = Some(n);
    }
}

/// The on-disk size of the store, once it has been measured.
pub fn db_size(db: &MetaStore) -> (r: Option<u64>)
    ensures
        r == db.size_bytes,
{
    db.size_bytes
}

pub proof fn lemma_index_of(rows: Seq<BlockMeta>, i: int)
    requires
        ids_unique(rows),
        0 <= i < rows.len(),
    ensures
        has_id(rows, rows[i].id@),
        index_of(rows, rows[i].id@) == i,
        row_of(rows, rows[i].id@) == rows[i],
{
    let id = rows[i].id@;
    assert(rows[i].id@ == id);
    let j = index_of(rows, id);
    assert(rows[j].id@ == id);
}

pub proof fn lemma_bucket_index_pub(rows: Seq<BucketRow>, k: int)
    requires
        buckets_unique(rows),
        0 <= k < rows.len(),
    ensures
        has_bucket(rows, rows[k].volume_id@, rows[k].bucket_id),
        bucket_index(rows, rows[k].volume_id@, rows[k].bucket_id) == k,
        bucket_of(rows, rows[k].volume_id@, rows[k].bucket_id) == rows[k].meta,
{
    let vol = rows[k].volume_id@;
    let bid = rows[k].bucket_id;
    assert(row_is(rows[k], vol, bid));
    let j = bucket_index(rows, vol, bid);
    assert(row_is(rows[j], vol, bid));
    assert(rows[j].bucket_id == rows[k].bucket_id);
}

impl BlockMeta {
    /// A blank row stamped with `now` as creation and last-check time.
    pub fn new(now: u64) -> (r: BlockMeta)
        ensures
            r.id@.len() == 0,
            r.object_id@.len() == 0,
            r.volume_id@.len() == 0,
            r.bucket_id == 0,
            r.content_type@.len() == 0,
            r.hash_fun == HashFun::Hgw128,
            r.hash@.len() == 0,
            r.crc@.len() == 0,
            r.size == 0,
            r.orig_size == 0,
            !r.compressed,
            r.path@.len() == 0,
            r.created == now,
            r.last_check_ts == now,
    {
        BlockMeta {
            id: String::new(),
            object_id: String::new(),
            volume_id: String::new(),
            bucket_id: 0,
            content_type: String::new(),
            hash_fun: HashFun::Hgw128,
            hash: String::new(),
            crc: String::new(),
            size: 0,
            orig_size: 0,
            compressed: false,
            path: String::new(),
            created: now,
            last_check_ts: now,
        }
    }

    /// A field-by-field copy.
    pub fn dup(&self) -> (r: BlockMeta)
        ensures
            r == *self,
    {
        BlockMeta {
            id: self.id.clone(),
            object_id: self.object_id.clone(),
            volume_id: self.volume_id.clone(),
            bucket_id: self.bucket_id,
            content_type: self.content_type.clone(),
            hash_fun: self.hash_fun,
            hash: self.hash.clone(),
            crc: self.crc.clone(),
            size: self.size,
            orig_size: self.orig_size,
            compressed: self.compressed,
            path: self.path.clone(),
            created: self.created,
            last_check_ts: self.last_check_ts,
        }
    }

    /// The fields that the RPC surface reports.
    pub fn to_grpc(&self) -> (r: MetaReply)
        ensures
            r.content_type == self.content_type,
            r.crc == self.crc,
            r.created == self.created,
            r.hash == self.hash,
            r.hash_fun == self.hash_fun.code_spec(),
            r.last_check == self.last_check_ts,
            r.size == self.size,
    {
        MetaReply {
            content_type: self.content_type.clone(),
            crc: self.crc.clone(),
            created: self.created,
            hash: self.hash.clone(),
            hash_fun: self.hash_fun.to_code(),
            last_check: self.last_check_ts,
            size: self.size,
        }
    }

    /// The checksum of stored bytes: keyed HighwayHash-128 as 32 hex digits.
    pub fn crc(payload: &[u8]) -> (r: String)
        ensures
            r@ == crc_of(payload@),
    {
        crc(payload)
    }
}

} // verus!
