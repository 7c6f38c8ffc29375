//! The block engine: the user-facing operations composed from the placer
//! and the metadata store. File reads and writes happen between a `begin_`
//! and a `finish_` step, outside this crate; each step here is a pure state
//! transition with an exact contract.

use vstd::prelude::*;
use crate::codec::{fresh_uuid_hex, is_lower_hex, lz4_compress_bytes, lz4_decoded, lz4_decompress_bytes};
use crate::digest::crc_of;
use crate::disk::{can_delete_object, can_purge_object, object_deleted, object_purged, can_reserve, placement, release_fits, released_bucket, reserved, target, touched, Disk, WriteSlot};
use crate::meta::{has_id, row_of, BlockMeta, HashFun, MetaStore};
use crate::volume::Volume;
use crate::store::{can_store, purged, stored, tombstoned};

verus! {

/// Error kinds that the engine's operations surface.
#[derive(Debug, Clone, Copy, PartialEq, Eq, Structural)]
pub enum EngineError {
    InvalidArgument,
    NotFound,
    AlreadyExists,
    TooLarge,
    LengthMismatch,
    NotModified,
    NoCapacity,
    IOError,
    MetaError,
}

impl EngineError {
    /// The HTTP status that reports this error.
    pub open spec fn http_status_spec(self) -> u16 {
        match self {
            EngineError::InvalidArgument => 400,
            EngineError::NotFound => 404,
            EngineError::AlreadyExists => 409,
            EngineError::TooLarge => 413,
            EngineError::LengthMismatch => 411,
            EngineError::NotModified => 304,
            EngineError::NoCapacity => 503,
            EngineError::IOError => 503,
            EngineError::MetaError => 500,
        }
    }

    pub fn http_status(&self) -> (r: u16)
        ensures
            r == self.http_status_spec(),
    {
        match self {
            EngineError::InvalidArgument => 400,
            EngineError::NotFound => 404,
            EngineError::AlreadyExists => 409,
            EngineError::TooLarge => 413,
            EngineError::LengthMismatch => 411,
            EngineError::NotModified => 304,
            EngineError::NoCapacity => 503,
            EngineError::IOError => 503,
            EngineError::MetaError => 500,
        }
    }
}

/// Options of a write.
#[derive(Debug, Clone, PartialEq)]
pub struct WriteOptions {
    pub content_type: String,
    pub compress: bool,
    pub hash_fun: HashFun,
    pub hash: String,
}

/// What the unlink of a purged block's file came to.
#[derive(Debug, Clone, Copy, PartialEq, Eq, Structural)]
pub enum UnlinkOutcome {
    Removed,
    Missing,
    Failed,
}

/// `n` is `o` after the reservation `slot` ended having written `w` bytes, as
/// `Disk::release_write_slot` records it; unchanged where it cannot.
pub open spec fn released(o: Seq<Volume>, n: Seq<Volume>, slot: WriteSlot, w: u64) -> bool {
    if exists|vi: int, bi: int|
        #[trigger] target(o, slot.volume_id@, slot.bucket_id, vi, bi) && release_fits(o[vi], o[vi].buckets@[bi], w) {
        forall|vi: int, bi: int|
            #[trigger] target(o, slot.volume_id@, slot.bucket_id, vi, bi) ==> touched(
                o,
                n,
                vi,
                o[vi].active_slots - 1,
                if w > 0 {
                    crate::disk::sat_inc(o[vi].cnt_objects) as int
                } else {
                    o[vi].cnt_objects as int
                },
                bi,
                released_bucket(o[vi].buckets@[bi], w),
            )
    } else {
        n == o
    }
}

impl WriteSlot {
    /// Ends the reservation on `disk`, counting a write of `written_bytes`
    /// where positive.
    pub fn release(self, disk: &mut Disk, written_bytes: u64)
        ensures
            released(old(disk).volumes@, final(disk).volumes@, self, written_bytes),
    {
        let _ = disk.release_write_slot(self, written_bytes);
    }

    /// Writes `block_meta` live in `db` and ends the reservation: counted with
    /// the block's size where the batch applied, with nothing where it was
    /// refused.
    pub fn commit(self, block_meta: BlockMeta, disk: &mut Disk, db: &mut MetaStore) -> (r: Result<(), ()>)
        requires
            old(db).wf(),
        ensures
            final(db).wf(),
            r is Ok <==> can_store(*old(db), block_meta),
            r is Ok ==> stored(*old(db), *final(db), block_meta),
            r is Err ==> *final(db) == *old(db),
            released(
                old(disk).volumes@,
                final(disk).volumes@,
                self,
                if r is Ok {
                    block_meta.size
                } else {
                    0
                },
            ),
    {
        let written = block_meta.size;
        match block_meta.store(db) {
            Ok(_) => {
                self.release(disk, written);
                Ok(())
            },
            Err(_) => {
                self.release(disk, 0);
                Err(())
            },
        }
    }
}

/// Whether the live row `id` can be tombstoned: it exists and its bucket
/// has a row.
pub open spec fn can_tombstone(db: MetaStore, id: Seq<char>) -> bool {
    has_id(db.blocks@, id) && crate::meta::has_bucket(
        db.buckets@,
        row_of(db.blocks@, id).volume_id@,
        row_of(db.blocks@, id).bucket_id,
    )
}

/// Whether the tombstone `id` can be purged: it exists and its bucket has a
/// row.
pub open spec fn can_purge(db: MetaStore, id: Seq<char>) -> bool {
    has_id(db.delete_queue@, id) && crate::meta::has_bucket(
        db.buckets@,
        row_of(db.delete_queue@, id).volume_id@,
        row_of(db.delete_queue@, id).bucket_id,
    )
}

/// Moves the live row of `meta`'s id to the tombstones and records the
/// deletion on the placer with `meta`'s volume, bucket and size, both or
/// neither: where either would be refused, nothing changes.
pub fn mark_block_as_deleted(meta: BlockMeta, db: &mut MetaStore, disk: &mut Disk) -> (r: Result<(), ()>)
    requires
        old(db).wf(),
    ensures
        final(db).wf(),
        r is Ok <==> can_tombstone(*old(db), meta.id@) && can_delete_object(
            old(disk).volumes@,
            meta.volume_id@,
            meta.bucket_id,
            meta.size,
        ),
        r is Ok ==> tombstoned(*old(db), *final(db), meta.id@) && object_deleted(
            old(disk).volumes@,
            final(disk).volumes@,
            meta.volume_id@,
            meta.bucket_id,
            meta.size,
        ),
        r is Err ==> *final(db) == *old(db) && final(disk).volumes@ == old(disk).volumes@,
{
    if !disk.can_delete(&meta.volume_id, meta.bucket_id, meta.size) {
        return Err(());
    }
    let volume_id = meta.volume_id.clone();
    let bucket_id = meta.bucket_id;
    let size = meta.size;
    if meta.delete(db).is_err() {
        return Err(());
    }
    let _ = disk.delete_object(&volume_id, bucket_id, size);
    Ok(())
}

/// After the unlink of `meta`'s file: where the file is gone (removed now or
/// missing already) the tombstone is purged and the placer credited with
/// `meta`'s size, both or neither; where the unlink failed, or either step
/// would be refused, nothing changes and the tombstone stays for the next
/// pass.
pub fn purge_block(meta: BlockMeta, unlink: UnlinkOutcome, db: &mut MetaStore, disk: &mut Disk) -> (r: Result<(), ()>)
    requires
        old(db).wf(),
    ensures
        final(db).wf(),
        r is Ok <==> unlink != UnlinkOutcome::Failed && can_purge(*old(db), meta.id@) && can_purge_object(
            old(disk).volumes@,
            meta.volume_id@,
            meta.bucket_id,
            meta.size,
        ),
        r is Ok ==> purged(*old(db), *final(db), meta.id@) && object_purged(
            old(disk).volumes@,
            final(disk).volumes@,
            meta.volume_id@,
            meta.bucket_id,
            meta.size,
        ),
        r is Err ==> *final(db) == *old(db) && final(disk).volumes@ == old(disk).volumes@,
{
    if unlink == UnlinkOutcome::Failed {
        return Err(());
    }
    if !disk.can_purge(&meta.volume_id, meta.bucket_id, meta.size) {
        return Err(());
    }
    let volume_id = meta.volume_id.clone();
    let bucket_id = meta.bucket_id;
    let size = meta.size;
    if meta.purge(db).is_err() {
        return Err(());
    }
    let _ = disk.purge_object(&volume_id, bucket_id, size);
    Ok(())
}

/// Whether `body` is the stored form of payload `p` under the compression
/// choice `want`, with flag `compressed`: compressed only where asked for and
/// strictly shorter than the payload, and then decoding back to it; else the
/// payload itself.
pub open spec fn stored_form(p: Seq<u8>, want: bool, body: Seq<u8>, compressed: bool) -> bool {
    &&& compressed ==> want && body.len() < p.len() && lz4_decoded(body) == Some(p)
    &&& !compressed ==> body == p
}

/// The payload that stored bytes stand for.
pub open spec fn decoded_form(body: Seq<u8>, compressed: bool) -> Option<Seq<u8>> {
    if compressed {
        lz4_decoded(body)
    } else {
        Some(body)
    }
}

/// What a read hands back for a row stored `compressed` whose file held
/// `content` (none where the read failed): the bytes and whether they are
/// compressed, decompressed unless the caller accepts compressed bytes.
pub open spec fn read_payload(compressed: bool, content: Option<Seq<u8>>, accept_compressed: bool) -> Option<
    (Seq<u8>, bool),
> {
    match content {
        None => None,
        Some(c) => if compressed && !accept_compressed {
            match lz4_decoded(c) {
                Some(d) => Some((d, false)),
                None => None,
            }
        } else {
            Some((c, compressed))
        },
    }
}

/// A write in progress: the reserved slot, the row to be written (without
/// its checksum yet) and the bytes to store at the slot's path.
#[derive(Debug)]
pub struct PendingWrite {
    pub slot: WriteSlot,
    pub meta: BlockMeta,
    pub body: Vec<u8>,
}

/// The top-level engine: placer, metadata store and payload size limit.
#[derive(Debug)]
pub struct BlockEngine {
    pub disk: Disk,
    pub meta: MetaStore,
    pub block_size_limit_bytes: u64,
}

/// Whether id `key` is taken: live, or tombstoned and not yet purged.
pub open spec fn id_taken(db: MetaStore, key: Seq<char>) -> bool {
    has_id(db.blocks@, key) || has_id(db.delete_queue@, key)
}

/// `p` is the write of `payload` under `key` that `o` prepared into `n`:
/// the row carries the caller's fields, the stored form of the payload and
/// the slot's placement; the slot was reserved by the placer's rule; the
/// store is untouched.
pub open spec fn write_prepared(
    o: BlockEngine,
    n: BlockEngine,
    p: PendingWrite,
    key: Seq<char>,
    object_id: Seq<char>,
    payload: Seq<u8>,
    options: WriteOptions,
    now: u64,
) -> bool {
    &&& n.meta == o.meta
    &&& n.block_size_limit_bytes == o.block_size_limit_bytes
    &&& p.meta.id@ == key
    &&& p.meta.object_id@ == object_id
    &&& p.meta.content_type == options.content_type
    &&& p.meta.hash_fun == options.hash_fun
    &&& p.meta.hash == options.hash
    &&& p.meta.crc@.len() == 0
    &&& p.meta.orig_size == payload.len()
    &&& stored_form(payload, options.compress, p.body@, p.meta.compressed)
    &&& p.meta.size == p.body@.len()
    &&& decoded_form(p.body@, p.meta.compressed) == Some(payload)
    &&& p.meta.created == now
    &&& p.meta.last_check_ts == now
    &&& p.meta.volume_id == p.slot.volume_id
    &&& p.meta.bucket_id == p.slot.bucket_id
    &&& p.meta.path == p.slot.file_path
    &&& exists|vi: int, bi: int|
        #![trigger placement(o.disk.volumes@, vi, bi)]
        {
            let b = o.disk.volumes@[vi].buckets@[bi];
            &&& placement(o.disk.volumes@, vi, bi)
            &&& reserved(o.disk.volumes@, n.disk.volumes@, vi, bi)
            &&& p.slot.volume_id == o.disk.volumes@[vi].id
            &&& p.slot.bucket_id == b.id
            &&& p.slot.file_path@.len() > b.path@.len()
            &&& p.slot.file_path@.subrange(0, b.path@.len() as int + 1) == b.path@.push('/')
        }
}

impl BlockEngine {
    pub open spec fn wf(&self) -> bool {
        self.meta.wf()
    }

    /// An engine over `disk` and `meta`.
    pub fn new(disk: Disk, meta: MetaStore, block_size_limit_bytes: u64) -> (r: BlockEngine)
        requires
            meta.wf(),
        ensures
            r.wf(),
            r.disk == disk,
            r.meta == meta,
            r.block_size_limit_bytes == block_size_limit_bytes,
    {
        BlockEngine { disk, meta, block_size_limit_bytes }
    }

    /// Prepares the write of `payload` under `id`, or under `fresh_id` where
    /// `id` is empty, into a file named `file_name` in the chosen bucket.
    /// Refused with `AlreadyExists` where that id is live or awaiting purge,
    /// else with `TooLarge` where the payload exceeds the limit, else with
    /// `NoCapacity` where no slot can be reserved; a refusal changes nothing.
    /// On success a slot is reserved and the payload is kept compressed
    /// exactly where compression was asked for and came out strictly shorter.
    pub fn prepare_write(
        &mut self,
        id: String,
        fresh_id: String,
        object_id: String,
        payload: Vec<u8>,
        options: WriteOptions,
        now: u64,
        file_name: &String,
    ) -> (r: Result<PendingWrite, EngineError>)
        requires
            old(self).wf(),
        ensures
            final(self).wf(),
            ({
                let key = if id@.len() == 0 { fresh_id@ } else { id@ };
                &&& id_taken(old(self).meta, key) ==> r == Err::<PendingWrite, EngineError>(
                    EngineError::AlreadyExists,
                )
                &&& !id_taken(old(self).meta, key) && payload@.len() > old(self).block_size_limit_bytes
                    ==> r == Err::<PendingWrite, EngineError>(EngineError::TooLarge)
                &&& !id_taken(old(self).meta, key) && payload@.len() <= old(self).block_size_limit_bytes
                    && !can_reserve(old(self).disk.volumes@) ==> r == Err::<PendingWrite, EngineError>(
                    EngineError::NoCapacity,
                )
                &&& r is Ok <==> !id_taken(old(self).meta, key) && payload@.len()
                    <= old(self).block_size_limit_bytes && can_reserve(old(self).disk.volumes@)
                &&& r matches Ok(p) ==> write_prepared(
                    *old(self),
                    *final(self),
                    p,
                    key,
                    object_id@,
                    payload@,
                    options,
                    now,
                )
            }),
            r matches Ok(p) ==> exists|vi: int, bi: int|
                #![trigger placement(old(self).disk.volumes@, vi, bi)]
                placement(old(self).disk.volumes@, vi, bi) && p.slot.file_path@
                    == old(self).disk.volumes@[vi].buckets@[bi].path@.push('/') + file_name@,
            r is Err ==> final(self).disk.volumes@ == old(self).disk.volumes@ && final(self).meta
                == old(self).meta,
    {
        let key = if id.as_str().is_empty() { fresh_id } else { id };
        if BlockMeta::exists_block(&self.meta, &key) || self.meta.delete_queue_has(&key) {
            return Err(EngineError::AlreadyExists);
        }
        if payload.len() as u64 > self.block_size_limit_bytes {
            return Err(EngineError::TooLarge);
        }
        let ghost vs0 = self.disk.volumes@;
        let slot = match self.disk.get_write_slot_named(file_name) {
            Ok(s) => s,
            Err(_) => return Err(EngineError::NoCapacity),
        };
        let orig_size = payload.len() as u64;
        let (body, compressed) = if options.compress {
            let c = lz4_compress_bytes(payload.as_slice());
            if c.len() < payload.len() {
                (c, true)
            } else {
                (payload, false)
            }
        } else {
            (payload, false)
        };
        let mut meta = BlockMeta::new(now);
        meta.id = key;
        meta.object_id = object_id;
        meta.content_type = options.content_type;
        meta.hash_fun = options.hash_fun;
        meta.hash = options.hash;
        meta.orig_size = orig_size;
        meta.compressed = compressed;
        meta.size = body.len() as u64;
        meta.volume_id = slot.volume_id.clone();
        meta.bucket_id = slot.bucket_id;
        meta.path = slot.file_path.clone();
        proof {
            let (vi, bi) = choose|vi: int, bi: int|
                #![trigger placement(vs0, vi, bi)]
                {
                    let b = vs0[vi].buckets@[bi];
                    &&& placement(vs0, vi, bi)
                    &&& reserved(vs0, self.disk.volumes@, vi, bi)
                    &&& slot.volume_id == vs0[vi].id
                    &&& slot.bucket_id == b.id
                    &&& slot.file_path@ == b.path@.push('/') + file_name@
                };
            let b = vs0[vi].buckets@[bi];
            assert(slot.file_path@.subrange(0, b.path@.len() as int + 1) =~= b.path@.push('/'));
        }
        Ok(PendingWrite { slot, meta, body })
    }
}

/// What starting a write of `len` bytes under `id` (a fresh id where empty)
/// can come to on `o`: an error for a taken id first, then `TooLarge` past
/// the limit, then `NoCapacity` where no slot can be reserved, else success.
/// A fresh id may collide with a taken one, so for an empty id every case
/// also admits `AlreadyExists`.
pub open spec fn begin_outcome(o: BlockEngine, id: Seq<char>, len: int, r: Result<PendingWrite, EngineError>) -> bool {
    let limit = o.block_size_limit_bytes;
    let room = can_reserve(o.disk.volumes@);
    let taken = r == Err::<PendingWrite, EngineError>(EngineError::AlreadyExists);
    &&& r is Ok ==> len <= limit && room
    &&& len > limit ==> r == Err::<PendingWrite, EngineError>(EngineError::TooLarge) || taken
    &&& len <= limit && !room ==> r == Err::<PendingWrite, EngineError>(EngineError::NoCapacity) || taken
    &&& len <= limit && room ==> r is Ok || taken
    &&& id.len() > 0 ==> (taken <==> id_taken(o.meta, id))
}

impl BlockEngine {
    /// Prepares an insert: as `prepare_write`, with a fresh random id (32 hex
    /// digits) where `id` is empty and a fresh random file name.
    pub fn begin_insert(
        &mut self,
        id: String,
        object_id: String,
        payload: Vec<u8>,
        options: WriteOptions,
        now: u64,
    ) -> (r: Result<PendingWrite, EngineError>)
        requires
            old(self).wf(),
        ensures
            final(self).wf(),
            begin_outcome(*old(self), id@, payload@.len() as int, r),
            r matches Ok(p) ==> {
                let key = if id@.len() == 0 { p.meta.id@ } else { id@ };
                &&& write_prepared(*old(self), *final(self), p, key, object_id@, payload@, options, now)
                &&& id@.len() == 0 ==> p.meta.id@.len() == 32 && forall|i: int|
                    0 <= i < 32 ==> is_lower_hex(#[trigger] p.meta.id@[i])
                &&& !id_taken(old(self).meta, p.meta.id@)
            },
            r is Err ==> final(self).disk.volumes@ == old(self).disk.volumes@ && final(self).meta
                == old(self).meta,
    {
        let fresh = if id.as_str().is_empty() { fresh_uuid_hex() } else { String::new() };
        let file_name = fresh_uuid_hex();
        self.prepare_write(id, fresh, object_id, payload, options, now, &file_name)
    }

    /// Prepares an upsert. An id that is live or awaiting purge is refused
    /// with `AlreadyExists`, as for an insert: overwriting a stored block is
    /// not supported, since its file and bytes would be lost to accounting.
    pub fn begin_upsert(
        &mut self,
        id: String,
        object_id: String,
        payload: Vec<u8>,
        options: WriteOptions,
        now: u64,
    ) -> (r: Result<PendingWrite, EngineError>)
        requires
            old(self).wf(),
        ensures
            final(self).wf(),
            begin_outcome(*old(self), id@, payload@.len() as int, r),
            r matches Ok(p) ==> {
                let key = if id@.len() == 0 { p.meta.id@ } else { id@ };
                &&& write_prepared(*old(self), *final(self), p, key, object_id@, payload@, options, now)
                &&& id@.len() == 0 ==> p.meta.id@.len() == 32
                &&& !id_taken(old(self).meta, p.meta.id@)
            },
            r is Err ==> final(self).disk.volumes@ == old(self).disk.volumes@ && final(self).meta
                == old(self).meta,
    {
        self.begin_insert(id, object_id, payload, options, now)
    }

    /// Completes a prepared write once the body has (`written`) or has not
    /// been stored at the slot's path. Where it was, the row gets the
    /// checksum of the stored bytes and is written live; the slot is then
    /// released counting the block's size. Where the file write failed or the
    /// batch was refused, the slot is released with nothing counted and the
    /// result is `IOError`.
    pub fn finish_write(&mut self, pending: PendingWrite, written: bool) -> (r: Result<BlockMeta, EngineError>)
        requires
            old(self).wf(),
        ensures
            final(self).wf(),
            final(self).block_size_limit_bytes == old(self).block_size_limit_bytes,
            r is Ok <==> written && can_store(old(self).meta, pending.meta),
            r matches Ok(b) ==> {
                &&& b == BlockMeta { crc: b.crc, ..pending.meta }
                &&& b.crc@ == crc_of(pending.body@)
                &&& stored(old(self).meta, final(self).meta, b)
                &&& released(old(self).disk.volumes@, final(self).disk.volumes@, pending.slot, b.size)
            },
            r is Err ==> {
                &&& r == Err::<BlockMeta, EngineError>(EngineError::IOError)
                &&& final(self).meta == old(self).meta
                &&& released(old(self).disk.volumes@, final(self).disk.volumes@, pending.slot, 0)
            },
    {
        let PendingWrite { slot, meta, body } = pending;
        if !written {
            slot.release(&mut self.disk, 0);
            return Err(EngineError::IOError);
        }
        let mut meta = meta;
        meta.crc = BlockMeta::crc(body.as_slice());
        let out = meta.dup();
        match slot.commit(meta, &mut self.disk, &mut self.meta) {
            Ok(_) => Ok(out),
            Err(_) => Err(EngineError::IOError),
        }
    }

    /// Looks up `id` for a read. `NotFound` where it is not live;
    /// `NotModified` where `if_none_match` is given and equals the row's
    /// checksum, before any file is read; else the row, whose file the caller
    /// reads next.
    pub fn begin_get(&self, id: &String, if_none_match: &String) -> (r: Result<BlockMeta, EngineError>)
        requires
            self.wf(),
        ensures
            !has_id(self.meta.blocks@, id@) ==> r == Err::<BlockMeta, EngineError>(EngineError::NotFound),
            has_id(self.meta.blocks@, id@) ==> {
                let row = row_of(self.meta.blocks@, id@);
                if if_none_match@.len() > 0 && if_none_match@ == row.crc@ {
                    r == Err::<BlockMeta, EngineError>(EngineError::NotModified)
                } else {
                    r == Ok::<BlockMeta, EngineError>(row)
                }
            },
    {
        match BlockMeta::get(&self.meta, id) {
            None => Err(EngineError::NotFound),
            Some(row) => {
                if !if_none_match.as_str().is_empty() && *if_none_match == row.crc {
                    Err(EngineError::NotModified)
                } else {
                    Ok(row)
                }
            },
        }
    }

    /// Completes a read of `meta`'s file, which held `content` (none where the
    /// read failed): decompressed where the row is compressed and the caller
    /// does not accept compressed bytes. Returns the bytes and whether they
    /// are compressed; `IOError` where the read or the decoding failed.
    pub fn finish_get(meta: &BlockMeta, content: Option<Vec<u8>>, accept_compressed: bool) -> (r: Result<(Vec<u8>, bool), EngineError>)
        ensures
            match r {
                Ok((v, f)) => read_payload(
                    meta.compressed,
                    match content {
                        Some(c) => Some(c@),
                        None => None,
                    },
                    accept_compressed,
                ) == Some((v@, f)),
                Err(e) => e == EngineError::IOError && read_payload(
                    meta.compressed,
                    match content {
                        Some(c) => Some(c@),
                        None => None,
                    },
                    accept_compressed,
                ) is None,
            },
    {
        match content {
            None => Err(EngineError::IOError),
            Some(c) => {
                if meta.compressed && !accept_compressed {
                    match lz4_decompress_bytes(c.as_slice()) {
                        Some(d) => Ok((d, false)),
                        None => Err(EngineError::IOError),
                    }
                } else {
                    Ok((c, meta.compressed))
                }
            },
        }
    }

    /// Whether `id` is live.
    pub fn has_block(&self, id: &String) -> (r: bool)
        ensures
            r == has_id(self.meta.blocks@, id@),
    {
        BlockMeta::exists_block(&self.meta, id)
    }

    /// Deletes `id`: its row moves to the tombstones (the file stays until
    /// garbage collection) and the placer is told, both or neither.
    /// `InvalidArgument` for an empty id, `NotFound` where it is not live,
    /// `MetaError`, with no effect, where the batch or the placer would refuse.
    pub fn delete(&mut self, id: &String) -> (r: Result<String, EngineError>)
        requires
            old(self).wf(),
        ensures
            final(self).wf(),
            final(self).block_size_limit_bytes == old(self).block_size_limit_bytes,
            id@.len() == 0 ==> r == Err::<String, EngineError>(EngineError::InvalidArgument),
            id@.len() > 0 && !has_id(old(self).meta.blocks@, id@) ==> r == Err::<String, EngineError>(
                EngineError::NotFound,
            ),
            r is Ok <==> id@.len() > 0 && can_tombstone(old(self).meta, id@) && can_delete_object(
                old(self).disk.volumes@,
                row_of(old(self).meta.blocks@, id@).volume_id@,
                row_of(old(self).meta.blocks@, id@).bucket_id,
                row_of(old(self).meta.blocks@, id@).size,
            ),
            r matches Ok(d) ==> {
                let row = row_of(old(self).meta.blocks@, id@);
                &&& d@ == id@
                &&& tombstoned(old(self).meta, final(self).meta, id@)
                &&& object_deleted(
                    old(self).disk.volumes@,
                    final(self).disk.volumes@,
                    row.volume_id@,
                    row.bucket_id,
                    row.size,
                )
            },
            r is Err ==> final(self).meta == old(self).meta && final(self).disk.volumes@
                == old(self).disk.volumes@,
            id@.len() > 0 && has_id(old(self).meta.blocks@, id@) && r is Err ==> r == Err::<String, EngineError>(
                EngineError::MetaError,
            ),
    {
        if id.as_str().is_empty() {
            return Err(EngineError::InvalidArgument);
        }
        match BlockMeta::get(&self.meta, id) {
            None => Err(EngineError::NotFound),
            Some(row) => {
                let deleted = row.id.clone();
                match mark_block_as_deleted(row, &mut self.meta, &mut self.disk) {
                    Ok(_) => Ok(deleted),
                    Err(_) => Err(EngineError::MetaError),
                }
            },
        }
    }
}

impl BlockEngine {
    /// Checks an append of `extra_len` bytes to `id` before the file is
    /// touched: `InvalidArgument` for an empty id, `TooLarge` past the payload
    /// limit, `NotFound` where the id is not live, and `InvalidArgument` for a
    /// compressed block, whose file cannot take raw bytes. Else the row.
    pub fn begin_append(&self, id: &String, extra_len: usize) -> (r: Result<BlockMeta, EngineError>)
        requires
            self.wf(),
        ensures
            id@.len() == 0 ==> r == Err::<BlockMeta, EngineError>(EngineError::InvalidArgument),
            id@.len() > 0 && extra_len > self.block_size_limit_bytes ==> r == Err::<BlockMeta, EngineError>(
                EngineError::TooLarge,
            ),
            id@.len() > 0 && extra_len <= self.block_size_limit_bytes && !has_id(self.meta.blocks@, id@)
                ==> r == Err::<BlockMeta, EngineError>(EngineError::NotFound),
            id@.len() > 0 && extra_len <= self.block_size_limit_bytes && has_id(self.meta.blocks@, id@)
                ==> r == (if row_of(self.meta.blocks@, id@).compressed {
                Err::<BlockMeta, EngineError>(EngineError::InvalidArgument)
            } else {
                Ok::<BlockMeta, EngineError>(row_of(self.meta.blocks@, id@))
            }),
    {
        if id.as_str().is_empty() {
            return Err(EngineError::InvalidArgument);
        }
        if extra_len as u64 > self.block_size_limit_bytes {
            return Err(EngineError::TooLarge);
        }
        match BlockMeta::get(&self.meta, id) {
            None => Err(EngineError::NotFound),
            Some(row) => if row.compressed {
                Err(EngineError::InvalidArgument)
            } else {
                Ok(row)
            },
        }
    }

    /// Completes an append of `extra_len` bytes to `id`, given the whole file
    /// as re-read afterwards (none where writing or reading failed). The row
    /// takes the file's size and checksum and its bucket is debited
    /// `extra_len` bytes, in one batch. `IOError`, with no effect, where the
    /// file could not be read, is not the old size plus `extra_len`, or the
    /// batch was refused (a compressed row is refused); `NotFound` where the id is not live.
    pub fn finish_append(&mut self, id: &String, extra_len: u64, body: Option<Vec<u8>>) -> (r: Result<BlockMeta, EngineError>)
        requires
            old(self).wf(),
        ensures
            final(self).wf(),
            final(self).block_size_limit_bytes == old(self).block_size_limit_bytes,
            final(self).disk.volumes@ == old(self).disk.volumes@,
            r is Err ==> final(self).meta == old(self).meta,
            !has_id(old(self).meta.blocks@, id@) ==> r == Err::<BlockMeta, EngineError>(EngineError::NotFound),
            r matches Ok(n) ==> {
                let row = row_of(old(self).meta.blocks@, id@);
                &&& body is Some
                &&& n.size == row.size + extra_len
                &&& crate::store::grown(n, row, body->Some_0@)
                &&& final(self).meta.blocks@ == old(self).meta.blocks@.update(
                    crate::meta::index_of(old(self).meta.blocks@, id@),
                    n,
                )
                &&& final(self).meta.buckets@ == crate::meta::adjust_rows(
                    old(self).meta.buckets@,
                    row.volume_id@,
                    row.bucket_id,
                    crate::meta::BucketDelta::Grow(extra_len),
                )
            },
            has_id(old(self).meta.blocks@, id@) ==> (r is Ok <==> {
                let row = row_of(old(self).meta.blocks@, id@);
                &&& !row.compressed
                &&& body is Some
                &&& body->Some_0@.len() == row.size + extra_len
                &&& crate::meta::has_bucket(old(self).meta.buckets@, row.volume_id@, row.bucket_id)
                &&& crate::meta::bucket_of(old(self).meta.buckets@, row.volume_id@, row.bucket_id).avail_size_bytes
                    >= extra_len
            }),
    {
        let row = match BlockMeta::get(&self.meta, id) {
            None => return Err(EngineError::NotFound),
            Some(row) => row,
        };
        let content = match body {
            None => return Err(EngineError::IOError),
            Some(c) => c,
        };
        if content.len() as u128 != row.size as u128 + extra_len as u128 {
            return Err(EngineError::IOError);
        }
        match BlockMeta::append(&mut self.meta, id, content.as_slice()) {
            Ok(n) => Ok(n),
            Err(_) => Err(EngineError::IOError),
        }
    }

    /// Revalidates `meta`'s block from its file's `content` (none where the
    /// read failed): true exactly where the bytes have the row's checksum.
    /// Either way the live row's `last_check_ts` becomes `now`, and nothing
    /// else changes.
    pub fn revalidate(&mut self, meta: &BlockMeta, content: Option<Vec<u8>>, now: u64) -> (r: bool)
        requires
            old(self).wf(),
        ensures
            final(self).wf(),
            r == (content matches Some(c) && crc_of(c@) == meta.crc@),
            final(self).disk == old(self).disk,
            final(self).block_size_limit_bytes == old(self).block_size_limit_bytes,
            final(self).meta.delete_queue@ == old(self).meta.delete_queue@,
            final(self).meta.buckets@ == old(self).meta.buckets@,
            has_id(old(self).meta.blocks@, meta.id@) ==> final(self).meta.blocks@ == old(self).meta.blocks@.update(
                crate::meta::index_of(old(self).meta.blocks@, meta.id@),
                BlockMeta { last_check_ts: now, ..row_of(old(self).meta.blocks@, meta.id@) },
            ),
            !has_id(old(self).meta.blocks@, meta.id@) ==> final(self).meta.blocks@ == old(self).meta.blocks@,
    {
        let ok = match content {
            Some(c) => {
                let sum = BlockMeta::crc(c.as_slice());
                sum == meta.crc
            },
            None => false,
        };
        let _ = self.meta.touch_block_meta(&meta.id, now);
        ok
    }

    /// The live rows due for revalidation at `now`, given a check interval
    /// of `days` days.
    pub fn blocks_due(&self, now: u64, days: u32) -> (r: Vec<BlockMeta>)
        ensures
            r@ == crate::store::due_rows(self.meta.blocks@, now, days),
    {
        self.meta.blocks_due(now, days)
    }

    /// Up to `limit` tombstones to collect, in store order.
    pub fn gc_candidates(&self, limit: u32) -> (r: Vec<BlockMeta>)
        ensures
            r@ == self.meta.delete_queue@.take(
                if (limit as int) < self.meta.delete_queue@.len() {
                    limit as int
                } else {
                    self.meta.delete_queue@.len() as int
                },
            ),
    {
        BlockMeta::fetch_deleted(&self.meta, limit)
    }

    /// One garbage-collection pass over `batch`, whose files' unlinks came to
    /// `outcomes`, item by item in order. Each item is a step from one state
    /// to the next: where the file is gone (removed or missing) and the store
    /// and placer can take it, its tombstone is purged and its bytes given
    /// back on both; otherwise nothing changes and the tombstone stays for the
    /// next pass. Returns, per item, whether it was purged.
    pub fn gc_pass(&mut self, batch: Vec<BlockMeta>, outcomes: &Vec<UnlinkOutcome>) -> (done: Vec<bool>)
        requires
            old(self).wf(),
            outcomes@.len() == batch@.len(),
        ensures
            final(self).wf(),
            done@.len() == batch@.len(),
            final(self).block_size_limit_bytes == old(self).block_size_limit_bytes,
            final(self).meta.blocks@ == old(self).meta.blocks@,
            batch@.len() == 0 ==> final(self).meta == old(self).meta && final(self).disk.volumes@
                == old(self).disk.volumes@,
            exists|ms: Seq<MetaStore>, vs: Seq<Seq<Volume>>|
                {
                    &&& ms.len() == batch@.len() + 1
                    &&& vs.len() == batch@.len() + 1
                    &&& ms[0] == old(self).meta
                    &&& vs[0] == old(self).disk.volumes@
                    &&& ms[batch@.len() as int] == final(self).meta
                    &&& vs[batch@.len() as int] == final(self).disk.volumes@
                    &&& forall|k: int|
                        0 <= k < batch@.len() ==> gc_step(
                            ms[k],
                            ms[k + 1],
                            vs[k],
                            vs[k + 1],
                            #[trigger] batch@[k],
                            outcomes@[k],
                            done@[k],
                        )
                },
    {
        let mut done: Vec<bool> = Vec::new();
        let ghost mut ms: Seq<MetaStore> = seq![self.meta];
        let ghost mut vs: Seq<Seq<Volume>> = seq![self.disk.volumes@];
        let mut i: usize = 0;
        let len = batch.len();
        while i < len
            invariant
                self.wf(),
                len == outcomes@.len(),
                len == batch@.len(),
                i <= len,
                done@.len() == i,
                ms.len() == i + 1,
                vs.len() == i + 1,
                ms[0] == old(self).meta,
                vs[0] == old(self).disk.volumes@,
                ms[i as int] == self.meta,
                vs[i as int] == self.disk.volumes@,
                self.block_size_limit_bytes == old(self).block_size_limit_bytes,
                self.meta.blocks@ == old(self).meta.blocks@,
                forall|k: int|
                    0 <= k < i ==> gc_step(
                        ms[k],
                        ms[k + 1],
                        vs[k],
                        vs[k + 1],
                        #[trigger] batch@[k],
                        outcomes@[k],
                        done@[k],
                    ),
            decreases len - i,
        {
            let ok = purge_block(batch[i].dup(), outcomes[i], &mut self.meta, &mut self.disk).is_ok();
            done.push(ok);
            proof {
                ms = ms.push(self.meta);
                vs = vs.push(self.disk.volumes@);
            }
            i = i + 1;
        }
        done
    }
}

impl BlockEngine {
    /// Checks an upload whose declared length is `declared_len` and whose
    /// body came to `body_len` bytes: `TooLarge` where the declared length
    /// exceeds the payload limit, else `LengthMismatch` where the two differ.
    pub fn check_upload(&self, declared_len: u64, body_len: usize) -> (r: Result<(), EngineError>)
        ensures
            declared_len > self.block_size_limit_bytes ==> r == Err::<(), EngineError>(EngineError::TooLarge),
            declared_len <= self.block_size_limit_bytes && body_len != declared_len ==> r == Err::<
                (),
                EngineError,
            >(EngineError::LengthMismatch),
            declared_len <= self.block_size_limit_bytes && body_len == declared_len ==> r is Ok,
    {
        if declared_len > self.block_size_limit_bytes {
            Err(EngineError::TooLarge)
        } else if body_len as u128 != declared_len as u128 {
            Err(EngineError::LengthMismatch)
        } else {
            Ok(())
        }
    }
}

/// One item of a garbage-collection pass, from store `m0` and placer `v0`
/// to `m1` and `v1`: `done` exactly where the unlink did not fail and both
/// the store and the placer can take the purge of `item`; then both take it,
/// else nothing changes.
pub open spec fn gc_step(
    m0: MetaStore,
    m1: MetaStore,
    v0: Seq<Volume>,
    v1: Seq<Volume>,
    item: BlockMeta,
    outcome: UnlinkOutcome,
    done: bool,
) -> bool {
    &&& done == (outcome != UnlinkOutcome::Failed && can_purge(m0, item.id@) && can_purge_object(
        v0,
        item.volume_id@,
        item.bucket_id,
        item.size,
    ))
    &&& done ==> purged(m0, m1, item.id@) && object_purged(v0, v1, item.volume_id@, item.bucket_id, item.size)
    &&& !done ==> m1 == m0 && v1 == v0
}

} // verus!
