//! Status snapshots: engine aggregates and the last sampled host figures.

use vstd::prelude::*;
use crate::bucket::Bucket;
use crate::config::Interfaces;
use crate::disk::Disk;
use crate::meta::MetaStore;
use crate::volume::Volume;

verus! {

/// Identity and endpoints of this node.
#[derive(Debug, Clone, PartialEq)]
pub struct NodeStatus {
    pub nodename: String,
    pub status: String,
    pub zone: String,
    pub rest_internal_endpoint: String,
    pub rest_public_endpoint: String,
    pub grpc_internal_endpoint: String,
    pub grpc_public_endpoint: String,
}

impl NodeStatus {
    /// The node's status record: internal endpoints are the LAN ones, public
    /// endpoints the WAN ones.
    pub fn get(nodename: &String, zone: &String, interfaces: &Interfaces, status: &String) -> (r: NodeStatus)
        ensures
            r.nodename == *nodename,
            r.status == *status,
            r.zone == *zone,
            r.rest_internal_endpoint == interfaces.rest.lan,
            r.rest_public_endpoint == interfaces.rest.wan,
            r.grpc_internal_endpoint == interfaces.grpc.lan,
            r.grpc_public_endpoint == interfaces.grpc.wan,
    {
        NodeStatus {
            nodename: nodename.clone(),
            status: status.clone(),
            zone: zone.clone(),
            rest_internal_endpoint: interfaces.rest.lan.clone(),
            rest_public_endpoint: interfaces.rest.wan.clone(),
            grpc_internal_endpoint: interfaces.grpc.lan.clone(),
            grpc_public_endpoint: interfaces.grpc.wan.clone(),
        }
    }
}

/// Size of the metadata store on disk.
#[derive(Debug, Clone, Copy, PartialEq, Eq, Structural)]
pub struct MetaStatus {
    pub db_size: u64,
}

impl MetaStatus {
    /// The last measured store size, zero before the first measurement.
    pub fn get(db: &MetaStore) -> (r: MetaStatus)
        ensures
            r.db_size == match db.size_bytes {
                Some(s) => s,
                None => 0,
            },
    {
        MetaStatus {
            db_size: match crate::meta::db_size(db) {
                Some(s) => s,
                None => 0,
            },
        }
    }
}

/// Totals of the bucket counters across all volumes.
#[derive(Debug, Clone, Copy, PartialEq, Eq, Structural)]
pub struct StorageStatus {
    pub objects: u64,
    pub gc_bytes: u64,
    pub move_bytes: u64,
    pub init_bytes: u64,
    pub avail_bytes: u64,
    pub active_slots: u64,
}

/// Which bucket counter a total is taken of.
pub open spec fn field(b: Bucket, f: int) -> nat {
    if f == 0 {
        b.cnt_blocks as nat
    } else if f == 1 {
        b.gc_size_bytes as nat
    } else if f == 2 {
        b.initial_size_bytes as nat
    } else if f == 3 {
        b.avail_size_bytes as nat
    } else {
        b.active_slots as nat
    }
}

/// Total of counter `f` over `bs`.
pub open spec fn bucket_total(bs: Seq<Bucket>, f: int) -> nat
    decreases bs.len(),
{
    if bs.len() == 0 {
        0
    } else {
        bucket_total(bs.drop_last(), f) + field(bs.last(), f)
    }
}

/// Total of counter `f` over every bucket of `vs`.
pub open spec fn volume_total(vs: Seq<Volume>, f: int) -> nat
    decreases vs.len(),
{
    if vs.len() == 0 {
        0
    } else {
        volume_total(vs.drop_last(), f) + bucket_total(vs.last().buckets@, f)
    }
}

/// `x`, or the largest 64-bit value where it is larger.
pub open spec fn capped(x: nat) -> u64 {
    if x > u64::MAX {
        u64::MAX
    } else {
        x as u64
    }
}

fn add_capped(acc: u64, x: u64) -> (r: u64)
    ensures
        r == capped((acc + x) as nat),
{
    acc.saturating_add(x)
}

proof fn lemma_capped_step(a: nat, x: nat)
    ensures
        capped((capped(a) + x) as nat) == capped(a + x),
{
}

fn total_of(vs: &Vec<Volume>, f: u8) -> (r: u64)
    requires
        f <= 4,
    ensures
        r == capped(volume_total(vs@, f as int)),
{
    let mut acc: u64 = 0;
    let mut i: usize = 0;
    while i < vs.len()
        invariant
            i <= vs@.len(),
            f <= 4,
            acc == capped(volume_total(vs@.take(i as int), f as int)),
        decreases vs@.len() - i,
    {
        let bs = &vs[i].buckets;
        let ghost base = volume_total(vs@.take(i as int), f as int);
        let mut j: usize = 0;
        while j < bs.len()
            invariant
                j <= bs@.len(),
                f <= 4,
                acc == capped(base + bucket_total(bs@.take(j as int), f as int)),
            decreases bs@.len() - j,
        {
            let b = &bs[j];
            let x = if f == 0 {
                b.cnt_blocks
            } else if f == 1 {
                b.gc_size_bytes
            } else if f == 2 {
                b.initial_size_bytes
            } else if f == 3 {
                b.avail_size_bytes
            } else {
                b.active_slots
            };
            proof {
                assert(bs@.take(j + 1).drop_last() =~= bs@.take(j as int));
                lemma_capped_step(base + bucket_total(bs@.take(j as int), f as int), x as nat);
                assert(bucket_total(bs@.take(j + 1), f as int) == bucket_total(bs@.take(j as int), f as int) + field(bs@[j as int], f as int));
            }
            acc = add_capped(acc, x);
            j = j + 1;
        }
        proof {
            assert(bs@.take(j as int) =~= bs@);
            assert(vs@.take(i + 1).drop_last() =~= vs@.take(i as int));
        }
        i = i + 1;
    }
    assert(vs@.take(i as int) =~= vs@);
    acc
}

impl StorageStatus {
    /// Totals over every bucket of every volume, each capped at the largest
    /// 64-bit value.
    pub fn get(disk: &Disk) -> (r: StorageStatus)
        ensures
            r.objects == capped(volume_total(disk.volumes@, 0)),
            r.gc_bytes == capped(volume_total(disk.volumes@, 1)),
            r.move_bytes == 0,
            r.init_bytes == capped(volume_total(disk.volumes@, 2)),
            r.avail_bytes == capped(volume_total(disk.volumes@, 3)),
            r.active_slots == capped(volume_total(disk.volumes@, 4)),
    {
        StorageStatus {
            objects: total_of(&disk.volumes, 0),
            gc_bytes: total_of(&disk.volumes, 1),
            move_bytes: 0,
            init_bytes: total_of(&disk.volumes, 2),
            avail_bytes: total_of(&disk.volumes, 3),
            active_slots: total_of(&disk.volumes, 4),
        }
    }
}

/// Last sampled host memory figures.
#[derive(Debug, Clone, Copy, PartialEq, Eq, Structural)]
pub struct MemoryStatus {
    pub free: u64,
    pub total: u64,
}

impl MemoryStatus {
    /// Nothing sampled yet.
    pub fn new() -> (r: MemoryStatus)
        ensures
            r.free == 0 && r.total == 0,
    {
        MemoryStatus { free: 0, total: 0 }
    }

    /// A snapshot of the sample.
    pub fn get(&self) -> (r: MemoryStatus)
        ensures
            r == *self,
    {
        *self
    }
}

/// Uptimes of the host and of this node, in seconds.
#[derive(Debug, Clone, Copy, PartialEq, Eq, Structural)]
pub struct UptimeStatus {
    pub host: u64,
    pub node: u64,
}

impl UptimeStatus {
    /// Nothing sampled yet.
    pub fn new() -> (r: UptimeStatus)
        ensures
            r.host == 0 && r.node == 0,
    {
        UptimeStatus { host: 0, node: 0 }
    }

    /// A snapshot of the sample.
    pub fn get(&self) -> (r: UptimeStatus)
        ensures
            r == *self,
    {
        *self
    }
}

/// Last sampled socket counts.
#[derive(Debug, Clone, Copy, PartialEq, Eq, Structural)]
pub struct NetStatus {
    pub tcp_in_use: usize,
    pub tcp_orphaned: usize,
    pub udp_in_use: usize,
    pub tcp6_in_use: usize,
    pub udp6_in_use: usize,
}

impl NetStatus {
    /// Nothing sampled yet.
    pub fn new() -> (r: NetStatus)
        ensures
            r.tcp_in_use == 0 && r.tcp_orphaned == 0 && r.udp_in_use == 0 && r.tcp6_in_use == 0
                && r.udp6_in_use == 0,
    {
        NetStatus { tcp_in_use: 0, tcp_orphaned: 0, udp_in_use: 0, tcp6_in_use: 0, udp6_in_use: 0 }
    }

    /// A snapshot of the sample.
    pub fn get(&self) -> (r: NetStatus)
        ensures
            r == *self,
    {
        *self
    }
}

/// Handle of the host-sampling task.
#[derive(Debug)]
pub struct PhysStats {}

impl PhysStats {
    pub fn new() -> (r: PhysStats) {
        PhysStats {}
    }
}

} // verus!
