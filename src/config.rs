//! Configuration records of the storage engine.

use vstd::prelude::*;

verus! {

/// Storage settings.
#[derive(Debug, Clone, PartialEq)]
pub struct Storage {
    pub block_size_limit_bytes: u64,
    pub bucket_size_limit_bytes: u64,
    pub volumes: Vec<String>,
    pub gc_timeout_sec: u32,
    pub gc_batch: u32,
    pub block_check_interval_days: u32,
}

/// The string spelled by `s`.
fn string_of(s: &str) -> (r: String)
    ensures
        r@ == s@,
{
    let mut out = String::new();
    out.append(s);
    assert(out@ =~= s@);
    out
}

impl Storage {
    /// The single volume used when none is configured.
    pub fn default_volumes() -> (r: Vec<String>)
        ensures
            r@.len() == 1,
            r@[0]@ == "./info/data"@,
    {
        let mut v: Vec<String> = Vec::new();
        v.push(string_of("./info/data"));
        v
    }

    /// Ten MiB blocks, one GiB buckets, the default volume, a GC pass of up to
    /// 1000 tombstones every second, revalidation every three days.
    pub fn default() -> (r: Storage)
        ensures
            r.block_size_limit_bytes == 10 * 1024 * 1024,
            r.bucket_size_limit_bytes == 1073741824,
            r.volumes@.len() == 1,
            r.volumes@[0]@ == "./info/data"@,
            r.gc_timeout_sec == 1,
            r.gc_batch == 1000,
            r.block_check_interval_days == 3,
    {
        Storage {
            block_size_limit_bytes: 10 * 1024 * 1024,
            volumes: Storage::default_volumes(),
            bucket_size_limit_bytes: 1073741824,
            gc_timeout_sec: 1,
            gc_batch: 1000,
            block_check_interval_days: 3,
        }
    }
}

/// A LAN and a WAN listening address.
#[derive(Debug, Clone, PartialEq)]
pub struct Interface {
    pub lan: String,
    pub wan: String,
}

/// Addresses of the REST and RPC surfaces.
#[derive(Debug, Clone, PartialEq)]
pub struct Interfaces {
    pub rest: Interface,
    pub grpc: Interface,
}

impl Interfaces {
    /// Loopback addresses on ports 33085 to 33088.
    pub fn default() -> (r: Interfaces)
        ensures
            r.rest.wan@ == "[::1]:33088"@,
            r.rest.lan@ == "[::1]:33087"@,
            r.grpc.wan@ == "[::1]:33086"@,
            r.grpc.lan@ == "[::1]:33085"@,
    {
        Interfaces {
            rest: Interface { wan: string_of("[::1]:33088"), lan: string_of("[::1]:33087") },
            grpc: Interface { wan: string_of("[::1]:33086"), lan: string_of("[::1]:33085") },
        }
    }
}

/// Metadata store settings.
#[derive(Debug, Clone, PartialEq)]
pub struct Db {
    pub meta_db_path: String,
    pub meta_db_backup_path: String,
    pub size_calculation_interval_min: i32,
}

impl Db {
    /// Under `./info`, with the store size measured hourly.
    pub fn default() -> (r: Db)
        ensures
            r.meta_db_path@ == "./info/meta"@,
            r.meta_db_backup_path@ == "./info/meta_backup"@,
            r.size_calculation_interval_min == 60,
    {
        Db {
            meta_db_path: string_of("./info/meta"),
            meta_db_backup_path: string_of("./info/meta_backup"),
            size_calculation_interval_min: 60,
        }
    }
}

} // verus!
