//! Counting and summing block rows per bucket, with the lemmas that the
//! store's batches need.

use vstd::prelude::*;
use crate::meta::BlockMeta;

verus! {

/// Whether a block row belongs to bucket `bid` of volume `vol`.
pub open spec fn in_bucket(b: BlockMeta, vol: Seq<char>, bid: u32) -> bool {
    b.volume_id@ == vol && b.bucket_id == bid
}

/// Number of rows of `rows` in the bucket.
pub open spec fn count_in(rows: Seq<BlockMeta>, vol: Seq<char>, bid: u32) -> nat
    decreases rows.len(),
{
    if rows.len() == 0 {
        0
    } else {
        count_in(rows.drop_last(), vol, bid) + if in_bucket(rows.last(), vol, bid) {
            1nat
        } else {
            0nat
        }
    }
}

/// Total `size` of the rows of `rows` in the bucket.
pub open spec fn bytes_in(rows: Seq<BlockMeta>, vol: Seq<char>, bid: u32) -> nat
    decreases rows.len(),
{
    if rows.len() == 0 {
        0
    } else {
        bytes_in(rows.drop_last(), vol, bid) + if in_bucket(rows.last(), vol, bid) {
            rows.last().size as nat
        } else {
            0nat
        }
    }
}

pub open spec fn one_if(b: BlockMeta, vol: Seq<char>, bid: u32) -> nat {
    if in_bucket(b, vol, bid) {
        1
    } else {
        0
    }
}

pub open spec fn size_if(b: BlockMeta, vol: Seq<char>, bid: u32) -> nat {
    if in_bucket(b, vol, bid) {
        b.size as nat
    } else {
        0
    }
}

pub proof fn lemma_push(rows: Seq<BlockMeta>, b: BlockMeta, vol: Seq<char>, bid: u32)
    ensures
        count_in(rows.push(b), vol, bid) == count_in(rows, vol, bid) + one_if(b, vol, bid),
        bytes_in(rows.push(b), vol, bid) == bytes_in(rows, vol, bid) + size_if(b, vol, bid),
{
    assert(rows.push(b).drop_last() =~= rows);
}

pub proof fn lemma_remove(rows: Seq<BlockMeta>, i: int, vol: Seq<char>, bid: u32)
    requires
        0 <= i < rows.len(),
    ensures
        count_in(rows, vol, bid) == count_in(rows.remove(i), vol, bid) + one_if(rows[i], vol, bid),
        bytes_in(rows, vol, bid) == bytes_in(rows.remove(i), vol, bid) + size_if(rows[i], vol, bid),
    decreases rows.len(),
{
    if i == rows.len() - 1 {
        assert(rows.remove(i) =~= rows.drop_last());
    } else {
        let r = rows.remove(i);
        assert(r.drop_last() =~= rows.drop_last().remove(i));
        assert(r.last() == rows.last());
        lemma_remove(rows.drop_last(), i, vol, bid);
    }
}

pub proof fn lemma_update(rows: Seq<BlockMeta>, i: int, b: BlockMeta, vol: Seq<char>, bid: u32)
    requires
        0 <= i < rows.len(),
    ensures
        count_in(rows.update(i, b), vol, bid) + one_if(rows[i], vol, bid) == count_in(rows, vol, bid)
            + one_if(b, vol, bid),
        bytes_in(rows.update(i, b), vol, bid) + size_if(rows[i], vol, bid) == bytes_in(rows, vol, bid)
            + size_if(b, vol, bid),
{
    lemma_remove(rows, i, vol, bid);
    lemma_remove(rows.update(i, b), i, vol, bid);
    assert(rows.update(i, b).remove(i) =~= rows.remove(i));
}

/// A row in the bucket is counted, with its size.
pub proof fn lemma_member(rows: Seq<BlockMeta>, i: int, vol: Seq<char>, bid: u32)
    requires
        0 <= i < rows.len(),
        in_bucket(rows[i], vol, bid),
    ensures
        count_in(rows, vol, bid) >= 1,
        bytes_in(rows, vol, bid) >= rows[i].size,
{
    lemma_remove(rows, i, vol, bid);
}

} // verus!
