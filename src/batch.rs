//! Transaction batches: pending puts and deletes, applied all together or not
//! at all.
use vstd::prelude::*;

verus! {

/// One pending write: a key and, for a put, its value (`None` deletes).
pub type PendingOp = (Vec<u8>, Option<Vec<u8>>);

/// A pending write as plain values.
pub open spec fn op_view(op: PendingOp) -> (Seq<u8>, Option<Seq<u8>>) {
    (op.0@, match op.1 {
        Some(v) => Some(v@),
        None => None,
    })
}

/// An ordered list of pending writes.
pub struct RocksDbTransactionBatch {
    pub batch: Vec<PendingOp>,
}

/// Applies one write to the store contents.
pub open spec fn apply_op(m: Map<Seq<u8>, Seq<u8>>, op: (Seq<u8>, Option<Seq<u8>>)) -> Map<Seq<u8>, Seq<u8>> {
    match op.1 {
        Some(v) => m.insert(op.0, v),
        None => m.remove(op.0),
    }
}

/// Applies writes in order to the store contents.
pub open spec fn apply_ops(m: Map<Seq<u8>, Seq<u8>>, ops: Seq<(Seq<u8>, Option<Seq<u8>>)>) -> Map<Seq<u8>, Seq<u8>>
    decreases ops.len(),
{
    if ops.len() == 0 {
        m
    } else {
        apply_op(apply_ops(m, ops.drop_last()), ops.last())
    }
}

/// Index of the last write to `k` among `ops`, or -1 when none touches it.
pub open spec fn last_write_to(ops: Seq<(Seq<u8>, Option<Seq<u8>>)>, k: Seq<u8>) -> int
    decreases ops.len(),
{
    if ops.len() == 0 {
        -1
    } else if ops.last().0 == k {
        ops.len() - 1
    } else {
        last_write_to(ops.drop_last(), k)
    }
}

/// After a batch commits, each key holds what the batch last wrote to it (a
/// value, or nothing for a delete), and keys the batch does not touch keep
/// their contents.
pub proof fn lemma_batch_net_effect(
    m: Map<Seq<u8>, Seq<u8>>,
    ops: Seq<(Seq<u8>, Option<Seq<u8>>)>,
    k: Seq<u8>,
)
    ensures
        ({
            let r = apply_ops(m, ops);
            let i = last_write_to(ops, k);
            &&& -1 <= i < ops.len()
            &&& i == -1 ==> (r.contains_key(k) == m.contains_key(k) && r[k] == m[k])
            &&& i >= 0 ==> ops[i].0 == k && match ops[i].1 {
                Some(v) => r.contains_key(k) && r[k] == v,
                None => !r.contains_key(k),
            }
        }),
    decreases ops.len(),
{
    if ops.len() > 0 {
        lemma_batch_net_effect(m, ops.drop_last(), k);
    }
}

impl RocksDbTransactionBatch {
    pub open spec fn ops(&self) -> Seq<(Seq<u8>, Option<Seq<u8>>)> {
        self.batch@.map_values(|op: PendingOp| op_view(op))
    }

    /// An empty batch.
    pub fn new() -> (r: RocksDbTransactionBatch)
        ensures
            r.ops().len() == 0,
    {
        RocksDbTransactionBatch { batch: Vec::new() }
    }

    /// Appends a put of `value` under `key`.
    pub fn put(&mut self, key: Vec<u8>, value: Vec<u8>)
        ensures
            final(self).ops() == old(self).ops().push((key@, Some(value@))),
    {
        self.batch.push((key, Some(value)));
        assert(self.ops() =~= old(self).ops().push((key@, Some(value@))));
    }

    /// Appends a delete of `key`.
    pub fn delete(&mut self, key: Vec<u8>)
        ensures
            final(self).ops() == old(self).ops().push((key@, None)),
    {
        self.batch.push((key, None));
        assert(self.ops() =~= old(self).ops().push((key@, None)));
    }

    /// Appends an entry as callers outside the library send it: a key with an
    /// optional value, where a missing or empty value means delete.
    pub fn push_entry(&mut self, key: Vec<u8>, value: Option<Vec<u8>>)
        ensures
            final(self).ops() == old(self).ops().push(
                (key@, match value {
                    Some(v) => if v@.len() == 0 { None } else { Some(v@) },
                    None => None,
                }),
            ),
    {
        match value {
            Some(v) => {
                if v.len() == 0 {
                    self.delete(key);
                } else {
                    self.put(key, v);
                }
            },
            None => self.delete(key),
        }
    }

    /// The number of pending writes.
    pub fn len(&self) -> (r: usize)
        ensures
            r == self.ops().len(),
    {
        self.batch.len()
    }
}

} // verus!
