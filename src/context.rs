use vstd::prelude::*;
use vstd::utf8::*;
use crate::types::{PendingOp, PendingOperation, ns_view, clone_namespace, clone_bytes};

verus! {

broadcast use {encode_utf8_valid_utf8, encode_utf8_decode_utf8};

/// One entry of the pending-operation table: a storage key and what waits on it.
pub type Entry = (Seq<char>, PendingOp);

/// The continuation context: the operations waiting for a storage answer,
/// each under the storage key that the answer will carry.
pub struct UpgradeAssistantContext {
    pub pending_ops: Vec<(String, PendingOperation)>,
}

pub open spec fn entries_view(v: Seq<(String, PendingOperation)>) -> Seq<Entry> {
    v.map_values(|e: (String, PendingOperation)| (e.0@, e.1@))
}

impl View for UpgradeAssistantContext {
    type V = Seq<Entry>;

    open spec fn view(&self) -> Seq<Entry> {
        entries_view(self.pending_ops@)
    }
}

// ---------------------------------------------------------------------------
// The table
// ---------------------------------------------------------------------------

/// The operation waiting under `key`: the latest entry with that key.
pub open spec fn lookup(entries: Seq<Entry>, key: Seq<char>) -> Option<PendingOp>
    decreases entries.len(),
{
    if entries.len() == 0 {
        None
    } else if entries.last().0 == key {
        Some(entries.last().1)
    } else {
        lookup(entries.drop_last(), key)
    }
}

/// The entries whose key is not `key`, in their order.
pub open spec fn without_key(entries: Seq<Entry>, key: Seq<char>) -> Seq<Entry>
    decreases entries.len(),
{
    if entries.len() == 0 {
        entries
    } else if entries.last().0 == key {
        without_key(entries.drop_last(), key)
    } else {
        without_key(entries.drop_last(), key).push(entries.last())
    }
}

/// The table after parking `op` under `key`, replacing what waited there.
pub open spec fn insert_entry(entries: Seq<Entry>, key: Seq<char>, op: PendingOp) -> Seq<Entry> {
    without_key(entries, key).push((key, op))
}

/// Once `key` is removed, nothing waits under it.
pub proof fn lemma_without_key_lookup(entries: Seq<Entry>, key: Seq<char>, other: Seq<char>)
    ensures
        lookup(without_key(entries, key), other) == if other == key {
            None
        } else {
            lookup(entries, other)
        },
    decreases entries.len(),
{
    if entries.len() > 0 {
        lemma_without_key_lookup(entries.drop_last(), key, other);
        if entries.last().0 != key {
            assert(without_key(entries, key).drop_last() =~= without_key(entries.drop_last(), key));
        }
    }
}

/// A table lookup sees what was parked last under a key, and only that key changes.
pub proof fn lemma_insert_lookup(entries: Seq<Entry>, key: Seq<char>, op: PendingOp, other: Seq<char>)
    ensures
        lookup(insert_entry(entries, key, op), other) == if other == key {
            Some(op)
        } else {
            lookup(entries, other)
        },
{
    let w = without_key(entries, key);
    assert(insert_entry(entries, key, op).drop_last() =~= w);
    lemma_without_key_lookup(entries, key, other);
}

/// A copy of a pending operation with the same model.
fn clone_op(op: &PendingOperation) -> (r: PendingOperation)
    ensures
        r@ == op@,
{
    match op {
        PendingOperation::GetPreviousKey { origin, namespace, app } => {
            PendingOperation::GetPreviousKey {
                origin: clone_bytes(origin),
                namespace: clone_namespace(namespace),
                app: *app,
            }
        },
        PendingOperation::SetCurrentKey { origin, namespace, delegate_key, code_hash } => {
            PendingOperation::SetCurrentKey {
                origin: clone_bytes(origin),
                namespace: clone_namespace(namespace),
                delegate_key: *delegate_key,
                code_hash: *code_hash,
            }
        },
    }
}

/// Splits the entries into those under other keys and the operation under `key`.
fn split_off_key(entries: &Vec<(String, PendingOperation)>, key: &String) -> (r: (
    Vec<(String, PendingOperation)>,
    Option<PendingOperation>,
))
    ensures
        entries_view(r.0@) == without_key(entries_view(entries@), key@),
        match r.1 {
            Some(op) => lookup(entries_view(entries@), key@) == Some(op@),
            None => lookup(entries_view(entries@), key@) is None,
        },
{
    let ghost all = entries_view(entries@);
    let mut kept: Vec<(String, PendingOperation)> = Vec::new();
    let mut found: Option<PendingOperation> = None;
    let mut i: usize = 0;
    while i < entries.len()
        invariant
            0 <= i <= entries.len(),
            all == entries_view(entries@),
            entries_view(kept@) == without_key(all.subrange(0, i as int), key@),
            match found {
                Some(op) => lookup(all.subrange(0, i as int), key@) == Some(op@),
                None => lookup(all.subrange(0, i as int), key@) is None,
            },
        decreases entries.len() - i,
    {
        let ghost prefix = all.subrange(0, i as int + 1);
        assert(prefix.drop_last() =~= all.subrange(0, i as int));
        assert(prefix.last() == all[i as int]);
        let entry = &entries[i];
        if entry.0 == *key {
            found = Some(clone_op(&entry.1));
        } else {
            let k = entry.0.clone();
            let op = clone_op(&entry.1);
            let ghost before = kept@;
            kept.push((k, op));
            assert(entries_view(kept@) =~= entries_view(before).push(all[i as int]));
        }
        i += 1;
    }
    assert(all.subrange(0, entries.len() as int) =~= all);
    (kept, found)
}

impl UpgradeAssistantContext {
    /// The context of a fresh exchange: nothing is pending.
    pub fn new() -> (r: Self)
        ensures
            r@ == Seq::<Entry>::empty(),
    {
        let r = UpgradeAssistantContext { pending_ops: Vec::new() };
        assert(r@ =~= Seq::<Entry>::empty());
        r
    }

    /// Parks `op` under `key`, replacing what waited there.
    pub fn insert(&mut self, key: String, op: PendingOperation)
        ensures
            final(self)@ == insert_entry(old(self)@, key@, op@),
    {
        let (mut kept, _) = split_off_key(&self.pending_ops, &key);
        let ghost before = kept@;
        kept.push((key, op));
        assert(entries_view(kept@) =~= entries_view(before).push((key@, op@)));
        self.pending_ops = kept;
    }

    /// Removes and returns the operation waiting under `key`, if any.
    pub fn remove(&mut self, key: &String) -> (r: Option<PendingOperation>)
        ensures
            final(self)@ == without_key(old(self)@, key@),
            match r {
                Some(op) => lookup(old(self)@, key@) == Some(op@),
                None => lookup(old(self)@, key@) is None,
            },
    {
        let (kept, found) = split_off_key(&self.pending_ops, key);
        self.pending_ops = kept;
        found
    }
}

} // verus!
