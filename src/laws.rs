use vstd::prelude::*;
use crate::assistant::{process_outcome};
use crate::codec::{entries_fit, lemma_context_round_trip, op_fits, opt_text_fits, parse_context, text_fits};
use crate::context::{Entry, insert_entry, lemma_insert_lookup, without_key};
use crate::storage_key::{
    base58_of, is_base58_text, lemma_key_text_injective, namespace_text, storage_key,
};
use crate::types::{
    InboundModel, OutboundModel, PendingOp, RequestModel, ResponseModel, StoredKeyInfo, StoredValue,
};

verus! {

// ---------------------------------------------------------------------------
// The storage layer, as a map from storage keys to records
// ---------------------------------------------------------------------------

/// What the storage layer answers for `key`.
pub open spec fn stored_value_at(store: Map<Seq<char>, StoredKeyInfo>, key: Seq<char>) -> StoredValue {
    if store.contains_key(key) {
        StoredValue::Present(store[key])
    } else {
        StoredValue::Absent
    }
}

/// The storage after it carried out the writes among `effects`, in order.
pub open spec fn apply_writes(store: Map<Seq<char>, StoredKeyInfo>, effects: Seq<OutboundModel>) -> Map<
    Seq<char>,
    StoredKeyInfo,
>
    decreases effects.len(),
{
    if effects.len() == 0 {
        store
    } else {
        let before = apply_writes(store, effects.drop_last());
        match effects.last() {
            OutboundModel::SetSecretRequest { key, value } => before.insert(key, value),
            _ => before,
        }
    }
}

/// The storage after `origin` sent `SetCurrentKey { ns, delegate_key, code_hash }`
/// with `context`, and the storage layer carried out the effects.
pub open spec fn store_after_set(
    store: Map<Seq<char>, StoredKeyInfo>,
    origin: Seq<u8>,
    ns: Option<Seq<char>>,
    delegate_key: [u8; 32],
    code_hash: [u8; 32],
    app: [u8; 32],
    context: Seq<u8>,
) -> Map<Seq<char>, StoredKeyInfo> {
    let request = InboundModel::ApplicationMessage {
        app,
        request: Some(RequestModel::SetCurrentKey { namespace: ns, delegate_key, code_hash }),
        context,
        processed: false,
    };
    match process_outcome(Some(origin), request) {
        Ok(effects) => apply_writes(store, effects),
        Err(_) => store,
    }
}

/// The reply that `origin` receives for `GetPreviousKey { ns }` sent with
/// `context`, when the storage layer answers the lookup from `store` and hands
/// back the context it was given.
pub open spec fn previous_key_reply(
    store: Map<Seq<char>, StoredKeyInfo>,
    origin: Seq<u8>,
    ns: Option<Seq<char>>,
    app: [u8; 32],
    context: Seq<u8>,
) -> Option<ResponseModel> {
    let request = InboundModel::ApplicationMessage {
        app,
        request: Some(RequestModel::GetPreviousKey { namespace: ns }),
        context,
        processed: false,
    };
    match process_outcome(Some(origin), request) {
        Ok(lookups) => if lookups.len() == 1 {
            match lookups[0] {
                OutboundModel::GetSecretRequest { key, context: carried } => {
                    let answer = InboundModel::GetSecretResponse {
                        key,
                        context: carried,
                        value: stored_value_at(store, key),
                    };
                    match process_outcome(Some(origin), answer) {
                        Ok(replies) => if replies.len() == 1 {
                            match replies[0] {
                                OutboundModel::ApplicationMessage { response, .. } => Some(
                                    response,
                                ),
                                _ => None,
                            }
                        } else {
                            None
                        },
                        Err(_) => None,
                    }
                },
                _ => None,
            }
        } else {
            None
        },
        Err(_) => None,
    }
}

/// Every length that the exchange writes fits its eight-byte field, as the
/// length of any value held in memory does.
pub open spec fn exchange_fits(ctx: Seq<Entry>, origin: Seq<u8>, ns: Option<Seq<char>>) -> bool {
    &&& entries_fit(ctx)
    &&& ctx.len() < u64::MAX
    &&& text_fits(storage_key(origin, ns))
    &&& origin.len() <= u64::MAX
    &&& opt_text_fits(ns)
}

proof fn lemma_without_key_fits(entries: Seq<Entry>, key: Seq<char>)
    requires
        entries_fit(entries),
    ensures
        without_key(entries, key).len() <= entries.len(),
        forall|i: int|
            0 <= i < without_key(entries, key).len() ==> text_fits(
                #[trigger] without_key(entries, key)[i].0,
            ) && op_fits(without_key(entries, key)[i].1),
    decreases entries.len(),
{
    if entries.len() > 0 {
        let init = entries.drop_last();
        assert(entries_fit(init)) by {
            assert forall|i: int| 0 <= i < init.len() implies text_fits(#[trigger] init[i].0)
                && op_fits(init[i].1) by {
                assert(init[i] == entries[i]);
            }
        }
        assert(text_fits(entries[entries.len() - 1].0) && op_fits(entries[entries.len() - 1].1));
        lemma_without_key_fits(init, key);
        let w = without_key(entries, key);
        let w0 = without_key(init, key);
        if entries.last().0 != key {
            assert forall|i: int| 0 <= i < w.len() implies text_fits(#[trigger] w[i].0) && op_fits(
                w[i].1,
            ) by {
                if i < w0.len() {
                    assert(w[i] == w0[i]);
                }
            }
        }
    }
}

/// The full lookup exchange, from any decodable context: the reply carries
/// what the storage holds under the derived key.
#[verifier::rlimit(50)]
proof fn lemma_lookup_exchange(
    store: Map<Seq<char>, StoredKeyInfo>,
    origin: Seq<u8>,
    ns: Option<Seq<char>>,
    app: [u8; 32],
    context: Seq<u8>,
)
    requires
        parse_context(context) matches Some(ctx) && exchange_fits(ctx, origin, ns),
    ensures
        previous_key_reply(store, origin, ns, app, context) == Some(
            match stored_value_at(store, storage_key(origin, ns)) {
                StoredValue::Present(info) => ResponseModel::PreviousKey {
                    namespace: ns,
                    delegate_key: Some(info.delegate_key),
                    code_hash: Some(info.code_hash),
                },
                _ => ResponseModel::PreviousKey { namespace: ns, delegate_key: None, code_hash: None },
            },
        ),
{
    let ctx = parse_context(context)->Some_0;
    let key = storage_key(origin, ns);
    let op = PendingOp::GetPreviousKey { origin, namespace: ns, app };
    let parked = insert_entry(ctx, key, op);
    lemma_without_key_fits(ctx, key);
    assert(entries_fit(parked)) by {
        assert forall|i: int| 0 <= i < parked.len() implies text_fits(#[trigger] parked[i].0)
            && op_fits(parked[i].1) by {
            if i < parked.len() - 1 {
                assert(parked[i] == without_key(ctx, key)[i]);
            }
        }
    }
    lemma_context_round_trip(parked);
    lemma_insert_lookup(ctx, key, op, key);
    let request = InboundModel::ApplicationMessage {
        app,
        request: Some(RequestModel::GetPreviousKey { namespace: ns }),
        context,
        processed: false,
    };
    let lookups = crate::assistant::get_previous_key_outcome(ctx, origin, ns, app);
    assert(process_outcome(Some(origin), request) == Ok::<_, crate::types::AssistantError>(lookups));
    let carried = crate::codec::context_bytes(parked);
    assert(lookups[0] == OutboundModel::GetSecretRequest { key, context: carried });
    let answer = InboundModel::GetSecretResponse {
        key,
        context: carried,
        value: stored_value_at(store, key),
    };
    assert(process_outcome(Some(origin), answer) == crate::assistant::resume_outcome(
        key,
        parked,
        stored_value_at(store, key),
    ));
}

/// A namespace that nothing was ever stored for looks up as empty: both the
/// identifier and the revision hash come back `None`.
pub proof fn lemma_first_lookup_is_empty(
    store: Map<Seq<char>, StoredKeyInfo>,
    origin: Seq<u8>,
    ns: Option<Seq<char>>,
    app: [u8; 32],
    context: Seq<u8>,
)
    requires
        !store.contains_key(storage_key(origin, ns)),
        parse_context(context) matches Some(ctx) && exchange_fits(ctx, origin, ns),
    ensures
        previous_key_reply(store, origin, ns, app, context) == Some(
            ResponseModel::PreviousKey { namespace: ns, delegate_key: None, code_hash: None },
        ),
{
    lemma_lookup_exchange(store, origin, ns, app, context);
}

proof fn lemma_set_writes(
    store: Map<Seq<char>, StoredKeyInfo>,
    origin: Seq<u8>,
    ns: Option<Seq<char>>,
    delegate_key: [u8; 32],
    code_hash: [u8; 32],
    app: [u8; 32],
    context: Seq<u8>,
)
    requires
        parse_context(context) is Some,
    ensures
        store_after_set(store, origin, ns, delegate_key, code_hash, app, context) == store.insert(
            storage_key(origin, ns),
            StoredKeyInfo { delegate_key, code_hash },
        ),
{
    let ctx = parse_context(context)->Some_0;
    let effects = crate::assistant::set_current_key_outcome(
        ctx,
        origin,
        ns,
        delegate_key,
        code_hash,
        app,
    );
    assert(effects.drop_last().drop_last() =~= Seq::<OutboundModel>::empty());
    assert(apply_writes(store, effects.drop_last().drop_last()) == store);
    assert(apply_writes(store, effects.drop_last()) == store);
}

/// After `SetCurrentKey { ns, K, H }`, a later `GetPreviousKey { ns }` from the
/// same origin, even one that starts from a fresh empty context, returns `K` and `H`.
pub proof fn lemma_lookup_after_set(
    store: Map<Seq<char>, StoredKeyInfo>,
    origin: Seq<u8>,
    ns: Option<Seq<char>>,
    delegate_key: [u8; 32],
    code_hash: [u8; 32],
    set_app: [u8; 32],
    set_context: Seq<u8>,
    get_app: [u8; 32],
    get_context: Seq<u8>,
)
    requires
        parse_context(set_context) is Some,
        parse_context(get_context) matches Some(ctx) && exchange_fits(ctx, origin, ns),
    ensures
        previous_key_reply(
            store_after_set(store, origin, ns, delegate_key, code_hash, set_app, set_context),
            origin,
            ns,
            get_app,
            get_context,
        ) == Some(
            ResponseModel::PreviousKey {
                namespace: ns,
                delegate_key: Some(delegate_key),
                code_hash: Some(code_hash),
            },
        ),
        parse_context(Seq::empty()) == Some(Seq::<Entry>::empty()),
{
    lemma_set_writes(store, origin, ns, delegate_key, code_hash, set_app, set_context);
    let after = store_after_set(store, origin, ns, delegate_key, code_hash, set_app, set_context);
    lemma_lookup_exchange(after, origin, ns, get_app, get_context);
}

/// A write overwrites unconditionally: after two `SetCurrentKey` for the same
/// namespace, a lookup returns only the second identifier and revision hash.
pub proof fn lemma_second_set_wins(
    store: Map<Seq<char>, StoredKeyInfo>,
    origin: Seq<u8>,
    ns: Option<Seq<char>>,
    first_key: [u8; 32],
    first_hash: [u8; 32],
    second_key: [u8; 32],
    second_hash: [u8; 32],
    app: [u8; 32],
    first_context: Seq<u8>,
    second_context: Seq<u8>,
    get_context: Seq<u8>,
)
    requires
        parse_context(first_context) is Some,
        parse_context(second_context) is Some,
        parse_context(get_context) matches Some(ctx) && exchange_fits(ctx, origin, ns),
    ensures
        previous_key_reply(
            store_after_set(
                store_after_set(store, origin, ns, first_key, first_hash, app, first_context),
                origin,
                ns,
                second_key,
                second_hash,
                app,
                second_context,
            ),
            origin,
            ns,
            app,
            get_context,
        ) == Some(
            ResponseModel::PreviousKey {
                namespace: ns,
                delegate_key: Some(second_key),
                code_hash: Some(second_hash),
            },
        ),
{
    let first = store_after_set(store, origin, ns, first_key, first_hash, app, first_context);
    lemma_lookup_after_set(
        first,
        origin,
        ns,
        second_key,
        second_hash,
        app,
        second_context,
        app,
        get_context,
    );
}

/// Under one origin, namespaces that read differently have different storage keys.
proof fn lemma_namespace_keys_differ(origin: Seq<u8>, n1: Option<Seq<char>>, n2: Option<Seq<char>>)
    requires
        namespace_text(n1) != namespace_text(n2),
    ensures
        storage_key(origin, n1) != storage_key(origin, n2),
{
    let e = base58_of(origin);
    let k1 = storage_key(origin, n1);
    let k2 = storage_key(origin, n2);
    let head = crate::storage_key::key_prefix() + e + seq![':'];
    assert(k1 =~= head + namespace_text(n1));
    assert(k2 =~= head + namespace_text(n2));
    if k1 == k2 {
        assert(namespace_text(n1) =~= k1.subrange(head.len() as int, k1.len() as int));
        assert(namespace_text(n2) =~= k2.subrange(head.len() as int, k2.len() as int));
    }
}

/// A write for one (origin, namespace) pair leaves what a lookup of another
/// pair returns unchanged: two namespaces of one origin, or one namespace of
/// two origins, never see each other's record.  Namespaces compare as they
/// read in a key (`None` reads as `_default_`), and origins by their base58
/// text.
pub proof fn lemma_pairs_isolated(
    store: Map<Seq<char>, StoredKeyInfo>,
    set_origin: Seq<u8>,
    set_ns: Option<Seq<char>>,
    delegate_key: [u8; 32],
    code_hash: [u8; 32],
    set_app: [u8; 32],
    set_context: Seq<u8>,
    get_origin: Seq<u8>,
    get_ns: Option<Seq<char>>,
    get_app: [u8; 32],
    get_context: Seq<u8>,
)
    requires
        is_base58_text(base58_of(set_origin)),
        is_base58_text(base58_of(get_origin)),
        base58_of(set_origin) != base58_of(get_origin) || namespace_text(set_ns) != namespace_text(
            get_ns,
        ),
        parse_context(set_context) is Some,
        parse_context(get_context) matches Some(ctx) && exchange_fits(ctx, get_origin, get_ns),
    ensures
        previous_key_reply(
            store_after_set(store, set_origin, set_ns, delegate_key, code_hash, set_app, set_context),
            get_origin,
            get_ns,
            get_app,
            get_context,
        ) == previous_key_reply(store, get_origin, get_ns, get_app, get_context),
{
    if storage_key(set_origin, set_ns) == storage_key(get_origin, get_ns) {
        lemma_key_text_injective(base58_of(set_origin), base58_of(get_origin), set_ns, get_ns);
    }
    lemma_set_writes(store, set_origin, set_ns, delegate_key, code_hash, set_app, set_context);
    let after = store_after_set(store, set_origin, set_ns, delegate_key, code_hash, set_app, set_context);
    let key = storage_key(get_origin, get_ns);
    assert(stored_value_at(after, key) == stored_value_at(store, key));
    lemma_lookup_exchange(after, get_origin, get_ns, get_app, get_context);
    lemma_lookup_exchange(store, get_origin, get_ns, get_app, get_context);
}

} // verus!
