use std::collections::HashMap;

use upgrade_assistant::{
    create_storage_key, decode_context, encode_context, previous_upgrade_assistant_keys,
    AssistantError, DataKind, InboundMessage, MessageKind, OutboundMessage, PendingOperation,
    StoredKeyInfo, StoredValue, UpgradeAssistant, UpgradeAssistantContext,
    UpgradeAssistantRequest, UpgradeAssistantResponse,
};

fn test_origin() -> Vec<u8> {
    vec![1u8; 32]
}

fn request_message(request: UpgradeAssistantRequest, context: Vec<u8>) -> InboundMessage {
    InboundMessage::ApplicationMessage {
        app: [1u8; 32],
        request: Some(request),
        context,
        processed: false,
    }
}

fn extract_response(messages: &[OutboundMessage]) -> Option<UpgradeAssistantResponse> {
    for msg in messages {
        if let OutboundMessage::ApplicationMessage { response, .. } = msg {
            return Some(response.clone());
        }
    }
    None
}

/// A storage layer kept in memory: it carries out writes and answers lookups.
struct Storage {
    values: HashMap<String, StoredKeyInfo>,
}

impl Storage {
    fn new() -> Self {
        Storage { values: HashMap::new() }
    }

    fn apply(&mut self, effects: &[OutboundMessage]) {
        for effect in effects {
            if let OutboundMessage::SetSecretRequest { key, value } = effect {
                self.values.insert(key.clone(), *value);
            }
        }
    }

    fn answer(&self, lookup: &OutboundMessage) -> InboundMessage {
        match lookup {
            OutboundMessage::GetSecretRequest { key, context } => InboundMessage::GetSecretResponse {
                key: key.clone(),
                context: context.clone(),
                value: match self.values.get(key) {
                    Some(info) => StoredValue::Present(*info),
                    None => StoredValue::Absent,
                },
            },
            other => panic!("expected a lookup, got {:?}", other),
        }
    }
}

fn set_key(storage: &mut Storage, origin: &[u8], ns: &str, key: [u8; 32], hash: [u8; 32]) {
    let request = UpgradeAssistantRequest::SetCurrentKey {
        namespace: Some(ns.to_string()),
        delegate_key: key,
        code_hash: hash,
    };
    let effects =
        UpgradeAssistant::process(Some(origin.to_vec()), request_message(request, vec![])).unwrap();
    storage.apply(&effects);
}

fn get_key(storage: &Storage, origin: &[u8], ns: &str) -> UpgradeAssistantResponse {
    let request = UpgradeAssistantRequest::GetPreviousKey { namespace: Some(ns.to_string()) };
    let lookups =
        UpgradeAssistant::process(Some(origin.to_vec()), request_message(request, vec![])).unwrap();
    assert_eq!(lookups.len(), 1);
    let replies =
        UpgradeAssistant::process(Some(origin.to_vec()), storage.answer(&lookups[0])).unwrap();
    assert_eq!(replies.len(), 1);
    extract_response(&replies).unwrap()
}

#[test]
fn test_set_current_key() {
    let delegate_key = [42u8; 32];
    let code_hash = [123u8; 32];

    let request = UpgradeAssistantRequest::SetCurrentKey {
        namespace: Some("test-delegate".to_string()),
        delegate_key,
        code_hash,
    };

    let result =
        UpgradeAssistant::process(Some(test_origin()), request_message(request, vec![])).unwrap();

    assert_eq!(result.len(), 2);

    let response = extract_response(&result).unwrap();
    match response {
        UpgradeAssistantResponse::KeyUpdated { namespace } => {
            assert_eq!(namespace, Some("test-delegate".to_string()));
        }
        _ => panic!("Expected KeyUpdated, got {:?}", response),
    }

    let mut found_set_request = false;
    for msg in result {
        if let OutboundMessage::SetSecretRequest { value, .. } = msg {
            assert_eq!(value, StoredKeyInfo { delegate_key, code_hash });
            found_set_request = true;
        }
    }
    assert!(found_set_request, "No SetSecretRequest found");
}

#[test]
fn test_get_previous_key_request() {
    let request = UpgradeAssistantRequest::GetPreviousKey {
        namespace: Some("test-delegate".to_string()),
    };

    let result =
        UpgradeAssistant::process(Some(test_origin()), request_message(request, vec![])).unwrap();

    assert_eq!(result.len(), 1);

    match &result[0] {
        OutboundMessage::GetSecretRequest { key, .. } => {
            assert!(key.contains("upgrade_assistant"));
            assert!(key.contains("test-delegate"));
        }
        _ => panic!("Expected GetSecretRequest, got {:?}", result[0]),
    }
}

#[test]
fn test_error_on_missing_attested() {
    let request = UpgradeAssistantRequest::GetPreviousKey { namespace: None };
    let result = UpgradeAssistant::process(None, request_message(request, vec![]));
    assert!(result.is_err());

    if let Err(e) = result {
        assert_eq!(e, AssistantError::MissingOrigin);
        assert!(e.message().contains("missing attested origin"));
    } else {
        panic!("Expected an error");
    }
}

#[test]
fn test_error_on_processed_message() {
    let message = InboundMessage::ApplicationMessage {
        app: [1u8; 32],
        request: Some(UpgradeAssistantRequest::GetPreviousKey { namespace: None }),
        context: vec![],
        processed: true,
    };
    let result = UpgradeAssistant::process(Some(test_origin()), message);
    assert!(result.is_err());

    if let Err(e) = result {
        assert_eq!(e, AssistantError::InvalidState);
        assert!(e.message().contains("cannot process an already processed message"));
    } else {
        panic!("Expected an error");
    }
}

#[test]
fn storage_key_has_exact_format() {
    let origin = vec![0x04, 0x30, 0x5e, 0x2b, 0x24, 0x73, 0xf0, 0x58];
    assert_eq!(
        create_storage_key(&origin, &Some("app".to_string())),
        "upgrade_assistant:he11owor1d:app"
    );
    assert_eq!(create_storage_key(&vec![0, 0], &None), "upgrade_assistant:11:_default_");
}

#[test]
fn storage_key_is_deterministic_and_separates_origins() {
    let a = create_storage_key(&vec![1u8; 32], &Some("app".to_string()));
    let b = create_storage_key(&vec![1u8; 32], &Some("app".to_string()));
    let c = create_storage_key(&vec![2u8; 32], &Some("app".to_string()));
    let d = create_storage_key(&vec![1u8; 32], &Some("other".to_string()));
    assert_eq!(a, b);
    assert_ne!(a, c);
    assert_ne!(a, d);
}

#[test]
fn context_round_trip_empty() {
    let ctx = UpgradeAssistantContext::new();
    let bytes = encode_context(&ctx);
    let back = decode_context(&bytes).unwrap();
    assert!(back.pending_ops.is_empty());
}

#[test]
fn context_round_trip_with_entries() {
    let mut ctx = UpgradeAssistantContext::new();
    ctx.insert(
        "k1".to_string(),
        PendingOperation::GetPreviousKey {
            origin: vec![1, 2, 3],
            namespace: Some("név".to_string()),
            app: [9u8; 32],
        },
    );
    ctx.insert(
        "k2".to_string(),
        PendingOperation::SetCurrentKey {
            origin: vec![],
            namespace: None,
            delegate_key: [5u8; 32],
            code_hash: [6u8; 32],
        },
    );
    let bytes = encode_context(&ctx);
    let back = decode_context(&bytes).unwrap();
    assert_eq!(back.pending_ops.len(), 2);
    assert_eq!(back.pending_ops[0].0, "k1");
    match &back.pending_ops[0].1 {
        PendingOperation::GetPreviousKey { origin, namespace, app } => {
            assert_eq!(origin, &vec![1, 2, 3]);
            assert_eq!(namespace, &Some("név".to_string()));
            assert_eq!(app, &[9u8; 32]);
        }
        other => panic!("unexpected {:?}", other),
    }
    assert_eq!(back.pending_ops[1].0, "k2");
    match &back.pending_ops[1].1 {
        PendingOperation::SetCurrentKey { origin, namespace, delegate_key, code_hash } => {
            assert!(origin.is_empty());
            assert_eq!(namespace, &None);
            assert_eq!(delegate_key, &[5u8; 32]);
            assert_eq!(code_hash, &[6u8; 32]);
        }
        other => panic!("unexpected {:?}", other),
    }
    assert_eq!(encode_context(&back), bytes);
}

#[test]
fn context_insert_replaces_and_remove_consumes_once() {
    let mut ctx = UpgradeAssistantContext::new();
    let op = |n: u8| PendingOperation::GetPreviousKey {
        origin: vec![n],
        namespace: None,
        app: [n; 32],
    };
    ctx.insert("k".to_string(), op(1));
    ctx.insert("k".to_string(), op(2));
    assert_eq!(ctx.pending_ops.len(), 1);
    match ctx.remove(&"k".to_string()) {
        Some(PendingOperation::GetPreviousKey { app, .. }) => assert_eq!(app, [2u8; 32]),
        other => panic!("unexpected {:?}", other),
    }
    assert!(ctx.remove(&"k".to_string()).is_none());
}

#[test]
fn malformed_context_is_rejected() {
    assert!(decode_context(&vec![1, 2, 3]).is_none());
    let request = UpgradeAssistantRequest::GetPreviousKey { namespace: None };
    let result = UpgradeAssistant::process(Some(test_origin()), request_message(request, vec![7]));
    assert_eq!(result.unwrap_err(), AssistantError::Deserialization(DataKind::Context));
}

#[test]
fn invalid_utf8_in_context_is_rejected() {
    let mut ctx = UpgradeAssistantContext::new();
    ctx.insert(
        "k".to_string(),
        PendingOperation::GetPreviousKey { origin: vec![], namespace: None, app: [0u8; 32] },
    );
    let mut bytes = encode_context(&ctx);
    // the key's single character follows the count and the key's length
    assert_eq!(bytes[16], b'k');
    bytes[16] = 0xff;
    assert!(decode_context(&bytes).is_none());
}

#[test]
fn unreadable_request_is_rejected() {
    let message = InboundMessage::ApplicationMessage {
        app: [1u8; 32],
        request: None,
        context: vec![],
        processed: false,
    };
    let result = UpgradeAssistant::process(Some(test_origin()), message);
    assert_eq!(result.unwrap_err(), AssistantError::Deserialization(DataKind::Request));
}

#[test]
fn unexpected_messages_are_rejected() {
    let a = UpgradeAssistant::process(Some(test_origin()), InboundMessage::UserResponse);
    assert_eq!(a.unwrap_err(), AssistantError::UnexpectedMessageType(MessageKind::UserResponse));
    let b = UpgradeAssistant::process(Some(test_origin()), InboundMessage::GetSecretRequest);
    let e = b.unwrap_err();
    assert_eq!(e, AssistantError::UnexpectedMessageType(MessageKind::GetSecretRequest));
    assert_eq!(e.message(), "unexpected message type: GetSecretRequest");
}

#[test]
fn missing_origin_rejects_every_message() {
    let answer = InboundMessage::GetSecretResponse {
        key: "k".to_string(),
        context: vec![],
        value: StoredValue::Absent,
    };
    assert_eq!(UpgradeAssistant::process(None, answer).unwrap_err(), AssistantError::MissingOrigin);
    assert_eq!(
        UpgradeAssistant::process(None, InboundMessage::UserResponse).unwrap_err(),
        AssistantError::MissingOrigin
    );
}

#[test]
fn orphaned_response_is_rejected() {
    let answer = InboundMessage::GetSecretResponse {
        key: "upgrade_assistant:x:app".to_string(),
        context: vec![],
        value: StoredValue::Absent,
    };
    let e = UpgradeAssistant::process(Some(test_origin()), answer).unwrap_err();
    assert_eq!(e, AssistantError::OrphanedResponse);
    assert_eq!(e.message(), "No pending operation for key");
}

#[test]
fn parked_set_current_key_is_rejected() {
    let mut ctx = UpgradeAssistantContext::new();
    ctx.insert(
        "k".to_string(),
        PendingOperation::SetCurrentKey {
            origin: vec![1],
            namespace: None,
            delegate_key: [0u8; 32],
            code_hash: [0u8; 32],
        },
    );
    let answer = InboundMessage::GetSecretResponse {
        key: "k".to_string(),
        context: encode_context(&ctx),
        value: StoredValue::Absent,
    };
    let e = UpgradeAssistant::process(Some(test_origin()), answer).unwrap_err();
    assert_eq!(e, AssistantError::UnexpectedPendingOperation);
}

#[test]
fn malformed_stored_value_is_rejected() {
    let request = UpgradeAssistantRequest::GetPreviousKey { namespace: None };
    let lookups =
        UpgradeAssistant::process(Some(test_origin()), request_message(request, vec![])).unwrap();
    let (key, context) = match &lookups[0] {
        OutboundMessage::GetSecretRequest { key, context } => (key.clone(), context.clone()),
        other => panic!("unexpected {:?}", other),
    };
    let answer = InboundMessage::GetSecretResponse { key, context, value: StoredValue::Malformed };
    let e = UpgradeAssistant::process(Some(test_origin()), answer).unwrap_err();
    assert_eq!(e, AssistantError::Deserialization(DataKind::StoredValue));
}

#[test]
fn first_lookup_returns_nothing() {
    let storage = Storage::new();
    match get_key(&storage, &test_origin(), "fresh") {
        UpgradeAssistantResponse::PreviousKey { namespace, delegate_key, code_hash } => {
            assert_eq!(namespace, Some("fresh".to_string()));
            assert_eq!(delegate_key, None);
            assert_eq!(code_hash, None);
        }
        other => panic!("unexpected {:?}", other),
    }
}

#[test]
fn lookup_after_set_returns_stored_key() {
    let mut storage = Storage::new();
    set_key(&mut storage, &test_origin(), "ns", [3u8; 32], [4u8; 32]);
    match get_key(&storage, &test_origin(), "ns") {
        UpgradeAssistantResponse::PreviousKey { delegate_key, code_hash, .. } => {
            assert_eq!(delegate_key, Some([3u8; 32]));
            assert_eq!(code_hash, Some([4u8; 32]));
        }
        other => panic!("unexpected {:?}", other),
    }
}

#[test]
fn second_set_overwrites_first() {
    let mut storage = Storage::new();
    set_key(&mut storage, &test_origin(), "ns", [3u8; 32], [4u8; 32]);
    set_key(&mut storage, &test_origin(), "ns", [5u8; 32], [6u8; 32]);
    match get_key(&storage, &test_origin(), "ns") {
        UpgradeAssistantResponse::PreviousKey { delegate_key, code_hash, .. } => {
            assert_eq!(delegate_key, Some([5u8; 32]));
            assert_eq!(code_hash, Some([6u8; 32]));
        }
        other => panic!("unexpected {:?}", other),
    }
}

#[test]
fn namespaces_and_origins_are_isolated() {
    let mut storage = Storage::new();
    set_key(&mut storage, &test_origin(), "one", [3u8; 32], [4u8; 32]);
    match get_key(&storage, &test_origin(), "two") {
        UpgradeAssistantResponse::PreviousKey { delegate_key, .. } => assert_eq!(delegate_key, None),
        other => panic!("unexpected {:?}", other),
    }
    match get_key(&storage, &vec![2u8; 32], "one") {
        UpgradeAssistantResponse::PreviousKey { delegate_key, .. } => assert_eq!(delegate_key, None),
        other => panic!("unexpected {:?}", other),
    }
}

#[test]
fn full_exchange_scenario() {
    let origin = vec![1u8; 32];
    let set = UpgradeAssistantRequest::SetCurrentKey {
        namespace: Some("app".to_string()),
        delegate_key: [42u8; 32],
        code_hash: [7u8; 32],
    };
    let effects = UpgradeAssistant::process(Some(origin.clone()), request_message(set, vec![])).unwrap();
    assert_eq!(effects.len(), 2);
    let key = create_storage_key(&origin, &Some("app".to_string()));
    match &effects[0] {
        OutboundMessage::ApplicationMessage { app, response, .. } => {
            assert_eq!(app, &[1u8; 32]);
            assert_eq!(
                response,
                &UpgradeAssistantResponse::KeyUpdated { namespace: Some("app".to_string()) }
            );
        }
        other => panic!("unexpected {:?}", other),
    }
    match &effects[1] {
        OutboundMessage::SetSecretRequest { key: k, value } => {
            assert_eq!(k, &key);
            assert_eq!(value, &StoredKeyInfo { delegate_key: [42u8; 32], code_hash: [7u8; 32] });
        }
        other => panic!("unexpected {:?}", other),
    }

    let get = UpgradeAssistantRequest::GetPreviousKey { namespace: Some("app".to_string()) };
    let lookups = UpgradeAssistant::process(Some(origin.clone()), request_message(get, vec![])).unwrap();
    assert_eq!(lookups.len(), 1);
    let context = match &lookups[0] {
        OutboundMessage::GetSecretRequest { key: k, context } => {
            assert_eq!(k, &key);
            context.clone()
        }
        other => panic!("unexpected {:?}", other),
    };
    let answer = InboundMessage::GetSecretResponse {
        key: key.clone(),
        context,
        value: StoredValue::Present(StoredKeyInfo { delegate_key: [42u8; 32], code_hash: [7u8; 32] }),
    };
    let replies = UpgradeAssistant::process(Some(origin), answer).unwrap();
    assert_eq!(replies.len(), 1);
    match &replies[0] {
        OutboundMessage::ApplicationMessage { app, response, context } => {
            assert_eq!(app, &[1u8; 32]);
            assert_eq!(
                response,
                &UpgradeAssistantResponse::PreviousKey {
                    namespace: Some("app".to_string()),
                    delegate_key: Some([42u8; 32]),
                    code_hash: Some([7u8; 32]),
                }
            );
            assert!(decode_context(context).unwrap().pending_ops.is_empty());
        }
        other => panic!("unexpected {:?}", other),
    }
}

#[test]
fn response_carries_back_other_pending_operations() {
    let origin = test_origin();
    let first = UpgradeAssistantRequest::GetPreviousKey { namespace: Some("a".to_string()) };
    let lookups = UpgradeAssistant::process(Some(origin.clone()), request_message(first, vec![])).unwrap();
    let carried = match &lookups[0] {
        OutboundMessage::GetSecretRequest { context, .. } => context.clone(),
        other => panic!("unexpected {:?}", other),
    };
    let second = UpgradeAssistantRequest::GetPreviousKey { namespace: Some("b".to_string()) };
    let lookups = UpgradeAssistant::process(Some(origin.clone()), request_message(second, carried)).unwrap();
    let (key_b, both) = match &lookups[0] {
        OutboundMessage::GetSecretRequest { key, context } => (key.clone(), context.clone()),
        other => panic!("unexpected {:?}", other),
    };
    assert_eq!(decode_context(&both).unwrap().pending_ops.len(), 2);
    let answer = InboundMessage::GetSecretResponse { key: key_b, context: both, value: StoredValue::Absent };
    let replies = UpgradeAssistant::process(Some(origin.clone()), answer).unwrap();
    match &replies[0] {
        OutboundMessage::ApplicationMessage { context, .. } => {
            let rest = decode_context(context).unwrap();
            assert_eq!(rest.pending_ops.len(), 1);
            assert_eq!(rest.pending_ops[0].0, create_storage_key(&origin, &Some("a".to_string())));
        }
        other => panic!("unexpected {:?}", other),
    }
}

#[test]
fn no_previous_versions_yet() {
    assert!(previous_upgrade_assistant_keys().is_empty());
}
