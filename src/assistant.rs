use vstd::prelude::*;
use crate::codec::{context_bytes, decode_context, encode_context, parse_context};
use crate::context::{Entry, UpgradeAssistantContext, insert_entry, lookup, without_key};
use crate::storage_key::{create_storage_key, storage_key};
use crate::types::{
    AssistantError, DataKind, InboundMessage, InboundModel, MessageKind, OutboundMessage,
    OutboundModel, PendingOp, PendingOperation, RequestModel, ResponseModel, StoredKeyInfo,
    StoredValue, UpgradeAssistantRequest, UpgradeAssistantResponse, clone_bytes, ns_view,
    outbound_view,
};

verus! {

/// The assistant: a stateless handler of inbound messages.
pub struct UpgradeAssistant;

// ---------------------------------------------------------------------------
// What each invocation produces
// ---------------------------------------------------------------------------

/// The lookup that a `GetPreviousKey` request issues, with the operation
/// parked in the context it carries.
pub open spec fn get_previous_key_outcome(
    ctx: Seq<Entry>,
    origin: Seq<u8>,
    ns: Option<Seq<char>>,
    app: [u8; 32],
) -> Seq<OutboundModel> {
    let key = storage_key(origin, ns);
    let op = PendingOp::GetPreviousKey { origin, namespace: ns, app };
    seq![OutboundModel::GetSecretRequest { key, context: context_bytes(insert_entry(ctx, key, op)) }]
}

/// The reply and then the write that a `SetCurrentKey` request produces.
pub open spec fn set_current_key_outcome(
    ctx: Seq<Entry>,
    origin: Seq<u8>,
    ns: Option<Seq<char>>,
    delegate_key: [u8; 32],
    code_hash: [u8; 32],
    app: [u8; 32],
) -> Seq<OutboundModel> {
    seq![
        OutboundModel::ApplicationMessage {
            app,
            response: ResponseModel::KeyUpdated { namespace: ns },
            context: context_bytes(ctx),
        },
        OutboundModel::SetSecretRequest {
            key: storage_key(origin, ns),
            value: StoredKeyInfo { delegate_key, code_hash },
        },
    ]
}

/// What a storage answer for `key` produces, given the decoded context.
pub open spec fn resume_outcome(key: Seq<char>, ctx: Seq<Entry>, value: StoredValue) -> Result<
    Seq<OutboundModel>,
    AssistantError,
> {
    match lookup(ctx, key) {
        None => Err(AssistantError::OrphanedResponse),
        Some(PendingOp::SetCurrentKey { .. }) => Err(AssistantError::UnexpectedPendingOperation),
        Some(PendingOp::GetPreviousKey { namespace, app, .. }) => {
            let rest = context_bytes(without_key(ctx, key));
            match value {
                StoredValue::Malformed => Err(AssistantError::Deserialization(DataKind::StoredValue)),
                StoredValue::Absent => Ok(
                    seq![
                        OutboundModel::ApplicationMessage {
                            app,
                            response: ResponseModel::PreviousKey {
                                namespace,
                                delegate_key: None,
                                code_hash: None,
                            },
                            context: rest,
                        },
                    ],
                ),
                StoredValue::Present(info) => Ok(
                    seq![
                        OutboundModel::ApplicationMessage {
                            app,
                            response: ResponseModel::PreviousKey {
                                namespace,
                                delegate_key: Some(info.delegate_key),
                                code_hash: Some(info.code_hash),
                            },
                            context: rest,
                        },
                    ],
                ),
            }
        },
    }
}

/// What a request from component `app` produces.
pub open spec fn application_outcome(
    origin: Seq<u8>,
    app: [u8; 32],
    request: Option<RequestModel>,
    context: Seq<u8>,
) -> Result<Seq<OutboundModel>, AssistantError> {
    match parse_context(context) {
        None => Err(AssistantError::Deserialization(DataKind::Context)),
        Some(ctx) => match request {
            None => Err(AssistantError::Deserialization(DataKind::Request)),
            Some(RequestModel::GetPreviousKey { namespace }) => Ok(
                get_previous_key_outcome(ctx, origin, namespace, app),
            ),
            Some(RequestModel::SetCurrentKey { namespace, delegate_key, code_hash }) => Ok(
                set_current_key_outcome(ctx, origin, namespace, delegate_key, code_hash, app),
            ),
        },
    }
}

/// What one invocation produces, from the attested origin and the message.
pub open spec fn process_outcome(attested: Option<Seq<u8>>, msg: InboundModel) -> Result<
    Seq<OutboundModel>,
    AssistantError,
> {
    match attested {
        None => Err(AssistantError::MissingOrigin),
        Some(origin) => match msg {
            InboundModel::ApplicationMessage { app, request, context, processed } => if processed {
                Err(AssistantError::InvalidState)
            } else {
                application_outcome(origin, app, request, context)
            },
            InboundModel::GetSecretResponse { key, context, value } => match parse_context(
                context,
            ) {
                None => Err(AssistantError::Deserialization(DataKind::Context)),
                Some(ctx) => resume_outcome(key, ctx, value),
            },
            InboundModel::UserResponse => Err(
                AssistantError::UnexpectedMessageType(MessageKind::UserResponse),
            ),
            InboundModel::GetSecretRequest => Err(
                AssistantError::UnexpectedMessageType(MessageKind::GetSecretRequest),
            ),
        },
    }
}

pub open spec fn result_view(r: Result<Vec<OutboundMessage>, AssistantError>) -> Result<
    Seq<OutboundModel>,
    AssistantError,
> {
    match r {
        Ok(v) => Ok(outbound_view(v@)),
        Err(e) => Err(e),
    }
}

pub open spec fn attested_view(attested: Option<Vec<u8>>) -> Option<Seq<u8>> {
    match attested {
        Some(b) => Some(b@),
        None => None,
    }
}

// ---------------------------------------------------------------------------
// The handlers
// ---------------------------------------------------------------------------

/// Wraps a reply for delivery to the component `app`, with the context attached.
fn create_app_response(response: UpgradeAssistantResponse, context: Vec<u8>, app: [u8; 32]) -> (r:
    OutboundMessage)
    ensures
        r@ == (OutboundModel::ApplicationMessage { app, response: response@, context: context@ }),
{
    OutboundMessage::ApplicationMessage { app, response, context }
}

fn single(m: OutboundMessage) -> (r: Vec<OutboundMessage>)
    ensures
        outbound_view(r@) == seq![m@],
{
    let mut r: Vec<OutboundMessage> = Vec::new();
    r.push(m);
    assert(outbound_view(r@) =~= seq![m@]);
    r
}

/// Parks a `GetPreviousKey` in the context and issues the storage lookup.
fn handle_get_previous_key(
    context: &mut UpgradeAssistantContext,
    origin: &Vec<u8>,
    namespace: Option<String>,
    app: [u8; 32],
) -> (r: Vec<OutboundMessage>)
    ensures
        outbound_view(r@) == get_previous_key_outcome(old(context)@, origin@, ns_view(namespace), app),
        final(context)@ == insert_entry(
            old(context)@,
            storage_key(origin@, ns_view(namespace)),
            PendingOp::GetPreviousKey { origin: origin@, namespace: ns_view(namespace), app },
        ),
{
    let key = create_storage_key(origin, &namespace);
    let op = PendingOperation::GetPreviousKey { origin: clone_bytes(origin), namespace, app };
    context.insert(key.clone(), op);
    let context_bytes = encode_context(context);
    single(OutboundMessage::GetSecretRequest { key, context: context_bytes })
}

/// Replies `KeyUpdated` and then writes the new record under the derived key.
fn handle_set_current_key(
    context: &UpgradeAssistantContext,
    origin: &Vec<u8>,
    namespace: Option<String>,
    delegate_key: [u8; 32],
    code_hash: [u8; 32],
    app: [u8; 32],
) -> (r: Vec<OutboundMessage>)
    ensures
        outbound_view(r@) == set_current_key_outcome(
            context@,
            origin@,
            ns_view(namespace),
            delegate_key,
            code_hash,
            app,
        ),
{
    let key = create_storage_key(origin, &namespace);
    let key_info = StoredKeyInfo { delegate_key, code_hash };
    let response = UpgradeAssistantResponse::KeyUpdated { namespace };
    let context_bytes = encode_context(context);
    let app_response = create_app_response(response, context_bytes, app);
    let set_secret = OutboundMessage::SetSecretRequest { key, value: key_info };
    let mut r: Vec<OutboundMessage> = Vec::new();
    r.push(app_response);
    r.push(set_secret);
    assert(outbound_view(r@) =~= set_current_key_outcome(
        context@,
        origin@,
        ns_view(namespace),
        delegate_key,
        code_hash,
        app,
    ));
    r
}

/// Routes a request from component `app` to its handler.
fn handle_application_message(
    app: [u8; 32],
    request: Option<UpgradeAssistantRequest>,
    context: &Vec<u8>,
    origin: &Vec<u8>,
) -> (r: Result<Vec<OutboundMessage>, AssistantError>)
    ensures
        result_view(r) == application_outcome(
            origin@,
            app,
            match request {
                Some(q) => Some(q@),
                None => None,
            },
            context@,
        ),
{
    let mut ctx = match decode_context(context) {
        Some(c) => c,
        None => return Err(AssistantError::Deserialization(DataKind::Context)),
    };
    match request {
        None => Err(AssistantError::Deserialization(DataKind::Request)),
        Some(UpgradeAssistantRequest::GetPreviousKey { namespace }) => Ok(
            handle_get_previous_key(&mut ctx, origin, namespace, app),
        ),
        Some(UpgradeAssistantRequest::SetCurrentKey { namespace, delegate_key, code_hash }) => Ok(
            handle_set_current_key(&ctx, origin, namespace, delegate_key, code_hash, app),
        ),
    }
}

/// Resumes the operation parked under `key` with the storage layer's answer.
fn handle_get_secret_response(key: &String, context: &Vec<u8>, value: StoredValue) -> (r: Result<
    Vec<OutboundMessage>,
    AssistantError,
>)
    ensures
        parse_context(context@) is None ==> r == Err::<Vec<OutboundMessage>, AssistantError>(
            AssistantError::Deserialization(DataKind::Context),
        ),
        parse_context(context@) matches Some(ctx) ==> result_view(r) == resume_outcome(
            key@,
            ctx,
            value,
        ),
        parse_context(context@) matches Some(ctx) && lookup(ctx, key@) is None ==> r
            == Err::<Vec<OutboundMessage>, AssistantError>(AssistantError::OrphanedResponse),
{
    let mut ctx = match decode_context(context) {
        Some(c) => c,
        None => return Err(AssistantError::Deserialization(DataKind::Context)),
    };
    let pending_op = match ctx.remove(key) {
        Some(op) => op,
        None => return Err(AssistantError::OrphanedResponse),
    };
    match pending_op {
        PendingOperation::GetPreviousKey { namespace, app, .. } => {
            let (delegate_key, code_hash) = match value {
                StoredValue::Present(info) => (Some(info.delegate_key), Some(info.code_hash)),
                StoredValue::Absent => (None, None),
                StoredValue::Malformed => {
                    return Err(AssistantError::Deserialization(DataKind::StoredValue));
                },
            };
            let response = UpgradeAssistantResponse::PreviousKey {
                namespace,
                delegate_key,
                code_hash,
            };
            let context_bytes = encode_context(&ctx);
            Ok(single(create_app_response(response, context_bytes, app)))
        },
        PendingOperation::SetCurrentKey { .. } => Err(AssistantError::UnexpectedPendingOperation),
    }
}

impl UpgradeAssistant {
    /// Handles one inbound message: checks the attested origin, then routes
    /// requests to their handlers and storage answers to the resumption of
    /// the operation that waits on them.  An error produces no effects.
    pub fn process(attested: Option<Vec<u8>>, message: InboundMessage) -> (r: Result<
        Vec<OutboundMessage>,
        AssistantError,
    >)
        ensures
            result_view(r) == process_outcome(attested_view(attested), message@),
            attested is None ==> r == Err::<Vec<OutboundMessage>, AssistantError>(
                AssistantError::MissingOrigin,
            ),
            attested is Some ==> (message@ matches InboundModel::GetSecretResponse { key, context, .. }
                ==> (parse_context(context) matches Some(ctx) ==> (lookup(ctx, key) is None ==> r
                == Err::<Vec<OutboundMessage>, AssistantError>(AssistantError::OrphanedResponse)))),
    {
        let origin = match attested {
            Some(bytes) => bytes,
            None => return Err(AssistantError::MissingOrigin),
        };
        match message {
            InboundMessage::ApplicationMessage { app, request, context, processed } => {
                if processed {
                    return Err(AssistantError::InvalidState);
                }
                handle_application_message(app, request, &context, &origin)
            },
            InboundMessage::GetSecretResponse { key, context, value } => {
                handle_get_secret_response(&key, &context, value)
            },
            InboundMessage::UserResponse => Err(
                AssistantError::UnexpectedMessageType(MessageKind::UserResponse),
            ),
            InboundMessage::GetSecretRequest => Err(
                AssistantError::UnexpectedMessageType(MessageKind::GetSecretRequest),
            ),
        }
    }
}

} // verus!
