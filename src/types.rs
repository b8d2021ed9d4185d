use vstd::prelude::*;

verus! {

/// A request that a component sends to the assistant.
#[derive(Debug, Clone, PartialEq, Eq)]
pub enum UpgradeAssistantRequest {
    /// Ask for the identifier stored for a namespace (`None`: the default namespace).
    GetPreviousKey { namespace: Option<String> },
    /// Store the current identifier and revision hash for a namespace.
    SetCurrentKey { namespace: Option<String>, delegate_key: [u8; 32], code_hash: [u8; 32] },
}

/// A reply of the assistant to a request.
#[derive(Debug, Clone, PartialEq, Eq)]
pub enum UpgradeAssistantResponse {
    /// Answer to `GetPreviousKey`; both fields are `None` when nothing was ever stored.
    PreviousKey {
        namespace: Option<String>,
        delegate_key: Option<[u8; 32]>,
        code_hash: Option<[u8; 32]>,
    },
    /// Answer to `SetCurrentKey`.
    KeyUpdated { namespace: Option<String> },
}

/// The durable record kept in secret storage for one (origin, namespace) pair.
#[derive(Debug, Clone, Copy, PartialEq, Eq)]
pub struct StoredKeyInfo {
    pub delegate_key: [u8; 32],
    pub code_hash: [u8; 32],
}

/// What the storage layer handed back for a lookup, once its bytes were read.
#[derive(Debug, Clone, Copy, PartialEq, Eq)]
pub enum StoredValue {
    /// Nothing is stored under the key.
    Absent,
    /// A well-formed record is stored under the key.
    Present(StoredKeyInfo),
    /// Something is stored under the key, but it is not a record.
    Malformed,
}

/// An operation parked in the continuation context while it waits for storage.
#[derive(Debug, Clone)]
pub enum PendingOperation {
    GetPreviousKey { origin: Vec<u8>, namespace: Option<String>, app: [u8; 32] },
    SetCurrentKey {
        origin: Vec<u8>,
        namespace: Option<String>,
        delegate_key: [u8; 32],
        code_hash: [u8; 32],
    },
}

/// An inbound message, as the host delivers it to the assistant.
#[derive(Debug, Clone)]
pub enum InboundMessage {
    /// A request from a component; `request` is `None` when its payload could not be read.
    ApplicationMessage {
        app: [u8; 32],
        request: Option<UpgradeAssistantRequest>,
        context: Vec<u8>,
        processed: bool,
    },
    /// The storage layer's answer to a lookup issued earlier.
    GetSecretResponse { key: String, context: Vec<u8>, value: StoredValue },
    /// A response from the user, which the assistant never asks for.
    UserResponse,
    /// A lookup request addressed to the assistant, which it never serves.
    GetSecretRequest,
}

/// An effect that the assistant asks the host to carry out.
#[derive(Debug, Clone)]
pub enum OutboundMessage {
    /// A reply to the component `app`, with the continuation context attached.
    ApplicationMessage { app: [u8; 32], response: UpgradeAssistantResponse, context: Vec<u8> },
    /// A lookup of the value stored under `key`.
    GetSecretRequest { key: String, context: Vec<u8> },
    /// A write of `value` under `key`, replacing what was there.
    SetSecretRequest { key: String, value: StoredKeyInfo },
}

/// Which kind of inbound message the assistant refused to route.
#[derive(Debug, Clone, Copy, PartialEq, Eq, Structural)]
pub enum MessageKind {
    UserResponse,
    GetSecretRequest,
}

/// Which bytes could not be read.
#[derive(Debug, Clone, Copy, PartialEq, Eq, Structural)]
pub enum DataKind {
    Context,
    Request,
    StoredValue,
}

/// Why an invocation failed; a failed invocation produces no effects.
#[derive(Debug, Clone, Copy, PartialEq, Eq, Structural)]
pub enum AssistantError {
    /// The host supplied no attested origin.
    MissingOrigin,
    /// The message was already marked as processed.
    InvalidState,
    /// The message is of a kind that the assistant does not route.
    UnexpectedMessageType(MessageKind),
    /// The context, the request payload or the stored value is malformed.
    Deserialization(DataKind),
    /// A storage answer arrived for a key with no pending operation.
    OrphanedResponse,
    /// A storage answer found a parked `SetCurrentKey`, which is never parked.
    UnexpectedPendingOperation,
}

/// The text that describes an error.
pub open spec fn error_message(e: AssistantError) -> Seq<char> {
    match e {
        AssistantError::MissingOrigin => "missing attested origin"@,
        AssistantError::InvalidState => "cannot process an already processed message"@,
        AssistantError::UnexpectedMessageType(MessageKind::UserResponse) =>
            "unexpected message type: UserResponse"@,
        AssistantError::UnexpectedMessageType(MessageKind::GetSecretRequest) =>
            "unexpected message type: GetSecretRequest"@,
        AssistantError::Deserialization(DataKind::Context) => "Failed to deserialize context"@,
        AssistantError::Deserialization(DataKind::Request) => "Failed to deserialize request"@,
        AssistantError::Deserialization(DataKind::StoredValue) => "Failed to deserialize key info"@,
        AssistantError::OrphanedResponse => "No pending operation for key"@,
        AssistantError::UnexpectedPendingOperation =>
            "Unexpected SetCurrentKey pending operation for get secret response"@,
    }
}

impl AssistantError {
    /// Describes the error in words.
    pub fn message(&self) -> (r: String)
        ensures
            r@ == error_message(*self),
    {
        match self {
            AssistantError::MissingOrigin => String::from_str("missing attested origin"),
            AssistantError::InvalidState => String::from_str(
                "cannot process an already processed message",
            ),
            AssistantError::UnexpectedMessageType(MessageKind::UserResponse) => String::from_str(
                "unexpected message type: UserResponse",
            ),
            AssistantError::UnexpectedMessageType(MessageKind::GetSecretRequest) => String::from_str(
                "unexpected message type: GetSecretRequest",
            ),
            AssistantError::Deserialization(DataKind::Context) => String::from_str(
                "Failed to deserialize context",
            ),
            AssistantError::Deserialization(DataKind::Request) => String::from_str(
                "Failed to deserialize request",
            ),
            AssistantError::Deserialization(DataKind::StoredValue) => String::from_str(
                "Failed to deserialize key info",
            ),
            AssistantError::OrphanedResponse => String::from_str("No pending operation for key"),
            AssistantError::UnexpectedPendingOperation => String::from_str(
                "Unexpected SetCurrentKey pending operation for get secret response",
            ),
        }
    }
}

// ---------------------------------------------------------------------------
// Mathematical models
// ---------------------------------------------------------------------------

pub open spec fn ns_view(ns: Option<String>) -> Option<Seq<char>> {
    match ns {
        Some(s) => Some(s@),
        None => None,
    }
}

pub enum RequestModel {
    GetPreviousKey { namespace: Option<Seq<char>> },
    SetCurrentKey { namespace: Option<Seq<char>>, delegate_key: [u8; 32], code_hash: [u8; 32] },
}

pub enum ResponseModel {
    PreviousKey {
        namespace: Option<Seq<char>>,
        delegate_key: Option<[u8; 32]>,
        code_hash: Option<[u8; 32]>,
    },
    KeyUpdated { namespace: Option<Seq<char>> },
}

pub enum PendingOp {
    GetPreviousKey { origin: Seq<u8>, namespace: Option<Seq<char>>, app: [u8; 32] },
    SetCurrentKey {
        origin: Seq<u8>,
        namespace: Option<Seq<char>>,
        delegate_key: [u8; 32],
        code_hash: [u8; 32],
    },
}

pub enum InboundModel {
    ApplicationMessage {
        app: [u8; 32],
        request: Option<RequestModel>,
        context: Seq<u8>,
        processed: bool,
    },
    GetSecretResponse { key: Seq<char>, context: Seq<u8>, value: StoredValue },
    UserResponse,
    GetSecretRequest,
}

pub enum OutboundModel {
    ApplicationMessage { app: [u8; 32], response: ResponseModel, context: Seq<u8> },
    GetSecretRequest { key: Seq<char>, context: Seq<u8> },
    SetSecretRequest { key: Seq<char>, value: StoredKeyInfo },
}

impl View for UpgradeAssistantRequest {
    type V = RequestModel;

    open spec fn view(&self) -> RequestModel {
        match *self {
            UpgradeAssistantRequest::GetPreviousKey { namespace } => RequestModel::GetPreviousKey {
                namespace: ns_view(namespace),
            },
            UpgradeAssistantRequest::SetCurrentKey { namespace, delegate_key, code_hash } =>
                RequestModel::SetCurrentKey { namespace: ns_view(namespace), delegate_key, code_hash },
        }
    }
}

impl View for UpgradeAssistantResponse {
    type V = ResponseModel;

    open spec fn view(&self) -> ResponseModel {
        match *self {
            UpgradeAssistantResponse::PreviousKey { namespace, delegate_key, code_hash } =>
                ResponseModel::PreviousKey { namespace: ns_view(namespace), delegate_key, code_hash },
            UpgradeAssistantResponse::KeyUpdated { namespace } => ResponseModel::KeyUpdated {
                namespace: ns_view(namespace),
            },
        }
    }
}

impl View for PendingOperation {
    type V = PendingOp;

    open spec fn view(&self) -> PendingOp {
        match *self {
            PendingOperation::GetPreviousKey { origin, namespace, app } => PendingOp::GetPreviousKey {
                origin: origin@,
                namespace: ns_view(namespace),
                app,
            },
            PendingOperation::SetCurrentKey { origin, namespace, delegate_key, code_hash } =>
                PendingOp::SetCurrentKey {
                origin: origin@,
                namespace: ns_view(namespace),
                delegate_key,
                code_hash,
            },
        }
    }
}

impl View for InboundMessage {
    type V = InboundModel;

    open spec fn view(&self) -> InboundModel {
        match *self {
            InboundMessage::ApplicationMessage { app, request, context, processed } =>
                InboundModel::ApplicationMessage {
                app,
                request: match request {
                    Some(r) => Some(r@),
                    None => None,
                },
                context: context@,
                processed,
            },
            InboundMessage::GetSecretResponse { key, context, value } =>
                InboundModel::GetSecretResponse { key: key@, context: context@, value },
            InboundMessage::UserResponse => InboundModel::UserResponse,
            InboundMessage::GetSecretRequest => InboundModel::GetSecretRequest,
        }
    }
}

impl View for OutboundMessage {
    type V = OutboundModel;

    open spec fn view(&self) -> OutboundModel {
        match *self {
            OutboundMessage::ApplicationMessage { app, response, context } =>
                OutboundModel::ApplicationMessage { app, response: response@, context: context@ },
            OutboundMessage::GetSecretRequest { key, context } => OutboundModel::GetSecretRequest {
                key: key@,
                context: context@,
            },
            OutboundMessage::SetSecretRequest { key, value } => OutboundModel::SetSecretRequest {
                key: key@,
                value,
            },
        }
    }
}

/// The models of a sequence of outbound messages.
pub open spec fn outbound_view(msgs: Seq<OutboundMessage>) -> Seq<OutboundModel> {
    msgs.map_values(|m: OutboundMessage| m@)
}

/// A copy of a namespace with the same characters.
pub fn clone_namespace(ns: &Option<String>) -> (r: Option<String>)
    ensures
        ns_view(r) == ns_view(*ns),
{
    match ns {
        Some(s) => Some(s.clone()),
        None => None,
    }
}

/// A copy of an origin with the same bytes.
pub fn clone_bytes(b: &Vec<u8>) -> (r: Vec<u8>)
    ensures
        r@ == b@,
{
    let r = b.clone();
    assert(r@ =~= b@);
    r
}

} // verus!
