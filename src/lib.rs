//! A stateless, message-driven assistant that lets components record, per
//! attested origin and namespace, the identifier of their current revision,
//! and look up the identifier they recorded before.
//!
//! Every multi-step exchange keeps its state in a continuation context that
//! travels with each message; the assistant itself holds nothing between
//! invocations.

pub mod assistant;
pub mod codec;
pub mod context;
pub mod laws;
pub mod previous_versions;
pub mod storage_key;
pub mod types;

pub use assistant::UpgradeAssistant;
pub use codec::{decode_context, encode_context};
pub use context::UpgradeAssistantContext;
pub use previous_versions::{previous_upgrade_assistant_keys, PreviousVersion};
pub use storage_key::create_storage_key;
pub use types::{
    AssistantError, DataKind, InboundMessage, MessageKind, OutboundMessage, PendingOperation,
    StoredKeyInfo, StoredValue, UpgradeAssistantRequest, UpgradeAssistantResponse,
};
