//! Verified core of the Dapr WebAssembly components: error classification,
//! request shaping, gRPC framing and the inbound router.

pub mod text;
pub mod failure;
pub mod errors;
pub mod http_errors;
pub mod framing;
pub mod base64;
pub mod percent;
pub mod query;
pub mod inbound;
pub mod json_text;
pub mod channel;
pub mod runtime_doc;
pub mod smoke;
pub mod cloud_event;
pub mod sidecar;
pub mod metadata;
pub mod grpc;
pub mod state;
pub mod replies;
pub mod protobuf;
pub mod time;
pub mod crypto;
pub mod counter;
pub mod jobs;
pub mod conversation;
