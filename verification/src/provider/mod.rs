//! The provider layer: the error taxonomy and its classification of HTTP
//! failures, the per-protocol configuration flags, and the decoding of the
//! streamed events of each wire protocol into messages.
pub mod error;
pub mod model;
pub mod events;
pub mod anthropic;
pub mod openai_compat;
pub mod azure_openai;
pub mod bedrock;
pub mod mock;
pub mod request;
pub mod openai_request;
pub mod azure_request;
pub mod bedrock_request;
pub mod registry;
