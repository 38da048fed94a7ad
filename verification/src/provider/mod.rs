//! Concrete model-provider adapters.
//!
//! The run loop knows none of them. Each adapter owns its configuration, the payload it sends
//! and the grammar it reads; the transport stays with the host.

pub mod commandcode;
pub mod completion;
pub mod exchanges;
pub mod http;
pub mod local;
pub mod openai;
pub mod openrouter;
pub mod registry;
pub mod replies;
pub mod requests;
pub mod selection;
pub mod transport;
pub mod wires;
