//! A protocol-agnostic service core: a type-indexed request context, a
//! type-tagged event envelope, a service contract, a router that dispatches by
//! protocol identifier and a transparent logging decorator.
pub mod any_arc;
pub mod event;
pub mod logger;
pub mod router;
pub mod scope;
pub mod service;
pub mod table;

pub use any_arc::AnyArc;
pub use event::Event;
pub use logger::Logger;
pub use router::{ProtocolRouter, UnsupportedProtocol};
pub use scope::{Scope, ScopeView};
pub use service::Service;
