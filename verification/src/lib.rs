//! Control-plane client and process supervisor for a remote codebase
//! repository service.
//!
//! The library models the repository's versioned-codebase protocol: the wire
//! codec for its listing and descriptor responses, the request planning and
//! precondition checks of the API client, the lifecycle state machine of the
//! engine process supervisor, and the protocol's state semantics against
//! which the workflow laws are proved. The unverifiable edges (HTTP traffic,
//! the native engine entry points) live outside the library and exchange
//! plain values with it.

pub mod client;
pub mod codec;
pub mod descriptor;
pub mod errors;
pub mod laws;
pub mod model;
pub mod supervisor;
