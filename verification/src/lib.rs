//! Client-side component of a replicated state-machine cluster.
//!
//! The crate has two parts: `wire` defines the framed messages a client
//! exchanges with a cluster member (connection preamble, proposal request,
//! proposal response) as exact functions on bytes, and `client` holds the
//! leader-discovery state machine that a transport driver runs: it decides,
//! from the client's state and each transport event, which address to contact
//! next, when a proposal is committed, and when the search is exhausted.

pub mod client;
pub mod wire;

pub use client::Action;
pub use client::Client;
pub use client::Event;
pub use client::Phase;
pub use client::ProposeCall;
pub use client::ProposeError;
pub use wire::Address;
pub use wire::ClientId;
pub use wire::ProposalResponse;
