//! Mail synchronisation core: header and envelope decoding, the mailbox
//! session state machine, the record store and the agent's decisions.

pub mod agent;
pub mod config;
pub mod envelope;
pub mod headers;
pub mod record;
pub mod session;
pub mod text;
