//! Coordinator for a farm of chat-bot workers.
//!
//! A single master process listens for invitations from users of a voice-chat
//! server and provisions one dedicated worker bot per inviting user's channel.
//! Every worker consumes one slot from each of two finite pools (display
//! names and identities) for its lifetime; the slots return to the pools when
//! the worker goes away.
//!
//! This crate holds the verified core of the master: the resource-pool
//! allocator, the admission rules for worker creation, the registry of active
//! workers, the event-routing decisions, and the error taxonomy. The network
//! transport and the workers themselves are external collaborators: the
//! library takes the facts it needs from them (a user's channel, a channel
//! path) as plain values and hands decisions back.

pub mod config;
pub mod errors;
pub mod master;
pub mod pool;
