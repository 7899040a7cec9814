//! Relays messages between the channels of a named network.
//!
//! The library holds the decisions: who belongs to which network, which
//! channels a message goes to, how an author's name and avatar are shown,
//! when a posting endpoint is reused, provisioned or evicted, and how the
//! results of one fan-out are summed up. The platform calls stay outside.
pub mod identity;
pub mod registry;
pub mod endpoint;
pub mod relay;
pub mod commands;
