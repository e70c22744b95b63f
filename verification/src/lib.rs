//! Connection handling for a UDP transport between peers.
//!
//! A peer keeps a table of the remote addresses it talks to, opens encrypted connections to other
//! peers through their NATs, and, when it is a gateway, accepts connections from peers it has not
//! heard of before. This crate holds the decisions of that work. Waiting, sending and spawning
//! belong to the program around it, which performs the actions that the state machines here ask
//! for and hands back the events.

pub mod addr;
pub mod addr_map;
pub mod agreement_laws;
pub mod backoff;
pub mod connection;
pub mod crypto;
pub mod error;
pub mod gateway;
pub mod gateway_laws;
pub mod gateway_model;
pub mod intro;
pub mod listener;
pub mod listener_laws;
pub mod request;
pub mod traversal;
pub mod traversal_laws;
pub mod traversal_model;

