//! Peers on one local network each keep a small set of votes and ask one
//! another for the public ones, over libp2p's floodsub and mDNS and without
//! a server. This library holds what a peer decides: the id a new vote
//! gets, which votes an answer holds, what to do about a payload that
//! arrived, and who is in the partial view. Reading and writing the file,
//! encoding messages and running the swarm are left to the program around
//! it.

pub mod command;
pub mod membership;
pub mod message;
pub mod node;
pub mod peer;
pub mod protocol;
pub mod record;
