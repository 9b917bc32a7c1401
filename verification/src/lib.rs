//! Verified core of a small RPC benchmarking suite: the big-endian
//! request/response framing, the benchmark services, and the decisions
//! of the hand-written connection loop.

pub mod bytes;

pub mod codec;
pub mod hello;
pub mod service;
pub mod timing;
pub mod conn;
