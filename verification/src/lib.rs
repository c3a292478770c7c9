//! Gas usage tracker: the request logic of a service that, given a chain
//! address and a named time window, resolves block-number boundaries for the
//! window and sums the gas consumed by transactions sent from that address.
//!
//! The library holds the verified logic: the period-to-seconds mapping, the
//! planning of block-number queries, the parsing of upstream block-number
//! replies, and the filtering and summation of transaction gas. The HTTP
//! server and the outbound calls to the block-explorer API live outside it
//! and hand these functions plain values.

pub mod gas;
pub mod handler;
pub mod numbers;
pub mod period;
pub mod text;
