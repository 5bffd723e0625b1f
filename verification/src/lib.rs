//! Edge bot-detection pipeline: extracts a session id from a cookie header,
//! interprets the multi-signal header protocol of a verification service,
//! applies the block-decision threshold, and plans the outgoing annotation
//! headers. All protocol logic is verified; transport lives outside.

pub mod cookie;
pub mod headers;
pub mod pipeline;
pub mod probability;
pub mod registry;
pub mod signal;
pub mod text;
