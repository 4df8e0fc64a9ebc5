//! The client payloads that the proxy reads: IDENTIFY and RESUME.
use vstd::prelude::*;

verus! {

/// An IDENTIFY payload.
pub struct Identify {
    pub d: IdentifyInfo,
}

/// A RESUME payload.
pub struct Resume {
    pub d: ResumeInfo,
}

/// The data of an IDENTIFY payload that the proxy reads.
pub struct IdentifyInfo {
    /// Whether the client asks for compressed payloads.
    pub compress: Option<bool>,
    /// The shard ID and the shard count.
    pub shard: [u32; 2],
    pub token: String,
}

/// The data of a RESUME payload.
pub struct ResumeInfo {
    pub session_id: String,
    /// The last sequence number that the client received.
    pub seq: usize,
    pub token: String,
}

} // verus!
