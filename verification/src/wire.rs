//! Options of the FIBRE wire protocol.

use vstd::prelude::*;

verus! {

/// FIBRE protocol options.
#[derive(Clone, Debug)]
pub struct FibreConfig {
    /// Whether the UDP relay is on.
    pub enabled: bool,
    /// Forward error correction parity ratio, as its decimal text.
    pub fec_parity_ratio: String,
    /// Chunk timeout in seconds.
    pub chunk_timeout_secs: u64,
    /// Maximum number of retries.
    pub max_retries: u32,
    /// Maximum number of blocks under assembly.
    pub max_assemblies: usize,
}

} // verus!
