//! Node arguments that need nothing from the command line parser.

use vstd::prelude::*;

verus! {

/// The text inside, when there is any.
pub open spec fn text_view(text: Option<String>) -> Option<Seq<char>> {
    match text {
        Some(t) => Some(t@),
        None => None,
    }
}

fn clone_text(text: &Option<String>) -> (r: Option<String>)
    ensures
        text_view(r) == text_view(*text),
{
    match text {
        Some(t) => Some(t.clone()),
        None => None,
    }
}

/// Parameters for the flashblocks peer-to-peer node.
#[derive(Debug, PartialEq, Eq)]
pub struct FlashblocksP2pArgs {
    /// Enable libp2p networking for flashblock propagation.
    pub p2p_enabled: bool,
    /// Port for the flashblocks p2p node.
    pub p2p_port: u16,
    /// Path to the file containing a hex-encoded libp2p private key.
    /// If the file does not exist, a new key will be generated.
    pub p2p_private_key_file: Option<String>,
    /// Comma-separated list of multiaddrs of known flashblocks peers.
    pub p2p_known_peers: Option<String>,
    /// Maximum number of peers for the flashblocks p2p node.
    pub p2p_max_peer_count: u32,
}

impl Clone for FlashblocksP2pArgs {
    fn clone(&self) -> (r: Self)
        ensures
            r.p2p_enabled == self.p2p_enabled,
            r.p2p_port == self.p2p_port,
            text_view(r.p2p_private_key_file) == text_view(self.p2p_private_key_file),
            text_view(r.p2p_known_peers) == text_view(self.p2p_known_peers),
            r.p2p_max_peer_count == self.p2p_max_peer_count,
    {
        FlashblocksP2pArgs {
            p2p_enabled: self.p2p_enabled,
            p2p_port: self.p2p_port,
            p2p_private_key_file: clone_text(&self.p2p_private_key_file),
            p2p_known_peers: clone_text(&self.p2p_known_peers),
            p2p_max_peer_count: self.p2p_max_peer_count,
        }
    }
}

/// Parameters for telemetry configuration.
#[derive(Debug, PartialEq, Eq)]
pub struct TelemetryArgs {
    /// OpenTelemetry endpoint for traces.
    pub otlp_endpoint: Option<String>,
    /// OpenTelemetry headers for authentication.
    pub otlp_headers: Option<String>,
    /// Inverted sampling frequency in blocks. 1 - each block, 100 - every 100th block.
    pub sampling_ratio: u64,
}

impl Clone for TelemetryArgs {
    fn clone(&self) -> (r: Self)
        ensures
            text_view(r.otlp_endpoint) == text_view(self.otlp_endpoint),
            text_view(r.otlp_headers) == text_view(self.otlp_headers),
            r.sampling_ratio == self.sampling_ratio,
    {
        TelemetryArgs {
            otlp_endpoint: clone_text(&self.otlp_endpoint),
            otlp_headers: clone_text(&self.otlp_headers),
            sampling_ratio: self.sampling_ratio,
        }
    }
}

impl Default for TelemetryArgs {
    /// No endpoint, no headers and no sampling.
    fn default() -> (r: Self)
        ensures
            r.otlp_endpoint is None,
            r.otlp_headers is None,
            r.sampling_ratio == 0,
    {
        TelemetryArgs { otlp_endpoint: None, otlp_headers: None, sampling_ratio: 0 }
    }
}

} // verus!
