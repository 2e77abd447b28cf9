//! Startup configuration for the monitor: the capture interface and the
//! capture filter expression. Loading and validating the on-disk file is
//! I/O and lives outside the library; the library holds the plain values.

use vstd::prelude::*;

verus! {

/// The two startup settings the monitor needs.
#[derive(Clone, Debug)]
pub struct MonitorConfig {
    pub interface: String,
    pub pcap_filter_expression: String,
}

} // verus!
