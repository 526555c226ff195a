//! Switch daemon bookkeeping: whether the daemon behind the whole control
//! plane has been brought up, and what it was started with. Launching the
//! daemon itself happens outside the library.

use vstd::prelude::*;

verus! {

/// Bookkeeping for the switch daemon.
pub struct BFManager {
    pub is_running: bool,
    pub bf_config_file: String,
    pub bf_bin_path: String,
}

impl BFManager {
    /// A manager for a daemon that is not running yet.
    pub fn init() -> (r: BFManager)
        ensures
            !r.is_running,
    {
        BFManager { is_running: false, bf_config_file: String::new(), bf_bin_path: String::new() }
    }

    /// Marks the daemon as running and records the configuration file and
    /// install directory the caller started it with.
    pub fn run(&mut self, bf_config_file: String, bf_bin_path: String)
        ensures
            final(self).is_running,
            final(self).bf_config_file == bf_config_file,
            final(self).bf_bin_path == bf_bin_path,
    {
        self.is_running = true;
        self.bf_config_file = bf_config_file;
        self.bf_bin_path = bf_bin_path;
    }
}

} // verus!
