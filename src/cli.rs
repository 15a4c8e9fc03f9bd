use vstd::prelude::*;

verus! {

/// The parsed command line: one action, or none to start the interactive menu.
#[derive(Debug, Clone, PartialEq, Eq)]
pub struct Cli {
    pub command: Option<Commands>,
}

/// The actions the tool offers.
#[derive(Debug, Clone, PartialEq, Eq)]
pub enum Commands {
    /// List all USB disks.
    List,
    /// Show the partitions of one USB disk.
    Parts { device: String },
    /// Flush filesystem buffers (system-wide) for a device.
    Sync { device: String },
    /// Unmount the filesystem mounted at a path.
    Unmount { device: String },
    /// Copy a file or directory to a destination on a USB partition.
    Cp { source: String, dest: String },
}

} // verus!
