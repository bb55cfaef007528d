//! Process configuration values. Loading them from files or the
//! environment is the embedding application's concern; the library only
//! fixes their shape and defaults.

use vstd::prelude::*;

verus! {

/// Whether the write-ahead log is enabled.
#[derive(Debug)]
pub struct WalConfig {
    pub use_wal: bool,
}

impl Default for WalConfig {
    fn default() -> (r: Self)
        ensures
            r.use_wal == false,
    {
        WalConfig { use_wal: false }
    }
}

/// Whether and where the store is saved to disk.
#[derive(Debug)]
pub struct DataConfig {
    pub save_to_disk: bool,
    pub save_path: Option<String>,
}

impl Default for DataConfig {
    fn default() -> (r: Self)
        ensures
            r.save_to_disk == false,
            r.save_path is None,
    {
        DataConfig { save_to_disk: false, save_path: None }
    }
}

/// Process-wide settings: the debug flag, the disk-save options and the
/// write-ahead-log flag.
#[derive(Debug)]
pub struct Settings {
    pub debug: bool,
    pub data: DataConfig,
    pub wal: WalConfig,
}

} // verus!
