//! The local side of fetching browsers and drivers: where downloads are
//! cached, how a download is told apart and unpacked, and how a version
//! number is read from what a binary prints.
//!
//! The library decides and computes; it does not touch the disk. Callers
//! hand in what they read and carry out what they are told.
pub mod archive;
pub mod cache;
pub mod config;
pub mod error;
pub mod text;
pub mod version;

pub use crate::archive::{
    classify, detect_extension, dispatch, entry_matches, uncompress, untargz, unzip, DetectedFormat,
    Extraction,
};
pub use crate::cache::{
    compose_cache_folder, compose_driver_path_in_cache, create_storage_config_file, get_binary_extension,
    get_cache_folder, get_driver_filename, get_storage_config, get_storage_config_path, join,
    new_storage_config, set_cache_path, BrowserPath, CacheFolder, StorageConfig, StoredConfig,
};
pub use crate::config::OS;
pub use crate::error::{Error, Failure, PARSE_ERROR};
pub use crate::version::{choose_version, parse_version, Candidate};
