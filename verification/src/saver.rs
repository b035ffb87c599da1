//! Saving runs in foreign formats. Each saver turns a run into text (and
//! possibly side files); writing anything to disk is the caller's
//! concern.

pub mod file_write;
pub mod splitty;
pub mod urn;
pub mod wsplit;
