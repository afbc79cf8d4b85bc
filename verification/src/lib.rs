//! Verified core of a modpack downloader: the status bookkeeping of every
//! file being fetched, the decisions taken while a file is transferred, the
//! layout of the files that a modpack extracts, and the manifest model.

pub mod status;
pub mod status_manager;
pub mod text;
pub mod paths;
pub mod overrides;
pub mod manifest;
pub mod layout;
pub mod transfer;
pub mod downloader;
