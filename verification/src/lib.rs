//! Verified core of the XMCL launcher back end.
pub mod account;
pub mod cauc;
pub mod error;
pub mod export_common;
pub mod export_curseforge;
pub mod export_fullzip;
pub mod export_modrinth;
pub mod export_multimc;
pub mod hashes;
pub mod models;
pub mod openlist;
pub mod paths;
pub mod proxy;
pub mod tasks;
pub mod text;
