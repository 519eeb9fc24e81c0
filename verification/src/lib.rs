//! Download routing, scheduling, health supervision and vault encryption.
pub mod clock;
pub mod download_router;
pub mod downloader;
pub mod health_metrics;
pub mod host_reputation;
pub mod scheduler;
pub mod secure_storage;
pub mod snde;
pub mod spotify_downloader;
pub mod text;
pub mod urls;
pub mod vault;
pub mod vault_crypto;
pub mod vault_download;
pub mod watchdog;
