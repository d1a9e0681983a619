//! Model download manager of a desktop client for a local model-serving daemon.
//!
//! The library holds the logic of a download: decoding the line-delimited
//! progress stream (`wire`), the table of active downloads with their
//! cancellation handles (`registry`), the table of durable progress records
//! (`store`), and the per-download control step that ties them together
//! (`download`). Around it: the service address and models directory
//! (`config`), the shell start-up lines that export the models directory
//! (`profile`), the assembly of streamed chat replies (`chat`), and the
//! decisions around restarting the service (`service`), and the choice of the
//! disk that holds the models directory (`disk`).
pub mod chat;
pub mod config;
pub mod disk;
pub mod download;
pub mod profile;
pub mod registry;
pub mod service;
pub mod store;
pub mod wire;
