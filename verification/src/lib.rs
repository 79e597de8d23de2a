//! zpic: verified core of an image-hosting CLI compatible with PicGo configuration.

pub mod text;
pub mod smap;
pub mod kinds;
pub mod upload;
pub mod placeholder;
pub mod format;
pub mod error;
pub mod envvar;
pub mod fields;
pub mod seqs;
pub mod config;
pub mod stamp;
pub mod sigv4;
pub mod s3;
pub mod oss;
pub mod manager;
pub mod github;
pub mod local;
pub mod factory;
pub mod registry;
pub mod migrate;
pub mod template;
pub mod server;
pub mod picgo;
pub mod paths;
pub mod loader;
pub mod resolve;
pub mod media;
pub mod pipeline;
pub mod output;
pub mod progress;
pub mod history;
pub mod mcp;
pub mod assistant;
pub mod listing;
pub mod body;
pub mod plugins;
pub mod wasm;
pub mod doctor;
pub mod zed;
pub mod migration;
pub mod setting;
