//! Core logic of a Steam depot download helper: manifest-script parsing,
//! manifest lookup, download orchestration decisions and patch bookkeeping.

pub mod archive;
pub mod config;
pub mod downloader;
pub mod json;
pub mod locales;
pub mod lua;
pub mod manifest;
pub mod parser;
pub mod patch;
pub mod text;
