//! Core logic of a self-hosted media conversion service.
pub mod api;
pub mod config;
pub mod documents;
pub mod ffmpeg;
pub mod heif;
pub mod imaging;
pub mod jobs;
pub mod path;
pub mod process;
pub mod pdf;
pub mod storage;
pub mod text;
pub mod upload;
pub mod worker;
