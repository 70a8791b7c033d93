//! Verified core of pdf2vid: provider registry, FFmpeg filter-graph and
//! argument construction, caption layout, export planning and the text
//! handling these rely on.

pub mod text;
pub mod font;
pub mod render;
pub mod types;
pub mod providers;
pub mod ffmpeg;
pub mod codec;
pub mod cloud;
pub mod edgetts;
pub mod models;
pub mod export;
pub mod subprocess;
pub mod argos;
pub mod kokoro;
pub mod chatterbox;
pub mod state;
pub mod commands;
pub mod ocr;
