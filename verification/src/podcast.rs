//! Podcast scripts: their roles and dialogue segments, and the voices that
//! read them.

pub mod errors;
pub mod generator;
pub mod parser;
pub mod script;
pub mod tts;
pub mod voice;
