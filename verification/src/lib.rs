//! Decisions of an offline meeting recorder: cutting audio into windows for speech
//! recognition, assembling the transcript, building the summary prompt, driving token
//! generation, and the argument and file handling of its tools. The speech and language
//! models themselves are run by the caller.
pub mod chunks;
pub mod commands;
pub mod engine;
pub mod generation;
pub mod harness;
pub mod prompt;
pub mod spike;
pub mod text;
pub mod transcript;
pub mod wav;
