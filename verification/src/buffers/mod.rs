//! The buffer service: in-memory buffer state and its edit pipeline,
//! observation, publishing decisions and CLI helpers.

pub mod batch;
pub mod cli;
pub mod edits;
pub mod lines;
pub mod model;
pub mod observer;
pub mod publisher;
