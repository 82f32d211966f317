//! Write-path building blocks of a Redis proxy: a fixed-capacity ring buffer
//! that batches small writes in front of a non-blocking byte sink, and the
//! value-compression rules applied to string commands.

pub mod sink;
pub mod ring;
pub mod writer;
pub mod strategy;
pub mod command;
pub mod compress;
