//! Demultiplexing of chained Ogg/Vorbis containers: from the packets that a
//! packet decoder read out of a container to per-stream chunks of samples,
//! with indexed access to the result.

pub mod codec;
pub mod demux;
pub mod error;
pub mod laws;
pub mod processor;
pub mod stream;
