//! A realtime-safe disk streaming engine for audio.
//!
//! The engine moves fixed-size blocks of decoded samples between a slow
//! producer (a codec backend reading from disk) and a consumer that must
//! never wait for it (typically an audio callback). Decoded blocks are
//! prefetched into a bounded look-ahead queue, recently consumed blocks are
//! retained in a bounded cache so that a backward seek inside that window
//! needs no codec-level seek, and all consumer-facing operations complete
//! without ever invoking the codec.

use vstd::prelude::*;

pub mod block;
pub mod decoder;
pub mod delta;
pub mod encoder;
pub mod laws;
pub mod memory;
pub mod read;
pub mod sample;
pub mod write;

pub use block::DataBlock;
pub use decoder::{Decoder, SeekMode};
pub use encoder::Encoder;
pub use read::{ReadDiskStream, ReadStreamOptions};
pub use write::{WriteBlock, WriteDiskStream, WriteStatus, WriteStreamOptions};

verus! {

/// Info about the file/files, created once when a stream is opened.
#[derive(Clone)]
pub struct FileInfo<FileParams> {
    /// The total number of frames in the file/files.
    pub num_frames: usize,
    /// The number of channels in the file/files.
    pub num_channels: u16,
    /// The sample rate of the file/files (if it exists).
    pub sample_rate: Option<u32>,
    /// Additional info provided by the encoder/decoder.
    pub params: FileParams,
}

} // verus!
