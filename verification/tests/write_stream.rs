use creek::decoder::SeekMode;
use creek::memory::{MemoryDecoder, MemoryEncoder, MemoryFault};
use creek::read::{ReadDiskStream, ReadStreamOptions};
use creek::write::{
    BackpressureMode, WriteDiskStream, WriteOpenError, WriteStatus, WriteStreamOptions,
};
use creek::FileInfo;

fn chunk(start: i32, frames: usize) -> Vec<Vec<i32>> {
    let mut left: Vec<i32> = Vec::new();
    let mut right: Vec<i32> = Vec::new();
    for i in 0..frames {
        left.push(start + i as i32);
        right.push(-(start + i as i32));
    }
    vec![left, right]
}

fn options(num_queue_blocks: usize, backpressure: BackpressureMode) -> WriteStreamOptions {
    WriteStreamOptions { block_frames: 8, num_queue_blocks, backpressure, poll_interval_ms: 1 }
}

#[test]
fn round_trip_through_the_same_backend() {
    // write a known sequence of blocks ...
    let encoder = MemoryEncoder::<i32>::new(2);
    let mut writer =
        WriteDiskStream::new(encoder, 2, options(4, BackpressureMode::SurfaceError)).unwrap();
    assert_eq!(writer.write(&chunk(100, 4)), WriteStatus::Accepted);
    assert_eq!(writer.write(&chunk(200, 4)), WriteStatus::Accepted);
    assert_eq!(writer.write(&chunk(300, 3)), WriteStatus::Accepted);
    assert_eq!(writer.finalize(), WriteStatus::Accepted);
    let persisted = writer.into_encoder().into_frames();
    assert_eq!(persisted.len(), 2);
    assert_eq!(persisted[0], vec![100, 101, 102, 103, 200, 201, 202, 203, 300, 301, 302]);
    assert_eq!(persisted[1], vec![-100, -101, -102, -103, -200, -201, -202, -203, -300, -301, -302]);
    // ... and read it back through a backend over the persisted frames
    let expected = persisted.clone();
    let decoder = MemoryDecoder::new(persisted, 0, 4, 3);
    let info = FileInfo { num_frames: 11, num_channels: 2, sample_rate: None, params: () };
    let read_options = ReadStreamOptions {
        block_frames: 4,
        num_cache_blocks: 1,
        num_look_ahead_blocks: 3,
        poll_interval_ms: 1,
    };
    let mut reader = ReadDiskStream::new(decoder, info, 0, read_options).unwrap();
    reader.poll();
    let mut got: Vec<Vec<i32>> = vec![Vec::new(), Vec::new()];
    loop {
        let data = match reader.read(4) {
            Some(d) => d,
            None => {
                reader.poll();
                continue;
            }
        };
        for c in 0..2 {
            for i in 0..4 {
                if data.start_frame + i < 11 {
                    got[c].push(data.channels[c][i]);
                }
            }
        }
        if data.end_of_file {
            break;
        }
    }
    assert_eq!(got, expected);
}

#[test]
fn surface_error_backpressure_loses_nothing() {
    let encoder = MemoryEncoder::<i32>::new(2);
    let mut writer =
        WriteDiskStream::new(encoder, 2, options(2, BackpressureMode::SurfaceError)).unwrap();
    assert_eq!(writer.write(&chunk(1, 2)), WriteStatus::Accepted);
    assert_eq!(writer.write(&chunk(10, 2)), WriteStatus::Accepted);
    assert_eq!(writer.num_queued(), 2);
    assert_eq!(writer.status(), WriteStatus::Backpressure);
    // the queue is full: the block is refused, nothing is dropped
    assert_eq!(writer.write(&chunk(20, 2)), WriteStatus::Backpressure);
    writer.poll();
    assert_eq!(writer.num_queued(), 0);
    assert_eq!(writer.status(), WriteStatus::Accepted);
    assert_eq!(writer.write(&chunk(20, 2)), WriteStatus::Accepted);
    assert_eq!(writer.finalize(), WriteStatus::Accepted);
    let persisted = writer.into_encoder().into_frames();
    assert_eq!(persisted[0], vec![1, 2, 10, 11, 20, 21]);
}

#[test]
fn drop_oldest_backpressure_drops_the_oldest_block() {
    let encoder = MemoryEncoder::<i32>::new(2);
    let mut writer =
        WriteDiskStream::new(encoder, 2, options(2, BackpressureMode::DropOldest)).unwrap();
    assert_eq!(writer.write(&chunk(1, 2)), WriteStatus::Accepted);
    assert_eq!(writer.write(&chunk(10, 2)), WriteStatus::Accepted);
    assert_eq!(writer.write(&chunk(20, 2)), WriteStatus::Accepted);
    assert_eq!(writer.num_queued(), 2);
    assert_eq!(writer.finalize(), WriteStatus::Accepted);
    let persisted = writer.into_encoder().into_frames();
    assert_eq!(persisted[0], vec![10, 11, 20, 21]);
    assert_eq!(persisted[1], vec![-10, -11, -20, -21]);
}

#[test]
fn finalize_drains_and_closes_exactly_once() {
    let encoder = MemoryEncoder::<i32>::new(1);
    let mut writer = WriteDiskStream::new(
        encoder,
        1,
        WriteStreamOptions {
            block_frames: 8,
            num_queue_blocks: 4,
            backpressure: BackpressureMode::SurfaceError,
            poll_interval_ms: 1,
        },
    )
    .unwrap();
    assert_eq!(writer.write(&vec![vec![5, 6]]), WriteStatus::Accepted);
    assert_eq!(writer.write(&vec![vec![7]]), WriteStatus::Accepted);
    assert!(!writer.is_finalized());
    assert_eq!(writer.finalize(), WriteStatus::Accepted);
    assert!(writer.is_finalized());
    // closed: later writes and finalizes are refused
    assert_eq!(writer.write(&vec![vec![9]]), WriteStatus::FatalError);
    assert_eq!(writer.finalize(), WriteStatus::FatalError);
    let persisted = writer.into_encoder().into_frames();
    assert_eq!(persisted[0], vec![5, 6, 7]);
}

#[test]
fn encoder_fault_ends_the_stream() {
    let mut encoder = MemoryEncoder::<i32>::new(1);
    encoder.fail_encodes = true;
    let mut writer =
        WriteDiskStream::new(encoder, 1, options(4, BackpressureMode::SurfaceError)).unwrap();
    // queueing itself succeeds: the client never touches the encoder
    assert_eq!(writer.write(&vec![vec![1]]), WriteStatus::Accepted);
    assert!(writer.fatal_error().is_none());
    writer.poll();
    // the encoder's own fault value is handed back unchanged
    assert_eq!(writer.fatal_error(), &Some(MemoryFault));
    assert_eq!(writer.write(&vec![vec![2]]), WriteStatus::FatalError);
    assert_eq!(writer.finalize(), WriteStatus::FatalError);
}

#[test]
fn finalize_fault_is_reported() {
    let mut encoder = MemoryEncoder::<i32>::new(1);
    encoder.fail_finalize = true;
    let mut writer =
        WriteDiskStream::new(encoder, 1, options(4, BackpressureMode::SurfaceError)).unwrap();
    assert_eq!(writer.write(&vec![vec![1]]), WriteStatus::Accepted);
    assert_eq!(writer.finalize(), WriteStatus::FatalError);
    assert!(writer.is_finalized());
}

#[test]
fn write_open_rejects_bad_options() {
    let bad = WriteDiskStream::new(
        MemoryEncoder::<i32>::new(1),
        1,
        WriteStreamOptions {
            block_frames: 0,
            num_queue_blocks: 2,
            backpressure: BackpressureMode::SurfaceError,
            poll_interval_ms: 1,
        },
    );
    assert_eq!(bad.err().unwrap(), WriteOpenError::BlockFramesZero);
    let bad = WriteDiskStream::new(
        MemoryEncoder::<i32>::new(1),
        1,
        WriteStreamOptions {
            block_frames: 8,
            num_queue_blocks: 0,
            backpressure: BackpressureMode::SurfaceError,
            poll_interval_ms: 1,
        },
    );
    assert_eq!(bad.err().unwrap(), WriteOpenError::QueueBlocksZero);
    let bad = WriteDiskStream::new(
        MemoryEncoder::<i32>::new(1),
        0,
        WriteStreamOptions {
            block_frames: 8,
            num_queue_blocks: 2,
            backpressure: BackpressureMode::SurfaceError,
            poll_interval_ms: 1,
        },
    );
    assert_eq!(bad.err().unwrap(), WriteOpenError::NumChannelsZero);
}

#[test]
fn default_write_options() {
    let options = WriteStreamOptions::default();
    assert_eq!(options.block_frames, 16384);
    assert_eq!(options.num_queue_blocks, 8);
    assert_eq!(options.backpressure, BackpressureMode::SurfaceError);
    assert_eq!(options.poll_interval_ms, 1);
}
