use creek::block::DataBlock;
use creek::decoder::SeekMode;
use creek::memory::{MemoryDecoder, MemoryFault};
use creek::read::{OpenError, ReadDiskStream, ReadStreamOptions};
use creek::FileInfo;

fn pattern(num_frames: usize) -> Vec<Vec<i32>> {
    let mut ch: Vec<i32> = Vec::with_capacity(num_frames);
    for i in 0..num_frames {
        ch.push(((i * 7919) % 100003) as i32);
    }
    vec![ch]
}

fn expected(frame: usize, num_frames: usize) -> i32 {
    if frame < num_frames {
        ((frame * 7919) % 100003) as i32
    } else {
        0
    }
}

fn mono_stream(
    num_frames: usize,
    start_frame: usize,
    seek_step: usize,
    packet_frames: usize,
    options: ReadStreamOptions,
) -> ReadDiskStream<MemoryDecoder<i32>> {
    let decoder = MemoryDecoder::new(pattern(num_frames), start_frame, seek_step, packet_frames);
    let info = FileInfo { num_frames, num_channels: 1, sample_rate: Some(44100), params: () };
    ReadDiskStream::new(decoder, info, start_frame, options).unwrap()
}

#[test]
fn scenario_long_file_first_and_last_block() {
    let num_frames: usize = 1_323_000;
    let options = ReadStreamOptions {
        block_frames: 10,
        num_cache_blocks: 2,
        num_look_ahead_blocks: 8,
        poll_interval_ms: 1,
    };
    let mut stream = mono_stream(num_frames, 0, 64, 17, options);
    assert!(!stream.is_ready());
    stream.poll();
    assert!(stream.is_ready());
    let data = stream.read(10).unwrap();
    assert_eq!(data.start_frame, 0);
    assert_eq!(data.channels.len(), 1);
    assert_eq!(data.channels[0].len(), 10);
    for i in 0..10 {
        assert_eq!(data.channels[0][i], expected(i, num_frames));
    }
    // seek near the end and read the last full span before the final frame
    let target = num_frames - 1 - 10;
    stream.seek(target, SeekMode::Accurate);
    assert!(!stream.is_ready());
    stream.poll();
    assert!(stream.is_ready());
    let data = stream.read(10).unwrap();
    assert_eq!(data.start_frame, target);
    for i in 0..10 {
        assert_eq!(data.channels[0][i], expected(target + i, num_frames));
    }
    assert_eq!(stream.playhead_frame(), num_frames - 1);
    assert!(!data.end_of_file);
}

#[test]
fn seek_lands_exactly_despite_coarse_container() {
    let num_frames: usize = 1000;
    let options = ReadStreamOptions {
        block_frames: 16,
        num_cache_blocks: 0,
        num_look_ahead_blocks: 4,
        poll_interval_ms: 1,
    };
    // the container can only land on multiples of 64 and decodes in
    // packets of 17 frames; the engine must still expose exactly the
    // requested frame first
    let mut stream = mono_stream(num_frames, 0, 64, 17, options);
    for &f in &[0usize, 1, 7, 63, 64, 65, 511, 999, 1000] {
        stream.seek(f, SeekMode::Accurate);
        stream.poll();
        let data = stream.read(1).unwrap();
        assert_eq!(data.channels[0][0], expected(f, num_frames), "seek target {}", f);
        assert_eq!(data.start_frame, f.min(num_frames));
    }
}

#[test]
fn repeated_seeks_give_identical_output() {
    let num_frames: usize = 500;
    let options = ReadStreamOptions {
        block_frames: 16,
        num_cache_blocks: 2,
        num_look_ahead_blocks: 4,
        poll_interval_ms: 1,
    };
    let mut stream = mono_stream(num_frames, 0, 32, 5, options);
    let mut first: Vec<i32> = Vec::new();
    let mut second: Vec<i32> = Vec::new();
    for pass in 0..2 {
        stream.seek(123, SeekMode::Accurate);
        stream.poll();
        let data = stream.read(16).unwrap();
        if pass == 0 {
            first = data.channels[0].clone();
        } else {
            second = data.channels[0].clone();
        }
    }
    assert_eq!(first, second);
}

#[test]
fn seek_into_cache_window_needs_no_decoder_seek() {
    let num_frames: usize = 200;
    let options = ReadStreamOptions {
        block_frames: 10,
        num_cache_blocks: 2,
        num_look_ahead_blocks: 2,
        poll_interval_ms: 1,
    };
    // a decoder that faults on any seek: the stream stays healthy as
    // long as it never asks the decoder to reposition
    let mut decoder = MemoryDecoder::new(pattern(num_frames), 0, 1, 10);
    decoder.fail_seeks = true;
    let info = FileInfo { num_frames, num_channels: 1, sample_rate: None, params: () };
    let mut stream = ReadDiskStream::new(decoder, info, 0, options).unwrap();
    stream.poll();
    assert!(stream.read(10).is_some());
    stream.poll();
    assert!(stream.read(10).is_some());
    // the two consumed blocks are retained; a backward seek inside that
    // window is served from the cache alone
    stream.seek(5, SeekMode::Accurate);
    stream.poll();
    assert!(stream.fatal_error().is_none());
    let data = stream.read(10).unwrap();
    assert_eq!(data.start_frame, 5);
    for i in 0..10 {
        assert_eq!(data.channels[0][i], expected(5 + i, num_frames));
    }
}

#[test]
fn seek_outside_cache_window_asks_the_decoder() {
    let num_frames: usize = 200;
    let options = ReadStreamOptions {
        block_frames: 10,
        num_cache_blocks: 2,
        num_look_ahead_blocks: 2,
        poll_interval_ms: 1,
    };
    let mut decoder = MemoryDecoder::new(pattern(num_frames), 0, 1, 10);
    decoder.fail_seeks = true;
    let info = FileInfo { num_frames, num_channels: 1, sample_rate: None, params: () };
    let mut stream = ReadDiskStream::new(decoder, info, 0, options).unwrap();
    stream.poll();
    assert!(stream.read(10).is_some());
    // frame 150 was never cached: serving this seek needs the decoder,
    // whose injected fault then surfaces
    stream.seek(150, SeekMode::Accurate);
    stream.poll();
    // the decoder's own fault value is handed back unchanged
    assert_eq!(stream.fatal_error(), &Some(MemoryFault));
    assert!(stream.read(10).is_none());
    assert!(!stream.is_ready());
}

#[test]
fn zero_frame_file_reports_end_of_file_on_first_read() {
    let options = ReadStreamOptions {
        block_frames: 8,
        num_cache_blocks: 0,
        num_look_ahead_blocks: 2,
        poll_interval_ms: 1,
    };
    let decoder = MemoryDecoder::new(vec![Vec::<i32>::new()], 0, 1, 1);
    let info = FileInfo { num_frames: 0, num_channels: 1, sample_rate: None, params: () };
    let mut stream = ReadDiskStream::new(decoder, info, 0, options).unwrap();
    // no poll needed: a read at the end of the file is pure silence
    let data = stream.read(4).unwrap();
    assert!(data.end_of_file);
    assert_eq!(data.channels[0], vec![0, 0, 0, 0]);
    assert_eq!(stream.playhead_frame(), 0);
}

#[test]
fn reads_past_the_end_give_silence_and_a_stable_playhead() {
    let num_frames: usize = 25;
    let options = ReadStreamOptions {
        block_frames: 10,
        num_cache_blocks: 0,
        num_look_ahead_blocks: 4,
        poll_interval_ms: 1,
    };
    let mut stream = mono_stream(num_frames, 0, 1, 3, options);
    stream.poll();
    let data = stream.read(30).unwrap();
    assert!(data.end_of_file);
    for i in 0..25 {
        assert_eq!(data.channels[0][i], expected(i, num_frames));
    }
    for i in 25..30 {
        assert_eq!(data.channels[0][i], 0);
    }
    assert_eq!(stream.playhead_frame(), 25);
    let data = stream.read(10).unwrap();
    assert!(data.end_of_file);
    assert_eq!(data.channels[0], vec![0; 10]);
    assert_eq!(stream.playhead_frame(), 25);
}

#[test]
fn client_calls_never_touch_the_decoder() {
    let num_frames: usize = 100;
    let options = ReadStreamOptions {
        block_frames: 10,
        num_cache_blocks: 0,
        num_look_ahead_blocks: 2,
        poll_interval_ms: 1,
    };
    // a decoder that faults on any decode: reads and seeks stay calm
    // because the client path never invokes it, however slow or broken
    // the backend is
    let mut decoder = MemoryDecoder::new(pattern(num_frames), 0, 1, 10);
    decoder.fail_decodes = true;
    let info = FileInfo { num_frames, num_channels: 1, sample_rate: None, params: () };
    let mut stream = ReadDiskStream::new(decoder, info, 0, options).unwrap();
    assert!(stream.read(10).is_none());
    stream.seek(50, SeekMode::Nearest);
    assert!(stream.read(10).is_none());
    assert!(stream.fatal_error().is_none());
    // only the server's poll reaches the decoder and sees the fault
    stream.poll();
    assert!(stream.fatal_error().is_some());
}

#[test]
fn open_rejects_bad_options_and_targets() {
    let info = FileInfo { num_frames: 100usize, num_channels: 1u16, sample_rate: None, params: () };
    let good = ReadStreamOptions {
        block_frames: 8,
        num_cache_blocks: 0,
        num_look_ahead_blocks: 2,
        poll_interval_ms: 1,
    };
    let make = |start: usize, opts: ReadStreamOptions, info: FileInfo<()>| {
        let decoder = MemoryDecoder::new(pattern(100), start, 1, 1);
        ReadDiskStream::new(decoder, info, start, opts)
    };
    let mut opts = good;
    opts.block_frames = 0;
    assert_eq!(make(0, opts, info.clone()).err().unwrap(), OpenError::BlockFramesZero);
    let mut opts = good;
    opts.num_look_ahead_blocks = 0;
    assert_eq!(make(0, opts, info.clone()).err().unwrap(), OpenError::LookAheadBlocksZero);
    let mut bad_info = info.clone();
    bad_info.num_channels = 0;
    assert_eq!(make(0, good, bad_info).err().unwrap(), OpenError::NumChannelsZero);
    let mut bad_info = info.clone();
    bad_info.num_frames = usize::MAX;
    assert_eq!(make(0, good, bad_info).err().unwrap(), OpenError::FileTooLong);
    assert_eq!(make(101, good, info.clone()).err().unwrap(), OpenError::StartFrameOutOfRange);
    assert!(make(0, good, info).is_ok());
}

#[test]
fn default_read_options() {
    let options = ReadStreamOptions::default();
    assert_eq!(options.block_frames, 16384);
    assert_eq!(options.num_cache_blocks, 0);
    assert_eq!(options.num_look_ahead_blocks, 8);
    assert_eq!(options.poll_interval_ms, 1);
}

#[test]
fn silent_block_shape() {
    let block: DataBlock<i16> = DataBlock::silent(2, 5);
    assert_eq!(block.channels.len(), 2);
    for ch in &block.channels {
        assert_eq!(ch, &vec![0i16; 5]);
    }
    assert_eq!(block.start_frame, 0);
    assert!(!block.end_of_file);
}

#[test]
fn info_is_returned_unchanged() {
    let num_frames: usize = 40;
    let options = ReadStreamOptions {
        block_frames: 8,
        num_cache_blocks: 1,
        num_look_ahead_blocks: 2,
        poll_interval_ms: 7,
    };
    let stream = mono_stream(num_frames, 0, 1, 1, options);
    assert_eq!(stream.info().num_frames, 40);
    assert_eq!(stream.info().num_channels, 1);
    assert_eq!(stream.info().sample_rate, Some(44100));
    assert_eq!(stream.poll_interval_ms(), 7);
}

#[test]
fn stereo_channels_stay_separate() {
    let num_frames: usize = 64;
    let mut left: Vec<u8> = Vec::new();
    let mut right: Vec<u8> = Vec::new();
    for i in 0..num_frames {
        left.push((i % 251) as u8);
        right.push((255 - i % 251) as u8);
    }
    let decoder = MemoryDecoder::new(vec![left.clone(), right.clone()], 0, 8, 3);
    let info = FileInfo { num_frames, num_channels: 2, sample_rate: Some(48000), params: () };
    let options = ReadStreamOptions {
        block_frames: 10,
        num_cache_blocks: 1,
        num_look_ahead_blocks: 3,
        poll_interval_ms: 1,
    };
    let mut stream = ReadDiskStream::new(decoder, info, 0, options).unwrap();
    stream.seek(20, SeekMode::Accurate);
    stream.poll();
    let data = stream.read(10).unwrap();
    assert_eq!(data.channels.len(), 2);
    assert_eq!(&data.channels[0][..], &left[20..30]);
    assert_eq!(&data.channels[1][..], &right[20..30]);
}
