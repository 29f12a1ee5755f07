use minimp3::cursor::{Cursor, WINDOW_CAP};
use minimp3::decoder::{DecodeOutcome, DecodeStep, DecoderState, FrameInfo, Sample, MAX_SAMPLES_PER_FRAME};

fn outcome(samples: u32, frame_bytes: usize, channels: u32) -> DecodeOutcome {
    DecodeOutcome {
        samples,
        info: FrameInfo { frame_bytes, bitrate_kbps: 128, channels, layer: 3, hz: 44100 },
    }
}

fn no_frame() -> DecodeOutcome {
    outcome(0, 0, 0)
}

#[test]
fn cursor_advance_within_and_past_remaining() {
    let mut c = Cursor::new(10);
    assert!(c.advance(4));
    assert_eq!(c.position(), 4);
    assert_eq!(c.remaining(), 6);
    assert!(!c.advance(7));
    assert_eq!(c.position(), 4);
    assert_eq!(c.remaining(), 6);
    assert!(c.advance(6));
    assert_eq!(c.remaining(), 0);
}

#[test]
fn window_len_is_capped() {
    assert_eq!(Cursor::new(5).window_len(), 5);
    assert_eq!(Cursor::new(WINDOW_CAP).window_len(), WINDOW_CAP);
    assert_eq!(Cursor::new(WINDOW_CAP + 1).window_len(), WINDOW_CAP);
    assert_eq!(WINDOW_CAP, i32::MAX as usize);
}

#[test]
fn empty_buffer_reads_nothing() {
    let data: [u8; 0] = [];
    let pcm = [0 as Sample; MAX_SAMPLES_PER_FRAME];
    let mut d = DecoderState::new(&data);
    assert!(!d.can_read());
    assert!(d.window().is_empty());
    assert!(matches!(d.decode_step(outcome(1152, 417, 2), &pcm), DecodeStep::End));
    assert!(d.peek_step(outcome(1152, 417, 2)).is_none());
    assert!(!d.needs_peek());
    d.skip_frame();
    assert_eq!(d.position(), 0);
}

#[test]
fn two_concatenated_frames_then_end() {
    let l1: usize = 417;
    let l2: usize = 418;
    let data: Vec<u8> = (0..(l1 + l2)).map(|i| (i % 251) as u8).collect();
    let pcm: Vec<Sample> = (0..MAX_SAMPLES_PER_FRAME).map(|i| i as Sample).collect();
    let mut d = DecoderState::new(&data);

    assert_eq!(d.window().len(), l1 + l2);
    match d.decode_step(outcome(1152, l1, 2), &pcm) {
        DecodeStep::Decoded(f) => {
            assert_eq!(f.source.len(), l1);
            assert_eq!(f.source, &data[..l1]);
            assert_eq!(f.sample_count, 1152);
            assert_eq!(f.samples.len(), 2304);
            assert_eq!(f.channels, 2);
            assert_eq!(f.bitrate, 128);
            assert_eq!(f.mpeg_layer, 3);
            assert_eq!(f.sample_rate, 44100);
            assert_eq!(f.samples_to_vec(), pcm);
        }
        _ => panic!("first frame expected"),
    }
    assert_eq!(d.window(), &data[l1..]);
    match d.decode_step(outcome(1152, l2, 1), &pcm) {
        DecodeStep::Decoded(f) => {
            assert_eq!(f.source.len(), l2);
            assert_eq!(f.source, &data[l1..]);
            assert_eq!(f.samples.len(), 1152);
        }
        _ => panic!("second frame expected"),
    }
    assert!(matches!(d.decode_step(no_frame(), &pcm), DecodeStep::End));
    assert_eq!(d.position(), l1 + l2);
}

#[test]
fn garbage_only_is_skipped_then_ends() {
    let data = [0u8; 100];
    let pcm = [0 as Sample; MAX_SAMPLES_PER_FRAME];
    let mut d = DecoderState::new(&data);
    assert!(matches!(d.decode_step(outcome(0, 60, 0), &pcm), DecodeStep::Skipped));
    assert_eq!(d.position(), 60);
    assert!(matches!(d.decode_step(outcome(0, 40, 0), &pcm), DecodeStep::Skipped));
    assert_eq!(d.position(), 100);
    assert!(!d.can_read());
    assert!(matches!(d.decode_step(no_frame(), &pcm), DecodeStep::End));
    assert_eq!(d.position(), 100);
}

#[test]
fn skipped_chunk_then_frame() {
    let data: Vec<u8> = (0..200u8).collect();
    let pcm = [7 as Sample; MAX_SAMPLES_PER_FRAME];
    let mut d = DecoderState::new(&data);
    assert!(matches!(d.decode_step(outcome(0, 10, 0), &pcm), DecodeStep::Skipped));
    match d.decode_step(outcome(576, 104, 1), &pcm) {
        DecodeStep::Decoded(f) => {
            assert_eq!(f.source, &data[10..114]);
            assert_eq!(f.samples.len(), 576);
        }
        _ => panic!("frame expected"),
    }
    assert_eq!(d.position(), 114);
}

#[test]
fn peek_then_skip_uses_cached_length() {
    let data: Vec<u8> = (0..50u8).collect();
    let mut d = DecoderState::new(&data);
    assert!(d.needs_peek());
    let f = d.peek_step(outcome(1152, 30, 2)).unwrap();
    assert_eq!(f.source, &data[..30]);
    assert!(f.samples.is_empty());
    assert_eq!(f.sample_count, 1152);
    assert_eq!(d.position(), 0);
    assert!(!d.needs_peek());
    d.skip_frame();
    assert_eq!(d.position(), 30);
    assert!(d.needs_peek());
    d.skip_frame();
    assert_eq!(d.position(), 30);
}

#[test]
fn repeated_peeks_agree() {
    let data: Vec<u8> = (0..50u8).collect();
    let mut d = DecoderState::new(&data);
    let (a_len, a_rate, a_count) = {
        let a = d.peek_step(outcome(1152, 30, 2)).unwrap();
        (a.source.len(), a.sample_rate, a.sample_count)
    };
    let b = d.peek_step(outcome(1152, 30, 2)).unwrap();
    assert_eq!((a_len, a_rate, a_count), (b.source.len(), b.sample_rate, b.sample_count));
    assert_eq!(d.position(), 0);
}

#[test]
fn peek_without_frame_changes_nothing() {
    let data = [1u8; 8];
    let mut d = DecoderState::new(&data);
    assert!(d.peek_step(no_frame()).is_none());
    assert!(d.peek_step(outcome(0, 9, 0)).is_none());
    assert_eq!(d.position(), 0);
    assert!(d.needs_peek());
    assert!(d.can_read());
}

#[test]
fn full_decode_clears_cached_length() {
    let data: Vec<u8> = (0..100u8).collect();
    let pcm = [0 as Sample; MAX_SAMPLES_PER_FRAME];
    let mut d = DecoderState::new(&data);
    assert!(d.peek_step(outcome(1152, 40, 2)).is_some());
    assert!(matches!(d.decode_step(outcome(1152, 40, 2), &pcm), DecodeStep::Decoded(_)));
    assert_eq!(d.position(), 40);
    assert!(d.needs_peek());
    d.skip_frame();
    assert_eq!(d.position(), 40);
}

#[test]
fn overlong_frame_length_ends_stream() {
    let data = [0u8; 20];
    let pcm = [0 as Sample; MAX_SAMPLES_PER_FRAME];
    let mut d = DecoderState::new(&data);
    assert!(matches!(d.decode_step(outcome(1152, 21, 2), &pcm), DecodeStep::End));
    assert_eq!(d.position(), 0);
    assert!(!d.can_read());
    assert!(matches!(d.decode_step(outcome(1152, 10, 2), &pcm), DecodeStep::End));
    assert!(d.peek_step(outcome(1152, 10, 2)).is_none());
    assert_eq!(d.position(), 0);
}

#[test]
fn samples_past_buffer_end_stream() {
    let data = [0u8; 2000];
    let pcm = [0 as Sample; 100];
    let mut d = DecoderState::new(&data);
    assert!(matches!(d.decode_step(outcome(1152, 400, 2), &pcm), DecodeStep::End));
    assert_eq!(d.position(), 400);
    assert!(!d.can_read());
    let mut e = DecoderState::new(&data);
    assert!(matches!(e.decode_step(outcome(50, 400, 0), &pcm), DecodeStep::End));
    assert!(matches!(e.decode_step(outcome(50, 400, 2), &pcm), DecodeStep::End));
}
