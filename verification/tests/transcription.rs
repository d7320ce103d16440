use meetily_engine::chunks::{chunk_count, chunk_range, CHUNK_LEN, CHUNK_SECS, SAMPLE_RATE};
use meetily_engine::transcript::{segment_join_of, window_text_of, Step, Transcription};
use meetily_engine::wav::{is_16k_mono, wav_problem, WavProblem};

#[test]
fn window_length_is_eight_seconds_of_16k_audio() {
    assert_eq!(CHUNK_LEN, CHUNK_SECS * SAMPLE_RATE as usize);
    assert_eq!(CHUNK_LEN, 128_000);
}

#[test]
fn chunk_count_is_ceiling_division() {
    assert_eq!(chunk_count(0, CHUNK_LEN), 0);
    assert_eq!(chunk_count(1, CHUNK_LEN), 1);
    assert_eq!(chunk_count(128_000, CHUNK_LEN), 1);
    assert_eq!(chunk_count(128_001, CHUNK_LEN), 2);
    assert_eq!(chunk_count(10, 3), 4);
    assert_eq!(chunk_count(usize::MAX, 2), usize::MAX / 2 + 1);
}

#[test]
fn chunk_ranges_match_slice_chunks() {
    let samples: Vec<u32> = (0..10).collect();
    let expected: Vec<&[u32]> = samples.chunks(3).collect();
    assert_eq!(chunk_count(samples.len(), 3), expected.len());
    for (idx, chunk) in expected.iter().enumerate() {
        let (s, e) = chunk_range(samples.len(), 3, idx);
        assert_eq!(&samples[s..e], *chunk);
    }
    assert_eq!(chunk_range(300_000, CHUNK_LEN, 2), (256_000, 300_000));
}

#[test]
fn split_korean_character_recombines() {
    let bytes = "안녕 하세요".as_bytes();
    // split inside the first character's three bytes
    let segs = vec![Some(bytes[..2].to_vec()), None, Some(bytes[2..].to_vec())];
    assert_eq!(window_text_of(&segs), "안녕 하세요");
}

#[test]
fn window_text_is_trimmed_and_skips_missing_segments() {
    let segs = vec![Some(b"  Hello".to_vec()), None, Some(b" world \n".to_vec())];
    assert_eq!(window_text_of(&segs), "Hello world");
    assert_eq!(window_text_of(&vec![]), "");
    assert_eq!(window_text_of(&vec![None, Some(b"   ".to_vec())]), "");
}

#[test]
fn window_text_replaces_invalid_bytes() {
    let segs = vec![Some(vec![0x61, 0xff]), Some(vec![0x62])];
    assert_eq!(window_text_of(&segs), "a\u{fffd}b");
}

#[test]
fn legacy_join_trims_each_segment_and_skips_empty_ones() {
    let segs = vec![
        Some("  first ".to_string()),
        None,
        Some("   ".to_string()),
        Some("second".to_string()),
    ];
    assert_eq!(segment_join_of(&segs), "first second");
    assert_eq!(segment_join_of(&vec![]), "");
}

fn step_window(t: &mut Transcription, stop: bool) -> Option<(usize, usize, usize)> {
    match t.next_step(stop) {
        Step::Transcribe { index, start, end } => Some((index, start, end)),
        Step::Finished => None,
    }
}

#[test]
fn transcription_accumulates_windows_with_single_spaces() {
    let mut t = Transcription::new(300_000, CHUNK_LEN);
    assert_eq!(t.total_windows(), 3);
    assert_eq!(t.detected_language(), "auto");
    assert_eq!(step_window(&mut t, false), Some((0, 0, 128_000)));
    let u = t.absorb_window(&vec![Some(b" first part ".to_vec())], Some("ko".to_string())).unwrap();
    assert_eq!(u.chunk_index, 0);
    assert_eq!(u.chunk_text, "first part");
    assert_eq!(u.full_text, "first part");
    assert_eq!((u.chunks_done, u.total_chunks), (1, 3));
    assert_eq!(u.detected_language, "ko");

    assert_eq!(step_window(&mut t, false), Some((1, 128_000, 256_000)));
    let u = t.absorb_window(&vec![Some(b"   ".to_vec())], None).unwrap();
    assert_eq!(u.chunk_text, "");
    assert_eq!(u.full_text, "first part");
    assert_eq!(u.detected_language, "ko");

    assert_eq!(step_window(&mut t, false), Some((2, 256_000, 300_000)));
    let u = t.absorb_window(&vec![Some("끝".as_bytes().to_vec())], Some("en".to_string())).unwrap();
    assert_eq!(u.full_text, "first part 끝");
    assert_eq!((u.chunks_done, u.total_chunks), (3, 3));
    assert_eq!(u.detected_language, "en");

    assert_eq!(step_window(&mut t, false), None);
    assert!(t.absorb_window(&vec![Some(b"extra".to_vec())], None).is_none());
    assert_eq!(t.full_text(), "first part 끝");
}

#[test]
fn stop_request_ends_transcription_for_good() {
    let mut t = Transcription::new(1_000_000, CHUNK_LEN);
    assert!(step_window(&mut t, false).is_some());
    t.absorb_window(&vec![Some(b"kept".to_vec())], None);
    assert_eq!(step_window(&mut t, true), None);
    assert_eq!(step_window(&mut t, false), None);
    assert!(t.absorb_window(&vec![Some(b"ignored".to_vec())], None).is_none());
    assert_eq!(t.full_text(), "kept");
}

#[test]
fn empty_recording_has_no_windows() {
    let mut t = Transcription::new(0, CHUNK_LEN);
    assert_eq!(t.total_windows(), 0);
    assert_eq!(step_window(&mut t, false), None);
    assert_eq!(t.full_text(), "");
}

#[test]
fn only_16k_mono_is_accepted() {
    assert!(wav_problem(16_000, 1).is_none());
    assert!(is_16k_mono(16_000, 1));
    assert!(matches!(wav_problem(44_100, 1), Some(WavProblem::WrongSampleRate)));
    assert!(matches!(wav_problem(44_100, 2), Some(WavProblem::WrongSampleRate)));
    assert!(matches!(wav_problem(16_000, 2), Some(WavProblem::NotMono)));
    assert!(!is_16k_mono(16_000, 2));
}
