use meetily_engine::commands::{
    audio_resource, name_le_exec, select_audio_files, DirEntry, EngineError, TranscriptWait,
    WaitOutcome, EMPTY_TRANSCRIPT_MESSAGE, MAX_POLLS, STAGE_SUMMARY, SUMMARY_MODEL, WHISPER_MODEL,
};
use meetily_engine::generation::{Generation, TokenAction};
use meetily_engine::spike::ios_engine_spike_ping;

#[test]
fn generation_appends_pieces_at_consecutive_positions() {
    let mut g = Generation::new("# 회의록\n".to_string(), 7, 600);
    assert!(g.wants_token());
    assert!(matches!(g.take_token(false, Some("안녕".to_string())), TokenAction::Feed { position: 7 }));
    assert!(matches!(g.take_token(false, None), TokenAction::Feed { position: 8 }));
    assert!(matches!(g.take_token(false, Some(" 끝  \n".to_string())), TokenAction::Feed { position: 9 }));
    assert_eq!(g.output(), "# 회의록\n안녕 끝  \n");
    assert!(matches!(g.take_token(true, Some("ignored".to_string())), TokenAction::Stop));
    assert!(!g.wants_token());
    assert_eq!(g.trimmed_output(), "# 회의록\n안녕 끝");
}

#[test]
fn generation_stops_at_the_token_limit() {
    let mut g = Generation::new(String::new(), 0, 3);
    let mut fed = 0;
    while g.wants_token() {
        match g.take_token(false, Some("x".to_string())) {
            TokenAction::Feed { .. } => fed += 1,
            TokenAction::Stop => break,
        }
    }
    assert_eq!(fed, 3);
    assert_eq!(g.output(), "xxx");
    assert!(matches!(g.take_token(false, Some("y".to_string())), TokenAction::Stop));
    assert_eq!(g.output(), "xxx");
}

#[test]
fn wait_summarizes_first_non_blank_transcript_untrimmed() {
    let mut w = TranscriptWait::new();
    assert!(matches!(w.observe(String::new()), WaitOutcome::KeepWaiting));
    assert!(matches!(w.observe(" \n".to_string()), WaitOutcome::KeepWaiting));
    match w.observe("  회의 내용 ".to_string()) {
        WaitOutcome::Summarize(t) => assert_eq!(t, "  회의 내용 "),
        _ => panic!("expected a summary"),
    }
}

#[test]
fn wait_gives_up_after_twenty_blank_looks() {
    let mut w = TranscriptWait::new();
    for _ in 0..MAX_POLLS - 1 {
        assert!(matches!(w.observe("  ".to_string()), WaitOutcome::KeepWaiting));
    }
    match w.observe(String::new()) {
        WaitOutcome::GiveUp(EngineError { stage, message }) => {
            assert_eq!(stage, STAGE_SUMMARY);
            assert_eq!(stage, "summary");
            assert_eq!(message, EMPTY_TRANSCRIPT_MESSAGE);
            assert_eq!(message, "전사 내용이 비어 있습니다.");
        }
        _ => panic!("expected to give up"),
    }
}

#[test]
fn engine_errors_carry_their_stage() {
    let e = EngineError::transcription("boom".to_string());
    assert_eq!((e.stage.as_str(), e.message.as_str()), ("transcription", "boom"));
    let e = EngineError::summary("bad".to_string());
    assert_eq!(e.stage, "summary");
}

fn entry(name: Option<&str>, path: &str) -> DirEntry {
    DirEntry { file_name: name.map(|s| s.to_string()), path: path.to_string() }
}

#[test]
fn audio_files_are_the_wav_entries_sorted_by_name() {
    let entries = vec![
        entry(Some("b.wav"), "/a/b.wav"),
        entry(Some("notes.txt"), "/a/notes.txt"),
        entry(Some("A.wav"), "/a/A.wav"),
        entry(Some(".wav"), "/a/.wav"),
        entry(Some("..wav"), "/a/..wav"),
        entry(Some("c.WAV"), "/a/c.WAV"),
        entry(None, "/a/\u{fffd}.wav"),
        entry(Some("가.wav"), "/a/가.wav"),
        entry(Some("a.wav"), "/a/a.wav"),
        entry(Some("wav"), "/a/wav"),
    ];
    let files = select_audio_files(&entries);
    let names: Vec<&str> = files.iter().map(|f| f.name.as_str()).collect();
    assert_eq!(names, vec!["..wav", "A.wav", "a.wav", "b.wav", "가.wav"]);
    for f in &files {
        assert_eq!(f.path, format!("/a/{}", f.name));
        assert_eq!(std::path::Path::new(&f.name).extension().and_then(|s| s.to_str()), Some("wav"));
    }
}

#[test]
fn name_order_is_str_order() {
    let names = ["a", "ab", "b", "B", "가", "", "a\u{e9}", "az"];
    for x in names {
        for y in names {
            assert_eq!(name_le_exec(x, y), x <= y, "{:?} {:?}", x, y);
        }
    }
}

#[test]
fn resource_paths() {
    assert_eq!(audio_resource("meeting.wav"), "assets/audio/meeting.wav");
    assert_eq!(WHISPER_MODEL, "assets/models/ggml-large-v3-turbo.bin");
    assert_eq!(SUMMARY_MODEL, "assets/models/qwen2.5-7b-instruct-q4_k_m.gguf");
}

#[test]
fn ping_answers_42() {
    assert_eq!(ios_engine_spike_ping(), 42);
}
