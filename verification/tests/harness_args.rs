use meetily_engine::harness::{
    carry_tail, initial_prompt, parse_args, text_mode, ArgError, HarnessArgs, TextMode,
};

fn parse(args: &[&str]) -> Result<HarnessArgs, ArgError> {
    let argv: Vec<String> = std::iter::once("asr-harness")
        .chain(args.iter().copied())
        .map(|s| s.to_string())
        .collect();
    let ok: Vec<bool> = argv.iter().map(|a| a.parse::<f32>().is_ok()).collect();
    parse_args(&argv, &ok)
}

#[test]
fn defaults_apply_when_only_required_options_are_given() {
    let a = parse(&["--model", "m.bin", "--wav", "x.wav"]).ok().unwrap();
    assert_eq!(a.model, "m.bin");
    assert_eq!(a.wav, "x.wav");
    assert_eq!(a.mode, "fixed");
    assert_eq!(a.language, "ko");
    assert!(a.vocab.is_none());
    assert!(!a.carry);
    assert!(a.chunk_secs.is_none());
    assert!(a.max_secs.is_none());
}

#[test]
fn every_option_is_read_and_later_ones_override() {
    let a = parse(&[
        "--wav", "a.wav", "--model", "m1", "--mode", "legacy", "--vocab", "v.txt", "--carry",
        "--chunk-secs", "12.5", "--max-secs", "120", "--language", "en", "--model", "m2",
    ])
    .ok()
    .unwrap();
    assert_eq!(a.model, "m2");
    assert_eq!(a.mode, "legacy");
    assert_eq!(a.vocab.as_deref(), Some("v.txt"));
    assert!(a.carry);
    assert_eq!(a.chunk_secs.as_deref(), Some("12.5"));
    assert_eq!(a.max_secs.as_deref(), Some("120"));
    assert_eq!(a.language, "en");
}

#[test]
fn unknown_argument_is_refused() {
    match parse(&["--model", "m", "--bogus", "--wav", "w"]) {
        Err(ArgError::UnknownArg(a)) => assert_eq!(a, "--bogus"),
        _ => panic!("expected an unknown argument"),
    }
}

#[test]
fn bad_number_is_refused_before_later_problems() {
    match parse(&["--chunk-secs", "abc", "--bogus"]) {
        Err(ArgError::BadNumber(t)) => assert_eq!(t, "abc"),
        _ => panic!("expected a bad number"),
    }
}

#[test]
fn option_without_value_is_refused() {
    match parse(&["--model", "m", "--wav"]) {
        Err(ArgError::MissingValue(f)) => assert_eq!(f, "--wav"),
        _ => panic!("expected a missing value"),
    }
}

#[test]
fn model_and_wav_are_required() {
    assert!(matches!(parse(&[]), Err(ArgError::MissingRequired)));
    assert!(matches!(parse(&["--model", "m"]), Err(ArgError::MissingRequired)));
    assert!(matches!(parse(&["--model", "", "--wav", "w"]), Err(ArgError::MissingRequired)));
}

#[test]
fn text_modes_by_name() {
    assert!(matches!(text_mode("legacy"), Some(TextMode::Legacy)));
    assert!(matches!(text_mode("fixed"), Some(TextMode::Fixed)));
    assert!(text_mode("Fixed").is_none());
}

#[test]
fn initial_prompt_puts_vocabulary_then_carried_tail() {
    let tail = "previous words".to_string();
    assert_eq!(
        initial_prompt(&Some("Kubernetes, Verus".to_string()), true, &tail).as_deref(),
        Some("Kubernetes, Verus\nprevious words")
    );
    assert_eq!(initial_prompt(&None, true, &tail).as_deref(), Some("previous words"));
    assert_eq!(initial_prompt(&Some("vocab".to_string()), false, &tail).as_deref(), Some("vocab"));
    assert_eq!(initial_prompt(&Some("vocab".to_string()), true, &String::new()).as_deref(), Some("vocab"));
    assert!(initial_prompt(&None, false, &tail).is_none());
    assert!(initial_prompt(&Some(String::new()), true, &String::new()).is_none());
}

#[test]
fn carried_tail_is_last_200_characters() {
    let text: String = "가".repeat(150) + &"b".repeat(150);
    let t = carry_tail(&text);
    assert_eq!(t.chars().count(), 200);
    assert_eq!(t, "가".repeat(50) + &"b".repeat(150));
    assert_eq!(carry_tail(&"short".to_string()), "short");
}
