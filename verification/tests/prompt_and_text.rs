use meetily_engine::engine;
use meetily_engine::prompt::PREFILL;
use meetily_engine::spike;
use meetily_engine::text::{clip_chars, decode_lossy, same_text, tail_chars, trim_string};

const SYSTEM: &str = "당신은 한국어 전문 회의 비서입니다. 반드시 한국어(한글)로만 회의록을 작성하세요. \
중국어(汉语)나 영어로 작성하면 안 됩니다. 아래 회의 전사록을 바탕으로 다음 형식의 회의록을 작성하세요: \
1) 회의 개요  2) 핵심 논의 사항  3) 결정 사항  4) 후속 조치. \
전사록에 없는 내용을 지어내지 말고 숫자·고유명사는 보존하세요.";

fn expected_prompt(transcript: &str, limit: usize) -> (String, String) {
    let clipped: String = transcript.chars().take(limit).collect();
    let prefill = "# 회의록\n\n## 1. 회의 개요\n";
    let prompt = format!(
        "<|im_start|>system\n{SYSTEM}<|im_end|>\n<|im_start|>user\n다음은 회의 전사록입니다:\n\n{clipped}<|im_end|>\n<|im_start|>assistant\n{prefill}"
    );
    (prompt, prefill.to_string())
}

#[test]
fn engine_prompt_matches_chat_template() {
    let t = "오늘 회의에서는 예산 3억 원을 확정했습니다.";
    assert_eq!(engine::build_qwen_prompt(t), expected_prompt(t, 5000));
}

#[test]
fn engine_prompt_clips_to_5000_chars() {
    let t: String = "가나다라마".repeat(1500);
    let (prompt, prefill) = engine::build_qwen_prompt(&t);
    assert_eq!((prompt.clone(), prefill.clone()), expected_prompt(&t, 5000));
    let clipped: String = t.chars().take(5000).collect();
    assert!(prompt.contains(&format!("\n\n{clipped}<|im_end|>")));
    assert!(!prompt.contains(&t.chars().take(5001).collect::<String>()));
    assert!(prompt.ends_with(&prefill));
}

#[test]
fn spike_prompt_clips_to_1800_chars() {
    let t: String = "abc ".repeat(1000);
    assert_eq!(spike::build_qwen_prompt(&t), expected_prompt(&t, 1800));
    let short = "짧은 전사록";
    assert_eq!(spike::build_qwen_prompt(short), expected_prompt(short, 1800));
}

#[test]
fn prompt_returns_prefill_it_ends_with() {
    let (prompt, prefill) = engine::build_qwen_prompt("");
    assert_eq!(prefill, PREFILL);
    assert_eq!(prefill, "# 회의록\n\n## 1. 회의 개요\n");
    assert!(prompt.ends_with(&prefill));
}

#[test]
fn trim_matches_std_on_unicode_whitespace() {
    let samples = [
        "",
        "   ",
        "  hello  ",
        "\u{3000}안녕하세요\u{a0}\n",
        "\t\r\n a b \u{2028}",
        "\u{85}x\u{200b}",
        "\u{1680}\u{2000}\u{200a}\u{202f}\u{205f}mid dle\u{2029}",
        "no_space",
    ];
    for s in samples {
        assert_eq!(trim_string(s), s.trim(), "input {:?}", s);
    }
}

#[test]
fn trim_twice_is_trim_once() {
    for s in ["  a  ", "\u{3000}\u{3000}", "x", " 가 나 "] {
        let once = trim_string(s);
        assert_eq!(trim_string(&once), once);
    }
}

#[test]
fn clip_and_tail_count_characters() {
    assert_eq!(clip_chars("한국어텍스트", 3), "한국어");
    assert_eq!(clip_chars("ab", 5), "ab");
    assert_eq!(clip_chars("ab", 0), "");
    assert_eq!(tail_chars("한국어텍스트", 3), "텍스트");
    assert_eq!(tail_chars("ab", 5), "ab");
    assert_eq!(tail_chars("ab", 0), "");
}

#[test]
fn lossy_decoding_keeps_valid_text_and_replaces_invalid_bytes() {
    assert_eq!(decode_lossy("회의록".as_bytes()), "회의록");
    assert_eq!(decode_lossy(&[0x61, 0xff, 0x62]), "a\u{fffd}b");
    assert_eq!(decode_lossy(&[]), "");
}

#[test]
fn same_text_compares_characters() {
    assert!(same_text("--model", "--model"));
    assert!(!same_text("--model", "--mode"));
    assert!(!same_text("", "x"));
    assert!(same_text("", ""));
}
