//! The chat prompt that asks Qwen2.5 for Korean meeting minutes.
use vstd::prelude::*;
use vstd::string::StringExecFns;

use crate::text::{append_str, clip, clip_chars};

verus! {

/// System instruction: Korean-only minutes in four sections, nothing invented,
/// numbers and proper nouns kept.
pub const SYSTEM_PROMPT: &'static str = "당신은 한국어 전문 회의 비서입니다. 반드시 한국어(한글)로만 회의록을 작성하세요. 중국어(汉语)나 영어로 작성하면 안 됩니다. 아래 회의 전사록을 바탕으로 다음 형식의 회의록을 작성하세요: 1) 회의 개요  2) 핵심 논의 사항  3) 결정 사항  4) 후속 조치. 전사록에 없는 내용을 지어내지 말고 숫자·고유명사는 보존하세요.";

/// The start of the assistant turn, already in Korean, so that the model continues in Korean.
pub const PREFILL: &'static str = "# 회의록\n\n## 1. 회의 개요\n";

/// Chat-template text before the system instruction.
pub const SYSTEM_OPEN: &'static str = "<|im_start|>system\n";

/// Chat-template text between the system instruction and the transcript.
pub const USER_OPEN: &'static str = "<|im_end|>\n<|im_start|>user\n다음은 회의 전사록입니다:\n\n";

/// Chat-template text between the transcript and the prefill.
pub const ASSISTANT_OPEN: &'static str = "<|im_end|>\n<|im_start|>assistant\n";

/// The full prompt for a transcript, of which at most `limit` characters are kept.
pub open spec fn qwen_prompt(transcript: Seq<char>, limit: nat) -> Seq<char> {
    SYSTEM_OPEN@ + SYSTEM_PROMPT@ + USER_OPEN@ + clip(transcript, limit) + ASSISTANT_OPEN@
        + PREFILL@
}

/// The prompt for `transcript` clipped to `limit` characters, and the prefill that
/// the prompt ends with (the caller shows it as the start of the answer).
pub fn qwen_prompt_clipped(transcript: &str, limit: usize) -> (r: (String, String))
    ensures
        r.0@ == qwen_prompt(transcript@, limit as nat),
        r.0@ == SYSTEM_OPEN@ + SYSTEM_PROMPT@ + USER_OPEN@ + transcript@.take(
            if transcript@.len() <= limit { transcript@.len() as int } else { limit as int },
        ) + ASSISTANT_OPEN@ + PREFILL@,
        r.1@ == PREFILL@,
{
    let clipped = clip_chars(transcript, limit);
    let mut prompt = String::from_str(SYSTEM_OPEN);
    append_str(&mut prompt, SYSTEM_PROMPT);
    append_str(&mut prompt, USER_OPEN);
    append_str(&mut prompt, clipped.as_str());
    append_str(&mut prompt, ASSISTANT_OPEN);
    append_str(&mut prompt, PREFILL);
    proof {
        law_prompt_keeps_transcript_start(transcript@, limit as nat);
    }
    (prompt, String::from_str(PREFILL))
}

/// The prompt is the chat template around the first `limit` characters of the
/// transcript (all of it when it is shorter): the transcript's start is always kept and
/// whatever is cut is cut from its end.
pub proof fn law_prompt_keeps_transcript_start(transcript: Seq<char>, limit: nat)
    ensures
        qwen_prompt(transcript, limit) == SYSTEM_OPEN@ + SYSTEM_PROMPT@ + USER_OPEN@
            + transcript.take(
            if transcript.len() <= limit { transcript.len() as int } else { limit as int },
        ) + ASSISTANT_OPEN@ + PREFILL@,
        ({
            let head = (SYSTEM_OPEN@ + SYSTEM_PROMPT@ + USER_OPEN@).len() as int;
            let m = if transcript.len() <= limit { transcript.len() as int } else { limit as int };
            qwen_prompt(transcript, limit).subrange(head, head + m) == transcript.subrange(0, m)
        }),
{
    if transcript.len() <= limit {
        assert(transcript.take(transcript.len() as int) =~= transcript);
    }
    let head_seq = SYSTEM_OPEN@ + SYSTEM_PROMPT@ + USER_OPEN@;
    let m = if transcript.len() <= limit { transcript.len() as int } else { limit as int };
    let p = qwen_prompt(transcript, limit);
    assert(p =~= head_seq + transcript.take(m) + ASSISTANT_OPEN@ + PREFILL@);
    assert(p.subrange(head_seq.len() as int, head_seq.len() + m) =~= transcript.subrange(0, m));
}

/// The prompt ends with the prefill that is returned beside it, and the transcript in
/// it is a prefix of the transcript given, whole when it is no longer than the limit
/// and of exactly `limit` characters otherwise.
pub proof fn law_prompt_shape(transcript: Seq<char>, limit: nat)
    ensures
        qwen_prompt(transcript, limit).len() >= PREFILL@.len(),
        qwen_prompt(transcript, limit).skip(qwen_prompt(transcript, limit).len() - PREFILL@.len())
            == PREFILL@,
        clip(transcript, limit).len() <= limit,
        clip(transcript, limit) == transcript.take(clip(transcript, limit).len() as int),
        transcript.len() <= limit ==> clip(transcript, limit) == transcript,
        transcript.len() > limit ==> clip(transcript, limit).len() == limit,
{
    let p = qwen_prompt(transcript, limit);
    let front = SYSTEM_OPEN@ + SYSTEM_PROMPT@ + USER_OPEN@ + clip(transcript, limit)
        + ASSISTANT_OPEN@;
    assert(p == front + PREFILL@);
    assert(p.skip(p.len() - PREFILL@.len()) =~= PREFILL@);
    if transcript.len() <= limit {
        assert(transcript.take(transcript.len() as int) =~= transcript);
    }
}

} // verus!
