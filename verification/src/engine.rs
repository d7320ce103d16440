//! Settings and prompt of the in-app engine (transcription and on-device summary).
use vstd::prelude::*;

use crate::prompt::{qwen_prompt, qwen_prompt_clipped, ASSISTANT_OPEN, PREFILL, SYSTEM_OPEN, SYSTEM_PROMPT, USER_OPEN};

verus! {

/// Characters of the transcript that the 8K-context summary model is given.
pub const SUMMARY_CLIP_CHARS: usize = 5000;

/// Most tokens the summary model may generate after the prompt.
pub const SUMMARY_MAX_TOKENS: u32 = 600;

/// Qwen2.5 chat prompt (non-thinking) for the in-app summary: the transcript clipped to
/// `SUMMARY_CLIP_CHARS` characters, and the Korean prefill the prompt ends with.
pub fn build_qwen_prompt(transcript: &str) -> (r: (String, String))
    ensures
        r.0@ == qwen_prompt(transcript@, SUMMARY_CLIP_CHARS as nat),
        r.0@ == SYSTEM_OPEN@ + SYSTEM_PROMPT@ + USER_OPEN@ + transcript@.take(
            if transcript@.len() <= SUMMARY_CLIP_CHARS { transcript@.len() as int } else { SUMMARY_CLIP_CHARS as int },
        ) + ASSISTANT_OPEN@ + PREFILL@,
        r.1@ == PREFILL@,
{
    qwen_prompt_clipped(transcript, SUMMARY_CLIP_CHARS)
}

} // verus!
