//! Settings and prompt of the host-side engine spike (prompt tuning on a desktop).
use vstd::prelude::*;

use crate::chunks::{chunk_count, chunk_total};
use crate::prompt::{qwen_prompt, qwen_prompt_clipped, ASSISTANT_OPEN, PREFILL, SYSTEM_OPEN, SYSTEM_PROMPT, USER_OPEN};

verus! {

/// Characters of the transcript that the small CPU demo model is given.
pub const SPIKE_CLIP_CHARS: usize = 1800;

/// Most tokens the spike lets the model generate after the prompt.
pub const SPIKE_MAX_TOKENS: u32 = 500;

/// Windows the spike transcribes at most.
pub const SPIKE_MAX_WINDOWS: usize = 3;

/// Qwen2.5 chat prompt for the spike: the transcript clipped to `SPIKE_CLIP_CHARS`
/// characters, and the Korean prefill the prompt ends with.
pub fn build_qwen_prompt(transcript: &str) -> (r: (String, String))
    ensures
        r.0@ == qwen_prompt(transcript@, SPIKE_CLIP_CHARS as nat),
        r.0@ == SYSTEM_OPEN@ + SYSTEM_PROMPT@ + USER_OPEN@ + transcript@.take(
            if transcript@.len() <= SPIKE_CLIP_CHARS { transcript@.len() as int } else { SPIKE_CLIP_CHARS as int },
        ) + ASSISTANT_OPEN@ + PREFILL@,
        r.1@ == PREFILL@,
{
    qwen_prompt_clipped(transcript, SPIKE_CLIP_CHARS)
}

/// Windows the spike transcribes of a recording of `n_samples` samples: the first
/// `SPIKE_MAX_WINDOWS` of them, or all when there are fewer.
pub fn spike_window_count(n_samples: usize, chunk_len: usize) -> (c: usize)
    requires
        chunk_len > 0,
    ensures
        c == if chunk_total(n_samples as nat, chunk_len as nat) <= SPIKE_MAX_WINDOWS {
            chunk_total(n_samples as nat, chunk_len as nat)
        } else {
            SPIKE_MAX_WINDOWS as nat
        },
{
    let total = chunk_count(n_samples, chunk_len);
    if total <= SPIKE_MAX_WINDOWS {
        total
    } else {
        SPIKE_MAX_WINDOWS
    }
}

/// Value the exported ping symbol answers, so that a host can confirm the library links.
pub fn ios_engine_spike_ping() -> (r: i32)
    ensures
        r == 42,
{
    42
}

} // verus!
