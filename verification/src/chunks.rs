//! How a recording is cut into the fixed-length windows that whisper is fed one at a time.
use vstd::prelude::*;

verus! {

/// Samples per second of the audio the engine accepts.
pub const SAMPLE_RATE: u32 = 16000;

/// Seconds of audio in each window of the streaming transcription.
pub const CHUNK_SECS: usize = 8;

/// Samples in each window of the streaming transcription (`CHUNK_SECS * SAMPLE_RATE`).
pub const CHUNK_LEN: usize = 128000;

/// Number of windows of `chunk_len` samples that cover `n` samples (the last may be short).
pub open spec fn chunk_total(n: nat, chunk_len: nat) -> nat
    recommends
        chunk_len > 0,
{
    ((n + chunk_len - 1) as nat / chunk_len) as nat
}

/// First sample of window `i`.
pub open spec fn chunk_start(chunk_len: nat, i: nat) -> nat {
    i * chunk_len
}

/// One past the last sample of window `i` of a recording of `n` samples.
pub open spec fn chunk_end(n: nat, chunk_len: nat, i: nat) -> nat {
    if i * chunk_len + chunk_len <= n {
        i * chunk_len + chunk_len
    } else {
        n
    }
}

proof fn lemma_ceil_div(n: nat, cl: nat)
    requires
        cl > 0,
    ensures
        chunk_total(n, cl) == n / cl + (if n % cl == 0 { 0nat } else { 1nat }),
        chunk_total(n, cl) * cl >= n,
        n > 0 ==> (chunk_total(n, cl) - 1) * cl < n,
        chunk_total(n, cl) == 0 <==> n == 0,
{
    let q = n / cl;
    let r = n % cl;
    assert(n == cl * q + r && 0 <= r < cl) by (nonlinear_arith)
        requires
            cl > 0,
            q == n / cl,
            r == n % cl,
    ;
    let t = chunk_total(n, cl);
    assert(t == q + (if r == 0 { 0nat } else { 1nat })) by (nonlinear_arith)
        requires
            cl > 0,
            n == cl * q + r,
            0 <= r < cl,
            t == ((n + cl - 1) as nat / cl) as nat,
    {
        if r == 0 {
            assert(n + cl - 1 == cl * q + (cl - 1));
        } else {
            assert(n + cl - 1 == cl * (q + 1) + (r - 1));
        }
    }
    assert(t * cl >= n) by (nonlinear_arith)
        requires
            n == cl * q + r,
            0 <= r < cl,
            t == q + (if r == 0 { 0nat } else { 1nat }),
    ;
    assert(n > 0 ==> (t - 1) * cl < n) by (nonlinear_arith)
        requires
            n == cl * q + r,
            0 <= r < cl,
            t == q + (if r == 0 { 0nat } else { 1nat }),
    ;
    assert(t == 0 <==> n == 0) by (nonlinear_arith)
        requires
            n == cl * q + r,
            0 <= r < cl,
            cl > 0,
            q >= 0,
            t == q + (if r == 0 { 0nat } else { 1nat }),
    ;
}

/// Number of windows of `chunk_len` samples needed to cover `n_samples` samples.
pub fn chunk_count(n_samples: usize, chunk_len: usize) -> (c: usize)
    requires
        chunk_len > 0,
    ensures
        c == chunk_total(n_samples as nat, chunk_len as nat),
{
    proof {
        lemma_ceil_div(n_samples as nat, chunk_len as nat);
    }
    let q = n_samples / chunk_len;
    if n_samples % chunk_len == 0 {
        q
    } else {
        assert(q < n_samples) by (nonlinear_arith)
            requires
                q == n_samples / chunk_len,
                n_samples % chunk_len != 0,
                chunk_len > 0,
        ;
        q + 1
    }
}

/// The sample range `[start, end)` of window `index`.
pub fn chunk_range(n_samples: usize, chunk_len: usize, index: usize) -> (r: (usize, usize))
    requires
        chunk_len > 0,
        index < chunk_total(n_samples as nat, chunk_len as nat),
    ensures
        r.0 == chunk_start(chunk_len as nat, index as nat),
        r.1 == chunk_end(n_samples as nat, chunk_len as nat, index as nat),
        r.0 < r.1 <= n_samples,
        r.1 - r.0 <= chunk_len,
{
    proof {
        lemma_ceil_div(n_samples as nat, chunk_len as nat);
        let t = chunk_total(n_samples as nat, chunk_len as nat);
        assert(index * chunk_len <= (t - 1) * chunk_len) by (nonlinear_arith)
            requires
                index <= t - 1,
                chunk_len > 0,
        ;
        assert(index * chunk_len < n_samples);
    }
    let start = index * chunk_len;
    if n_samples - start >= chunk_len {
        (start, start + chunk_len)
    } else {
        (start, n_samples)
    }
}

/// The windows tile the recording: the first starts at sample 0, each one starts where
/// the one before it ends, each holds between 1 and `chunk_len` samples, and the last
/// ends at the last sample.
pub proof fn law_chunks_tile_recording(n: nat, chunk_len: nat)
    requires
        chunk_len > 0,
    ensures
        chunk_total(n, chunk_len) > 0 ==> chunk_start(chunk_len, 0) == 0,
        forall|i: nat|
            i + 1 < chunk_total(n, chunk_len) ==> #[trigger] chunk_end(n, chunk_len, i)
                == chunk_start(chunk_len, i + 1),
        forall|i: nat|
            i < chunk_total(n, chunk_len) ==> chunk_start(chunk_len, i) < #[trigger] chunk_end(
                n,
                chunk_len,
                i,
            ) <= chunk_start(chunk_len, i) + chunk_len,
        chunk_total(n, chunk_len) > 0 ==> chunk_end(n, chunk_len, (chunk_total(n, chunk_len) - 1) as nat)
            == n,
        chunk_total(n, chunk_len) == 0 <==> n == 0,
{
    lemma_ceil_div(n, chunk_len);
    let t = chunk_total(n, chunk_len);
    assert forall|i: nat| i + 1 < t implies #[trigger] chunk_end(n, chunk_len, i) == chunk_start(
        chunk_len,
        i + 1,
    ) by {
        assert(i * chunk_len + chunk_len == (i + 1) * chunk_len) by (nonlinear_arith);
        assert((i + 1) * chunk_len <= (t - 1) * chunk_len) by (nonlinear_arith)
            requires
                i + 1 <= t - 1,
        ;
    }
    assert forall|i: nat| i < t implies chunk_start(chunk_len, i) < #[trigger] chunk_end(
        n,
        chunk_len,
        i,
    ) <= chunk_start(chunk_len, i) + chunk_len by {
        assert(i * chunk_len <= (t - 1) * chunk_len) by (nonlinear_arith)
            requires
                i <= t - 1,
        ;
        assert(i * chunk_len < n);
    }
    if t > 0 {
        assert((t - 1) * chunk_len + chunk_len == t * chunk_len) by (nonlinear_arith);
        if (t - 1) * chunk_len + chunk_len <= n {
            assert(t * chunk_len == n);
        }
    }
}

} // verus!
