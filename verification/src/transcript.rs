//! Streaming transcription: the decisions taken around each whisper run.
//!
//! A recording is cut into windows (see `chunks`). For each window the caller runs
//! whisper and hands back the raw bytes of the segments it produced and the language
//! it detected; this module turns them into the window's text, keeps the accumulated
//! transcript and the current language, and says when to stop.
use vstd::prelude::*;
use vstd::utf8::{encode_utf8, encode_utf8_decode_utf8, encode_utf8_valid_utf8};

use crate::chunks::{chunk_count, chunk_end, chunk_range, chunk_start, chunk_total};
use crate::text::{
    append_char, append_str, append_spaced, decode_lossy, is_empty_text, is_trimmed,
    join_spaced, lemma_join_spaced_trimmed, lemma_trim_is_trimmed, trim, trim_string, utf8_lossy,
};

verus! {

/// The bytes of the segments that yielded any, in order.
pub open spec fn present_bytes(segments: Seq<Option<Vec<u8>>>) -> Seq<u8>
    decreases segments.len(),
{
    if segments.len() == 0 {
        Seq::empty()
    } else {
        present_bytes(segments.drop_last()) + match segments.last() {
            Some(b) => b@,
            None => Seq::empty(),
        }
    }
}

/// The text of a window: the bytes of all its segments decoded together, then trimmed.
pub open spec fn window_text(segments: Seq<Option<Vec<u8>>>) -> Seq<char> {
    trim(utf8_lossy(present_bytes(segments)))
}

/// Per-segment texts, each trimmed, the non-empty ones joined by single spaces.
pub open spec fn segment_join(segments: Seq<Option<String>>) -> Seq<char>
    decreases segments.len(),
{
    if segments.len() == 0 {
        Seq::empty()
    } else {
        append_spaced(
            segment_join(segments.drop_last()),
            match segments.last() {
                Some(t) => trim(t@),
                None => Seq::empty(),
            },
        )
    }
}

/// The text of a window from the raw bytes of its segments (`None` for a segment whose
/// bytes could not be had): all bytes are decoded as UTF-8 at once, so a character whose
/// bytes straddle two segments comes out whole, and the result is trimmed.
pub fn window_text_of(segments: &Vec<Option<Vec<u8>>>) -> (t: String)
    ensures
        t@ == window_text(segments@),
        forall|text: Seq<char>| present_bytes(segments@) == encode_utf8(text) ==> t@ == trim(text),
{
    let mut bytes: Vec<u8> = Vec::new();
    let mut i: usize = 0;
    while i < segments.len()
        invariant
            i <= segments@.len(),
            bytes@ == present_bytes(segments@.take(i as int)),
        decreases segments.len() - i,
    {
        assert(segments@.take(i + 1).drop_last() =~= segments@.take(i as int));
        match &segments[i] {
            Some(seg) => {
                let ghost before = bytes@;
                let mut k: usize = 0;
                while k < seg.len()
                    invariant
                        k <= seg@.len(),
                        bytes@ == before + seg@.take(k as int),
                    decreases seg.len() - k,
                {
                    bytes.push(seg[k]);
                    k += 1;
                    assert(bytes@ =~= before + seg@.take(k as int));
                }
                assert(seg@.take(k as int) =~= seg@);
            },
            None => {
                assert(bytes@ =~= bytes@ + Seq::<u8>::empty());
            },
        }
        i += 1;
    }
    assert(segments@.take(i as int) =~= segments@);
    let decoded = decode_lossy(bytes.as_slice());
    proof {
        broadcast use encode_utf8_valid_utf8, encode_utf8_decode_utf8;

    }
    trim_string(decoded.as_str())
}

/// `acc` extended by `piece` with one space between when both are non-empty.
pub fn push_spaced(acc: &mut String, piece: &String)
    ensures
        final(acc)@ == append_spaced(old(acc)@, piece@),
{
    if !is_empty_text(piece) {
        if !is_empty_text(acc) {
            append_char(acc, ' ');
        }
        append_str(acc, piece.as_str());
        assert(old(acc)@.len() > 0 ==> final(acc)@ =~= old(acc)@ + seq![' '] + piece@);
        assert(old(acc)@.len() == 0 ==> final(acc)@ =~= piece@);
    }
}

/// Per-segment texts (`None` for a segment whose text could not be had), each trimmed,
/// the non-empty ones joined by single spaces.
pub fn segment_join_of(segments: &Vec<Option<String>>) -> (t: String)
    ensures
        t@ == segment_join(segments@),
{
    let mut out = String::new();
    let mut i: usize = 0;
    while i < segments.len()
        invariant
            i <= segments@.len(),
            out@ == segment_join(segments@.take(i as int)),
        decreases segments.len() - i,
    {
        assert(segments@.take(i + 1).drop_last() =~= segments@.take(i as int));
        match &segments[i] {
            Some(seg) => {
                let cleaned = trim_string(seg.as_str());
                push_spaced(&mut out, &cleaned);
            },
            None => {},
        }
        i += 1;
    }
    assert(segments@.take(i as int) =~= segments@);
    out
}

/// What the caller does next.
pub enum Step {
    /// Run whisper on samples `[start, end)`, window number `index`.
    Transcribe { index: usize, start: usize, end: usize },
    /// Nothing more to transcribe: the transcript is complete or was stopped.
    Finished,
}

/// What one window adds, as shown to the user.
pub struct TranscriptUpdate {
    pub chunk_index: usize,
    pub chunk_text: String,
    pub full_text: String,
    /// Windows done so far; with `total_chunks` this is the progress fraction.
    pub chunks_done: usize,
    pub total_chunks: usize,
    pub detected_language: String,
}

/// The state of a streaming transcription.
pub struct Transcription {
    n_samples: usize,
    chunk_len: usize,
    total: usize,
    done: usize,
    stopped: bool,
    full_text: String,
    language: String,
    texts: Ghost<Seq<Seq<char>>>,
}

/// The language reported before whisper has detected one.
pub open spec fn initial_language() -> Seq<char> {
    seq!['a', 'u', 't', 'o']
}

impl Transcription {
    /// Samples in the recording.
    pub closed spec fn samples(&self) -> nat {
        self.n_samples as nat
    }

    /// Samples per window.
    pub closed spec fn window(&self) -> nat {
        self.chunk_len as nat
    }

    /// Windows in the recording.
    pub closed spec fn total(&self) -> nat {
        self.total as nat
    }

    /// Windows transcribed so far.
    pub closed spec fn done(&self) -> nat {
        self.done as nat
    }

    /// Whether a stop request has been seen.
    pub closed spec fn stopped(&self) -> bool {
        self.stopped
    }

    /// The transcript accumulated so far.
    pub closed spec fn text(&self) -> Seq<char> {
        self.full_text@
    }

    /// The last language whisper detected, `"auto"` before any.
    pub closed spec fn language(&self) -> Seq<char> {
        self.language@
    }

    /// The texts of the windows transcribed so far, in order.
    pub closed spec fn window_texts(&self) -> Seq<Seq<char>> {
        self.texts@
    }

    /// Internal consistency of the state.
    pub closed spec fn wf(&self) -> bool {
        &&& self.chunk_len > 0
        &&& self.total as nat == chunk_total(self.n_samples as nat, self.chunk_len as nat)
        &&& self.done <= self.total
        &&& self.texts@.len() == self.done
        &&& self.full_text@ == join_spaced(self.texts@)
        &&& forall|i: int| 0 <= i < self.texts@.len() ==> is_trimmed(#[trigger] self.texts@[i])
    }

    /// A transcription of `n_samples` samples in windows of `chunk_len` samples.
    pub fn new(n_samples: usize, chunk_len: usize) -> (t: Self)
        requires
            chunk_len > 0,
        ensures
            t.wf(),
            t.samples() == n_samples,
            t.window() == chunk_len,
            t.total() == chunk_total(n_samples as nat, chunk_len as nat),
            t.done() == 0,
            !t.stopped(),
            t.text() == Seq::<char>::empty(),
            t.language() == initial_language(),
            t.window_texts() == Seq::<Seq<char>>::empty(),
    {
        let total = chunk_count(n_samples, chunk_len);
        let mut language = String::new();
        append_char(&mut language, 'a');
        append_char(&mut language, 'u');
        append_char(&mut language, 't');
        append_char(&mut language, 'o');
        assert(language@ =~= initial_language());
        Transcription {
            n_samples,
            chunk_len,
            total,
            done: 0,
            stopped: false,
            full_text: String::new(),
            language,
            texts: Ghost(Seq::empty()),
        }
    }

    /// The next thing to do, given whether a stop has been requested. A stop request
    /// ends the transcription for good; otherwise the next window is transcribed until
    /// there is none left.
    pub fn next_step(&mut self, stop_requested: bool) -> (s: Step)
        requires
            old(self).wf(),
        ensures
            final(self).wf(),
            final(self).stopped() == (old(self).stopped() || stop_requested),
            final(self).samples() == old(self).samples(),
            final(self).window() == old(self).window(),
            final(self).total() == old(self).total(),
            final(self).done() == old(self).done(),
            final(self).text() == old(self).text(),
            final(self).language() == old(self).language(),
            final(self).window_texts() == old(self).window_texts(),
            final(self).stopped() || old(self).done() == old(self).total() ==> s is Finished,
            !final(self).stopped() && old(self).done() < old(self).total() ==> s == (Step::Transcribe {
                index: old(self).done() as usize,
                start: chunk_start(old(self).window(), old(self).done()) as usize,
                end: chunk_end(old(self).samples(), old(self).window(), old(self).done()) as usize,
            }),
    {
        if stop_requested {
            self.stopped = true;
        }
        if self.stopped || self.done >= self.total {
            Step::Finished
        } else {
            let (start, end) = chunk_range(self.n_samples, self.chunk_len, self.done);
            Step::Transcribe { index: self.done, start, end }
        }
    }

    /// Takes in what whisper produced for the current window: the raw bytes of its
    /// segments and the language it detected, if any. Returns the update to show, or
    /// `None` (changing nothing) when no window is pending.
    pub fn absorb_window(
        &mut self,
        segments: &Vec<Option<Vec<u8>>>,
        detected: Option<String>,
    ) -> (u: Option<TranscriptUpdate>)
        requires
            old(self).wf(),
        ensures
            final(self).wf(),
            final(self).samples() == old(self).samples(),
            final(self).window() == old(self).window(),
            final(self).total() == old(self).total(),
            final(self).stopped() == old(self).stopped(),
            old(self).stopped() || old(self).done() == old(self).total() ==> {
                &&& u is None
                &&& *final(self) == *old(self)
            },
            !old(self).stopped() && old(self).done() < old(self).total() ==> {
                &&& final(self).done() == old(self).done() + 1
                &&& final(self).window_texts() == old(self).window_texts().push(window_text(segments@))
                &&& final(self).text() == append_spaced(old(self).text(), window_text(segments@))
                &&& final(self).language() == match detected {
                    Some(l) => l@,
                    None => old(self).language(),
                }
                &&& u is Some
                &&& u->0.chunk_index == old(self).done()
                &&& u->0.chunk_text@ == window_text(segments@)
                &&& u->0.full_text@ == final(self).text()
                &&& u->0.chunks_done == final(self).done()
                &&& u->0.total_chunks == old(self).total()
                &&& u->0.detected_language@ == final(self).language()
            },
    {
        if self.stopped || self.done >= self.total {
            return None;
        }
        if let Some(lang) = detected {
            self.language = lang;
        }
        let chunk_text = window_text_of(segments);
        proof {
            lemma_trim_is_trimmed(utf8_lossy(present_bytes(segments@)));
        }
        push_spaced(&mut self.full_text, &chunk_text);
        let ghost old_texts = self.texts@;
        self.texts = Ghost(self.texts@.push(chunk_text@));
        assert(self.texts@.drop_last() =~= old_texts);
        let index = self.done;
        self.done = self.done + 1;
        Some(
            TranscriptUpdate {
                chunk_index: index,
                chunk_text,
                full_text: self.full_text.clone(),
                chunks_done: self.done,
                total_chunks: self.total,
                detected_language: self.language.clone(),
            },
        )
    }

    /// The transcript accumulated so far.
    pub fn full_text(&self) -> (t: String)
        ensures
            t@ == self.text(),
    {
        self.full_text.clone()
    }

    /// The last language whisper detected, `"auto"` before any.
    pub fn detected_language(&self) -> (l: String)
        ensures
            l@ == self.language(),
    {
        self.language.clone()
    }

    /// Windows in the recording.
    pub fn total_windows(&self) -> (n: usize)
        ensures
            n == self.total(),
    {
        self.total
    }
}

/// The accumulated transcript is exactly the texts of the windows transcribed so far,
/// in order, the empty ones left out and the others separated by single spaces; and it
/// neither starts nor ends with whitespace.
pub proof fn law_transcript_is_spaced_join(t: &Transcription)
    requires
        t.wf(),
    ensures
        t.text() == join_spaced(t.window_texts()),
        is_trimmed(t.text()),
        t.window_texts().len() == t.done(),
        t.done() <= t.total(),
{
    lemma_join_spaced_trimmed(t.texts@);
}

} // verus!
