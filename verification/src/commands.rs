//! Decisions behind the app's commands: which bundled files are offered, where the
//! models and clips are, how long to wait for a transcript before summarizing it, and
//! the errors reported to the user interface.
use vstd::prelude::*;
use vstd::seq_lib::{to_multiset_build, to_multiset_insert};
use vstd::string::StringExecFns;
use vstd::utf8::encode_utf8;

use crate::text::{append_str, chars_of, trim, trim_string};

verus! {

/// Directory of the bundled test clips, inside the resources.
pub const AUDIO_DIR: &'static str = "assets/audio";

/// The bundled speech-recognition model, inside the resources.
pub const WHISPER_MODEL: &'static str = "assets/models/ggml-large-v3-turbo.bin";

/// The bundled summary model, inside the resources.
pub const SUMMARY_MODEL: &'static str = "assets/models/qwen2.5-7b-instruct-q4_k_m.gguf";

/// Times the stop-and-summarize command looks at the transcript before giving up.
pub const MAX_POLLS: u32 = 20;

/// Milliseconds the stop-and-summarize command waits before each look.
pub const POLL_INTERVAL_MS: u64 = 300;

/// Stage name of errors raised while transcribing.
pub const STAGE_TRANSCRIPTION: &'static str = "transcription";

/// Stage name of errors raised while summarizing.
pub const STAGE_SUMMARY: &'static str = "summary";

/// Message shown when there is no transcript to summarize.
pub const EMPTY_TRANSCRIPT_MESSAGE: &'static str = "전사 내용이 비어 있습니다.";

/// Resource path of the bundled clip `file_name`.
pub fn audio_resource(file_name: &str) -> (p: String)
    ensures
        p@ == AUDIO_DIR@ + seq!['/'] + file_name@,
{
    let mut p = String::from_str(AUDIO_DIR);
    append_str(&mut p, "/");
    append_str(&mut p, file_name);
    proof {
        reveal_strlit("/");
    }
    assert(p@ =~= AUDIO_DIR@ + seq!['/'] + file_name@);
    p
}

/// An error to show in the user interface: the stage it happened in and what happened.
pub struct EngineError {
    pub stage: String,
    pub message: String,
}

impl EngineError {
    /// An error of the transcription stage.
    pub fn transcription(message: String) -> (e: EngineError)
        ensures
            e.stage@ == STAGE_TRANSCRIPTION@,
            e.message@ == message@,
    {
        EngineError { stage: String::from_str(STAGE_TRANSCRIPTION), message }
    }

    /// An error of the summary stage.
    pub fn summary(message: String) -> (e: EngineError)
        ensures
            e.stage@ == STAGE_SUMMARY@,
            e.message@ == message@,
    {
        EngineError { stage: String::from_str(STAGE_SUMMARY), message }
    }
}

/// What the stop-and-summarize command does after looking at the transcript.
pub enum WaitOutcome {
    /// Summarize this transcript.
    Summarize(String),
    /// Wait `POLL_INTERVAL_MS` and look again.
    KeepWaiting,
    /// Give up and report this error.
    GiveUp(EngineError),
}

/// Waiting for the transcription to commit some text before summarizing it.
pub struct TranscriptWait {
    polls: u32,
}

impl TranscriptWait {
    /// Looks taken so far.
    pub closed spec fn polls(&self) -> nat {
        self.polls as nat
    }

    /// A wait that has not looked yet.
    pub fn new() -> (w: Self)
        ensures
            w.polls() == 0,
    {
        TranscriptWait { polls: 0 }
    }

    /// Takes one look at the transcript. Text that is not blank is summarized as it
    /// is; blank text is waited on, up to `MAX_POLLS` looks in all, after which the
    /// summary stage reports that the transcript is empty.
    pub fn observe(&mut self, transcript: String) -> (o: WaitOutcome)
        requires
            old(self).polls() <= MAX_POLLS,
        ensures
            final(self).polls() <= MAX_POLLS,
            final(self).polls() == if old(self).polls() < MAX_POLLS {
                old(self).polls() + 1
            } else {
                old(self).polls()
            },
            trim(transcript@).len() > 0 ==> o == WaitOutcome::Summarize(transcript),
            trim(transcript@).len() == 0 && final(self).polls() < MAX_POLLS ==> o is KeepWaiting,
            trim(transcript@).len() == 0 && final(self).polls() == MAX_POLLS ==> {
                &&& o is GiveUp
                &&& o->GiveUp_0.stage@ == STAGE_SUMMARY@
                &&& o->GiveUp_0.message@ == EMPTY_TRANSCRIPT_MESSAGE@
            },
    {
        if self.polls < MAX_POLLS {
            self.polls = self.polls + 1;
        }
        let trimmed = trim_string(transcript.as_str());
        if !trimmed.as_str().is_empty() {
            WaitOutcome::Summarize(transcript)
        } else if self.polls < MAX_POLLS {
            WaitOutcome::KeepWaiting
        } else {
            WaitOutcome::GiveUp(EngineError::summary(String::from_str(EMPTY_TRANSCRIPT_MESSAGE)))
        }
    }
}

/// An entry of the clips directory: its file name when that is valid UTF-8, and its
/// full path (lossily converted).
pub struct DirEntry {
    pub file_name: Option<String>,
    pub path: String,
}

/// A clip offered to the user.
pub struct AudioFile {
    pub name: String,
    pub path: String,
}

/// A file name whose extension (the part after the last dot, when something comes
/// before that dot) is exactly `wav`.
pub open spec fn is_wav_name(name: Seq<char>) -> bool {
    name.len() > 4 && name.skip(name.len() - 4) == seq!['.', 'w', 'a', 'v']
}

/// A name is a clip's exactly when it is a non-empty stem, whatever characters (dots
/// included) that stem holds, followed by `.wav`.
pub proof fn law_wav_name_is_stem_and_extension(name: Seq<char>, stem: Seq<char>)
    ensures
        stem.len() > 0 ==> is_wav_name(stem + seq!['.', 'w', 'a', 'v']),
        is_wav_name(name) ==> name.len() > 4 && name == name.take(name.len() - 4) + seq![
            '.',
            'w',
            'a',
            'v',
        ],
{
    let ext = seq!['.', 'w', 'a', 'v'];
    let full = stem + ext;
    assert(full.skip(full.len() - 4) =~= ext);
    if is_wav_name(name) {
        assert(name =~= name.take(name.len() - 4) + name.skip(name.len() - 4));
    }
}

/// Every directory entry whose file name is a non-empty stem followed by `.wav` is
/// among the clips, with its name and path.
pub proof fn law_every_wav_entry_is_listed(entries: Seq<DirEntry>, k: int, stem: Seq<char>)
    requires
        0 <= k < entries.len(),
        stem.len() > 0,
        entries[k].file_name is Some,
        entries[k].file_name->0@ == stem + seq!['.', 'w', 'a', 'v'],
    ensures
        wav_entries(entries).contains((entries[k].file_name->0@, entries[k].path@)),
    decreases entries.len(),
{
    law_wav_name_is_stem_and_extension(entries[k].file_name->0@, stem);
    let last = entries.len() - 1;
    if k == last {
        let rest = wav_entries(entries.drop_last());
        assert(wav_entries(entries) == rest.push((entries[k].file_name->0@, entries[k].path@)));
        assert(wav_entries(entries)[rest.len() as int] == (entries[k].file_name->0@, entries[k].path@));
    } else {
        assert(entries.drop_last()[k] == entries[k]);
        law_every_wav_entry_is_listed(entries.drop_last(), k, stem);
        let rest = wav_entries(entries.drop_last());
        let x = (entries[k].file_name->0@, entries[k].path@);
        let j = choose|j: int| 0 <= j < rest.len() && rest[j] == x;
        match entries.last().file_name {
            Some(n) => if is_wav_name(n@) {
                assert(wav_entries(entries)[j] == x);
            } else {
            },
            None => {},
        }
    }
}

/// Byte-wise lexicographic order, the order of `str`'s `Ord`.
pub open spec fn bytes_le(a: Seq<u8>, b: Seq<u8>) -> bool
    decreases a.len(),
{
    if a.len() == 0 {
        true
    } else if b.len() == 0 {
        false
    } else if a[0] != b[0] {
        a[0] < b[0]
    } else {
        bytes_le(a.drop_first(), b.drop_first())
    }
}

/// The order in which clip names are listed: that of their UTF-8 bytes.
pub open spec fn name_le(a: Seq<char>, b: Seq<char>) -> bool {
    bytes_le(encode_utf8(a), encode_utf8(b))
}

/// A clip as plain text: its name and its path.
pub open spec fn file_view(f: AudioFile) -> (Seq<char>, Seq<char>) {
    (f.name@, f.path@)
}

/// Clips as plain text.
pub open spec fn files_view(fs: Seq<AudioFile>) -> Seq<(Seq<char>, Seq<char>)> {
    fs.map_values(|f: AudioFile| file_view(f))
}

/// The clips among the directory entries, in directory order.
pub open spec fn wav_entries(entries: Seq<DirEntry>) -> Seq<(Seq<char>, Seq<char>)>
    decreases entries.len(),
{
    if entries.len() == 0 {
        Seq::empty()
    } else {
        let rest = wav_entries(entries.drop_last());
        match entries.last().file_name {
            Some(n) => if is_wav_name(n@) {
                rest.push((n@, entries.last().path@))
            } else {
                rest
            },
            None => rest,
        }
    }
}

/// Clips listed by name, in ascending order.
pub open spec fn sorted_by_name(fs: Seq<(Seq<char>, Seq<char>)>) -> bool {
    forall|i: int, j: int| 0 <= i < j < fs.len() ==> name_le(#[trigger] fs[i].0, #[trigger] fs[j].0)
}

/// The clips called `name`, in order.
pub open spec fn named(fs: Seq<(Seq<char>, Seq<char>)>, name: Seq<char>) -> Seq<(Seq<char>, Seq<char>)>
    decreases fs.len(),
{
    if fs.len() == 0 {
        Seq::empty()
    } else if fs.last().0 == name {
        named(fs.drop_last(), name).push(fs.last())
    } else {
        named(fs.drop_last(), name)
    }
}

proof fn lemma_named_concat(a: Seq<(Seq<char>, Seq<char>)>, b: Seq<(Seq<char>, Seq<char>)>, n: Seq<char>)
    ensures
        named(a + b, n) == named(a, n) + named(b, n),
    decreases b.len(),
{
    if b.len() == 0 {
        assert(a + b =~= a);
        assert(named(a, n) + named(b, n) =~= named(a, n));
    } else {
        lemma_named_concat(a, b.drop_last(), n);
        assert((a + b).drop_last() =~= a + b.drop_last());
        assert((a + b).last() == b.last());
        if b.last().0 == n {
            assert(named(a, n) + named(b.drop_last(), n).push(b.last()) =~= (named(a, n) + named(
                b.drop_last(),
                n,
            )).push(b.last()));
        }
    }
}

proof fn lemma_named_push(s: Seq<(Seq<char>, Seq<char>)>, x: (Seq<char>, Seq<char>), n: Seq<char>)
    ensures
        named(s.push(x), n) == if x.0 == n {
            named(s, n).push(x)
        } else {
            named(s, n)
        },
{
    assert(s.push(x).drop_last() =~= s);
    assert(s.push(x).last() == x);
}

proof fn lemma_named_none(s: Seq<(Seq<char>, Seq<char>)>, n: Seq<char>)
    requires
        forall|k: int| 0 <= k < s.len() ==> (#[trigger] s[k]).0 != n,
    ensures
        named(s, n) == Seq::<(Seq<char>, Seq<char>)>::empty(),
    decreases s.len(),
{
    if s.len() > 0 {
        assert forall|k: int| 0 <= k < s.drop_last().len() implies (#[trigger] s.drop_last()[k]).0
            != n by {
            assert(s.drop_last()[k] == s[k]);
        }
        lemma_named_none(s.drop_last(), n);
    }
}

proof fn lemma_named_insert(s: Seq<(Seq<char>, Seq<char>)>, p: int, x: (Seq<char>, Seq<char>), n: Seq<char>)
    requires
        0 <= p <= s.len(),
        forall|k: int| p <= k < s.len() ==> (#[trigger] s[k]).0 != x.0,
    ensures
        named(s.insert(p, x), n) == if n == x.0 {
            named(s, n).push(x)
        } else {
            named(s, n)
        },
{
    let a = s.take(p);
    let b = s.skip(p);
    assert(s =~= a + b);
    assert(s.insert(p, x) =~= (a + seq![x]) + b);
    lemma_named_concat(a + seq![x], b, n);
    lemma_named_concat(a, seq![x], n);
    lemma_named_concat(a, b, n);
    let e = Seq::<(Seq<char>, Seq<char>)>::empty();
    assert(seq![x] =~= e.push(x));
    lemma_named_push(e, x, n);
    if n == x.0 {
        assert forall|k: int| 0 <= k < b.len() implies (#[trigger] b[k]).0 != n by {
            assert(b[k] == s[p + k]);
        }
        lemma_named_none(b, n);
        assert(named(s, n) =~= named(a, n));
        assert(named(a, n) + named(seq![x], n) =~= named(a, n).push(x));
    } else {
        assert(named(seq![x], n) =~= Seq::<(Seq<char>, Seq<char>)>::empty());
        assert(named(a, n) + Seq::<(Seq<char>, Seq<char>)>::empty() =~= named(a, n));
    }
}

proof fn lemma_bytes_le_refl(a: Seq<u8>)
    ensures
        bytes_le(a, a),
    decreases a.len(),
{
    if a.len() > 0 {
        lemma_bytes_le_refl(a.drop_first());
    }
}

proof fn lemma_bytes_le_total(a: Seq<u8>, b: Seq<u8>)
    ensures
        bytes_le(a, b) || bytes_le(b, a),
    decreases a.len(),
{
    if a.len() > 0 && b.len() > 0 && a[0] == b[0] {
        lemma_bytes_le_total(a.drop_first(), b.drop_first());
    }
}

proof fn lemma_bytes_le_trans(a: Seq<u8>, b: Seq<u8>, c: Seq<u8>)
    requires
        bytes_le(a, b),
        bytes_le(b, c),
    ensures
        bytes_le(a, c),
    decreases a.len(),
{
    if a.len() > 0 && b.len() > 0 && c.len() > 0 && a[0] == b[0] && b[0] == c[0] {
        lemma_bytes_le_trans(a.drop_first(), b.drop_first(), c.drop_first());
    }
}

/// Whether `a` comes no later than `b` in the order of `str`'s `Ord`.
pub fn name_le_exec(a: &str, b: &str) -> (r: bool)
    ensures
        r == name_le(a@, b@),
{
    let x = a.as_bytes();
    let y = b.as_bytes();
    let ghost xs = x@;
    let ghost ys = y@;
    let mut i: usize = 0;
    assert(xs.skip(0) =~= xs);
    assert(ys.skip(0) =~= ys);
    while i < x.len() && i < y.len() && x[i] == y[i]
        invariant
            xs == x@,
            ys == y@,
            i <= x@.len(),
            i <= y@.len(),
            bytes_le(xs, ys) == bytes_le(xs.skip(i as int), ys.skip(i as int)),
        decreases x.len() - i,
    {
        let ghost xi = xs.skip(i as int);
        let ghost yi = ys.skip(i as int);
        assert(xi.drop_first() =~= xs.skip(i + 1));
        assert(yi.drop_first() =~= ys.skip(i + 1));
        i += 1;
    }
    if i == x.len() {
        true
    } else if i == y.len() {
        false
    } else {
        x[i] < y[i]
    }
}

/// Whether `name` is the name of a clip (extension `wav`).
pub fn is_wav_name_exec(name: &str) -> (b: bool)
    ensures
        b == is_wav_name(name@),
{
    let cs = chars_of(name);
    let n = cs.len();
    if n <= 4 {
        return false;
    }
    let r = cs[n - 4] == '.' && cs[n - 3] == 'w' && cs[n - 2] == 'a' && cs[n - 1] == 'v';
    assert(r ==> cs@.skip(n - 4) =~= seq!['.', 'w', 'a', 'v']);
    assert(cs@.skip(n - 4) == seq!['.', 'w', 'a', 'v'] ==> {
        &&& cs@.skip(n - 4)[0] == '.'
        &&& cs@.skip(n - 4)[1] == 'w'
        &&& cs@.skip(n - 4)[2] == 'a'
        &&& cs@.skip(n - 4)[3] == 'v'
    });
    r
}

/// Inserts `f` into clips sorted by name, after those whose name is not greater.
fn insert_by_name(files: &mut Vec<AudioFile>, f: AudioFile)
    requires
        sorted_by_name(files_view(old(files)@)),
    ensures
        sorted_by_name(files_view(final(files)@)),
        files_view(final(files)@).to_multiset() == files_view(old(files)@).to_multiset().insert(
            file_view(f),
        ),
        forall|n: Seq<char>|
            named(files_view(final(files)@), n) == if n == f.name@ {
                named(files_view(old(files)@), n).push(file_view(f))
            } else {
                named(files_view(old(files)@), n)
            },
{
    let ghost fv = file_view(f);
    let mut p: usize = 0;
    while p < files.len() && name_le_exec(files[p].name.as_str(), f.name.as_str())
        invariant
            p <= files@.len(),
            files@ == old(files)@,
            forall|k: int| 0 <= k < p ==> name_le(#[trigger] files@[k].name@, f.name@),
        decreases files.len() - p,
    {
        p += 1;
    }
    let ghost before = files_view(files@);
    proof {
        assert forall|k: int| p <= k < before.len() implies name_le(fv.0, #[trigger] before[k].0) by {
            if k == p {
                lemma_bytes_le_total(encode_utf8(fv.0), encode_utf8(before[k].0));
            } else {
                assert(!name_le(before[p as int].0, fv.0));
                lemma_bytes_le_total(encode_utf8(fv.0), encode_utf8(before[p as int].0));
                assert(sorted_by_name(before));
                assert(name_le(before[p as int].0, before[k].0));
                if !name_le(fv.0, before[k].0) {
                    lemma_bytes_le_total(encode_utf8(fv.0), encode_utf8(before[k].0));
                    lemma_bytes_le_trans(
                        encode_utf8(before[p as int].0),
                        encode_utf8(before[k].0),
                        encode_utf8(fv.0),
                    );
                }
            }
        }
    }
    files.insert(p, f);
    proof {
        let after = files_view(files@);
        assert(after =~= before.insert(p as int, fv));
        to_multiset_insert(before, p as int, fv);
        assert forall|k: int| p <= k < before.len() implies (#[trigger] before[k]).0 != fv.0 by {
            if before[k].0 == fv.0 {
                lemma_bytes_le_refl(encode_utf8(fv.0));
                assert(!name_le(before[p as int].0, fv.0));
                if k > p {
                    assert(name_le(before[p as int].0, before[k].0));
                    lemma_bytes_le_trans(
                        encode_utf8(before[p as int].0),
                        encode_utf8(before[k].0),
                        encode_utf8(fv.0),
                    );
                }
            }
        }
        assert forall|n: Seq<char>| named(after, n) == if n == f.name@ {
            named(before, n).push(fv)
        } else {
            named(before, n)
        } by {
            lemma_named_insert(before, p as int, fv, n);
        }
        assert forall|i: int, j: int| 0 <= i < j < after.len() implies name_le(
            #[trigger] after[i].0,
            #[trigger] after[j].0,
        ) by {
            if j < p {
            } else if j == p {
                assert(name_le(files@[i].name@, f.name@));
            } else if i == p {
                assert(name_le(fv.0, before[j - 1].0));
            } else if i < p {
                assert(name_le(before[i].0, before[j - 1].0));
            } else {
                assert(name_le(before[i - 1].0, before[j - 1].0));
            }
        }
    }
}

/// The clips among the entries of the clips directory, listed by name in the order of
/// `str`'s `Ord`: exactly the entries whose file name has the extension `wav`, each
/// with its name and path; clips of the same name keep their directory order.
pub fn select_audio_files(entries: &Vec<DirEntry>) -> (files: Vec<AudioFile>)
    ensures
        sorted_by_name(files_view(files@)),
        files_view(files@).to_multiset() == wav_entries(entries@).to_multiset(),
        forall|n: Seq<char>| named(files_view(files@), n) == named(wav_entries(entries@), n),
{
    let mut files: Vec<AudioFile> = Vec::new();
    let mut i: usize = 0;
    assert(files_view(files@) =~= Seq::<(Seq<char>, Seq<char>)>::empty());
    while i < entries.len()
        invariant
            i <= entries@.len(),
            sorted_by_name(files_view(files@)),
            files_view(files@).to_multiset() == wav_entries(entries@.take(i as int)).to_multiset(),
            forall|n: Seq<char>|
                named(files_view(files@), n) == named(wav_entries(entries@.take(i as int)), n),
        decreases entries.len() - i,
    {
        assert(entries@.take(i + 1).drop_last() =~= entries@.take(i as int));
        let ghost prev = wav_entries(entries@.take(i as int));
        match &entries[i].file_name {
            Some(name) => {
                if is_wav_name_exec(name.as_str()) {
                    let f = AudioFile { name: name.clone(), path: entries[i].path.clone() };
                    proof {
                        to_multiset_build(prev, file_view(f));
                        assert forall|n: Seq<char>| named(prev.push(file_view(f)), n) == if n
                            == f.name@ {
                            named(prev, n).push(file_view(f))
                        } else {
                            named(prev, n)
                        } by {
                            lemma_named_push(prev, file_view(f), n);
                        }
                    }
                    insert_by_name(&mut files, f);
                }
            },
            None => {},
        }
        i += 1;
    }
    assert(entries@.take(i as int) =~= entries@);
    files
}

} // verus!
