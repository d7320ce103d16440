//! The speech-recognition test harness: its command line, its two ways of turning
//! whisper segments into text, and the prompt it biases each window with.
use vstd::prelude::*;
use vstd::string::StringExecFns;

use crate::text::{append_char, append_str, same_text, tail, tail_chars};

verus! {

/// Characters of the previous window's text carried into the next window's prompt.
pub const CARRY_CHARS: usize = 200;

/// Text assembly used when `--mode` is not given.
pub const DEFAULT_MODE: &'static str = "fixed";

/// Language passed to whisper when `--language` is not given.
pub const DEFAULT_LANGUAGE: &'static str = "ko";

/// The harness's options. The two durations are kept as the text given on the command
/// line (already known to parse as a number); `None` means the default (25 s windows,
/// no limit on the audio).
pub struct HarnessArgs {
    pub model: String,
    pub wav: String,
    pub mode: String,
    pub vocab: Option<String>,
    pub carry: bool,
    pub chunk_secs: Option<String>,
    pub max_secs: Option<String>,
    pub language: String,
}

/// Why the command line is refused.
pub enum ArgError {
    /// An argument that is not an option.
    UnknownArg(String),
    /// An option that takes a value is the last argument.
    MissingValue(String),
    /// The value of a duration option is not a number.
    BadNumber(String),
    /// `--model` or `--wav` is missing or empty.
    MissingRequired,
}

/// The options as plain text.
pub struct ArgsModel {
    pub model: Seq<char>,
    pub wav: Seq<char>,
    pub mode: Seq<char>,
    pub vocab: Option<Seq<char>>,
    pub carry: bool,
    pub chunk_secs: Option<Seq<char>>,
    pub max_secs: Option<Seq<char>>,
    pub language: Seq<char>,
}

/// A refusal as plain text.
pub enum ArgErrorModel {
    UnknownArg(Seq<char>),
    MissingValue(Seq<char>),
    BadNumber(Seq<char>),
    MissingRequired,
}

pub open spec fn opt_view(o: Option<String>) -> Option<Seq<char>> {
    match o {
        Some(s) => Some(s@),
        None => None,
    }
}

pub open spec fn args_view(a: HarnessArgs) -> ArgsModel {
    ArgsModel {
        model: a.model@,
        wav: a.wav@,
        mode: a.mode@,
        vocab: opt_view(a.vocab),
        carry: a.carry,
        chunk_secs: opt_view(a.chunk_secs),
        max_secs: opt_view(a.max_secs),
        language: a.language@,
    }
}

pub open spec fn error_view(e: ArgError) -> ArgErrorModel {
    match e {
        ArgError::UnknownArg(s) => ArgErrorModel::UnknownArg(s@),
        ArgError::MissingValue(s) => ArgErrorModel::MissingValue(s@),
        ArgError::BadNumber(s) => ArgErrorModel::BadNumber(s@),
        ArgError::MissingRequired => ArgErrorModel::MissingRequired,
    }
}

pub open spec fn result_view(r: Result<HarnessArgs, ArgError>) -> Result<ArgsModel, ArgErrorModel> {
    match r {
        Ok(a) => Ok(args_view(a)),
        Err(e) => Err(error_view(e)),
    }
}

/// The options before any argument is read.
pub open spec fn default_args() -> ArgsModel {
    ArgsModel {
        model: Seq::empty(),
        wav: Seq::empty(),
        mode: DEFAULT_MODE@,
        vocab: None,
        carry: false,
        chunk_secs: None,
        max_secs: None,
        language: DEFAULT_LANGUAGE@,
    }
}

/// Reading the arguments from position `i` on, with the options `a` gathered so far;
/// `number_ok[k]` says whether argument `k` parses as a number. Each option that takes
/// a value reads the next argument; a later occurrence overrides an earlier one.
pub open spec fn parse_from(
    argv: Seq<Seq<char>>,
    number_ok: Seq<bool>,
    i: nat,
    a: ArgsModel,
) -> Result<ArgsModel, ArgErrorModel>
    decreases argv.len() - i,
{
    if i >= argv.len() {
        if a.model.len() == 0 || a.wav.len() == 0 {
            Err(ArgErrorModel::MissingRequired)
        } else {
            Ok(a)
        }
    } else {
        let f = argv[i as int];
        let has_value = i + 1 < argv.len();
        let v = argv[i + 1 as int];
        if f == "--carry"@ {
            parse_from(argv, number_ok, i + 1, ArgsModel { carry: true, ..a })
        } else if f != "--model"@ && f != "--wav"@ && f != "--mode"@ && f != "--vocab"@ && f
            != "--chunk-secs"@ && f != "--max-secs"@ && f != "--language"@ {
            Err(ArgErrorModel::UnknownArg(f))
        } else if !has_value {
            Err(ArgErrorModel::MissingValue(f))
        } else if f == "--model"@ {
            parse_from(argv, number_ok, i + 2, ArgsModel { model: v, ..a })
        } else if f == "--wav"@ {
            parse_from(argv, number_ok, i + 2, ArgsModel { wav: v, ..a })
        } else if f == "--mode"@ {
            parse_from(argv, number_ok, i + 2, ArgsModel { mode: v, ..a })
        } else if f == "--vocab"@ {
            parse_from(argv, number_ok, i + 2, ArgsModel { vocab: Some(v), ..a })
        } else if f == "--chunk-secs"@ {
            if !number_ok[i + 1 as int] {
                Err(ArgErrorModel::BadNumber(v))
            } else {
                parse_from(argv, number_ok, i + 2, ArgsModel { chunk_secs: Some(v), ..a })
            }
        } else if f == "--max-secs"@ {
            if !number_ok[i + 1 as int] {
                Err(ArgErrorModel::BadNumber(v))
            } else {
                parse_from(argv, number_ok, i + 2, ArgsModel { max_secs: Some(v), ..a })
            }
        } else {
            parse_from(argv, number_ok, i + 2, ArgsModel { language: v, ..a })
        }
    }
}

/// The command line `argv` (program name first) read into options.
pub open spec fn parse_spec(argv: Seq<Seq<char>>, number_ok: Seq<bool>) -> Result<ArgsModel, ArgErrorModel> {
    parse_from(argv, number_ok, 1, default_args())
}

/// No argument from position `i` on is `flag`.
pub open spec fn absent_from(argv: Seq<Seq<char>>, i: nat, flag: Seq<char>) -> bool {
    forall|k: int| i <= k < argv.len() ==> argv[k] != flag
}

/// Some argument from position `i` on is `flag`, and the argument after it is `value`.
pub open spec fn given_from(argv: Seq<Seq<char>>, i: nat, flag: Seq<char>, value: Seq<char>) -> bool {
    exists|k: int| #![trigger argv[k]] i <= k && k + 1 < argv.len() && argv[k] == flag && argv[k + 1] == value
}

proof fn lemma_untouched_fields(argv: Seq<Seq<char>>, number_ok: Seq<bool>, i: nat, a: ArgsModel)
    requires
        number_ok.len() == argv.len(),
    ensures
        parse_from(argv, number_ok, i, a) matches Ok(r) ==> {
            &&& absent_from(argv, i, "--carry"@) ==> r.carry == a.carry
            &&& absent_from(argv, i, "--vocab"@) ==> r.vocab == a.vocab
            &&& absent_from(argv, i, "--model"@) ==> r.model == a.model
            &&& absent_from(argv, i, "--wav"@) ==> r.wav == a.wav
            &&& absent_from(argv, i, "--mode"@) ==> r.mode == a.mode
            &&& absent_from(argv, i, "--chunk-secs"@) ==> r.chunk_secs == a.chunk_secs
            &&& absent_from(argv, i, "--max-secs"@) ==> r.max_secs == a.max_secs
            &&& absent_from(argv, i, "--language"@) ==> r.language == a.language
            &&& r.model == a.model || given_from(argv, i, "--model"@, r.model)
            &&& r.wav == a.wav || given_from(argv, i, "--wav"@, r.wav)
            &&& r.mode == a.mode || given_from(argv, i, "--mode"@, r.mode)
            &&& r.language == a.language || given_from(argv, i, "--language"@, r.language)
            &&& r.vocab == a.vocab || (r.vocab is Some && given_from(argv, i, "--vocab"@, r.vocab->0))
            &&& r.chunk_secs == a.chunk_secs || (r.chunk_secs is Some && given_from(
                argv,
                i,
                "--chunk-secs"@,
                r.chunk_secs->0,
            ))
            &&& r.max_secs == a.max_secs || (r.max_secs is Some && given_from(
                argv,
                i,
                "--max-secs"@,
                r.max_secs->0,
            ))
        },
    decreases argv.len() - i,
{
    if i < argv.len() {
        let f = argv[i as int];
        let v = argv[i + 1 as int];
        if f == "--carry"@ {
            lemma_untouched_fields(argv, number_ok, i + 1, ArgsModel { carry: true, ..a });
        } else if f != "--model"@ && f != "--wav"@ && f != "--mode"@ && f != "--vocab"@ && f
            != "--chunk-secs"@ && f != "--max-secs"@ && f != "--language"@ {
        } else if !(i + 1 < argv.len()) {
        } else if f == "--model"@ {
            lemma_untouched_fields(argv, number_ok, i + 2, ArgsModel { model: v, ..a });
        } else if f == "--wav"@ {
            lemma_untouched_fields(argv, number_ok, i + 2, ArgsModel { wav: v, ..a });
        } else if f == "--mode"@ {
            lemma_untouched_fields(argv, number_ok, i + 2, ArgsModel { mode: v, ..a });
        } else if f == "--vocab"@ {
            lemma_untouched_fields(argv, number_ok, i + 2, ArgsModel { vocab: Some(v), ..a });
        } else if f == "--chunk-secs"@ {
            lemma_untouched_fields(argv, number_ok, i + 2, ArgsModel { chunk_secs: Some(v), ..a });
        } else if f == "--max-secs"@ {
            lemma_untouched_fields(argv, number_ok, i + 2, ArgsModel { max_secs: Some(v), ..a });
        } else {
            lemma_untouched_fields(argv, number_ok, i + 2, ArgsModel { language: v, ..a });
        }
    }
}

/// Each option sets only its own setting: a setting whose option does not occur among
/// the arguments keeps its default in a successful parse, and a setting that differs
/// from its default is the argument right after an occurrence of its option. In
/// particular carry-over is on only when `--carry` is given.
pub proof fn law_options_change_only_their_own_field(argv: Seq<Seq<char>>, number_ok: Seq<bool>)
    requires
        number_ok.len() == argv.len(),
    ensures
        parse_spec(argv, number_ok) matches Ok(a) ==> {
            &&& a.model.len() > 0
            &&& a.wav.len() > 0
            &&& absent_from(argv, 1, "--carry"@) ==> !a.carry
            &&& absent_from(argv, 1, "--vocab"@) ==> a.vocab is None
            &&& absent_from(argv, 1, "--mode"@) ==> a.mode == "fixed"@
            &&& absent_from(argv, 1, "--chunk-secs"@) ==> a.chunk_secs is None
            &&& absent_from(argv, 1, "--max-secs"@) ==> a.max_secs is None
            &&& absent_from(argv, 1, "--language"@) ==> a.language == "ko"@
            &&& given_from(argv, 1, "--model"@, a.model)
            &&& given_from(argv, 1, "--wav"@, a.wav)
            &&& a.vocab matches Some(v) ==> given_from(argv, 1, "--vocab"@, v)
            &&& a.chunk_secs matches Some(t) ==> given_from(argv, 1, "--chunk-secs"@, t)
            &&& a.max_secs matches Some(t) ==> given_from(argv, 1, "--max-secs"@, t)
            &&& a.mode != "fixed"@ ==> given_from(argv, 1, "--mode"@, a.mode)
            &&& a.language != "ko"@ ==> given_from(argv, 1, "--language"@, a.language)
        },
{
    lemma_untouched_fields(argv, number_ok, 1, default_args());
    lemma_parse_needs_model_and_wav(argv, number_ok, 1, default_args());
}

proof fn lemma_parse_needs_model_and_wav(argv: Seq<Seq<char>>, number_ok: Seq<bool>, i: nat, a: ArgsModel)
    ensures
        parse_from(argv, number_ok, i, a) matches Ok(r) ==> r.model.len() > 0 && r.wav.len() > 0,
    decreases argv.len() - i,
{
    if i < argv.len() {
        let f = argv[i as int];
        let v = argv[i + 1 as int];
        if f == "--carry"@ {
            lemma_parse_needs_model_and_wav(argv, number_ok, i + 1, ArgsModel { carry: true, ..a });
        } else if f != "--model"@ && f != "--wav"@ && f != "--mode"@ && f != "--vocab"@ && f
            != "--chunk-secs"@ && f != "--max-secs"@ && f != "--language"@ {
        } else if !(i + 1 < argv.len()) {
        } else if f == "--model"@ {
            lemma_parse_needs_model_and_wav(argv, number_ok, i + 2, ArgsModel { model: v, ..a });
        } else if f == "--wav"@ {
            lemma_parse_needs_model_and_wav(argv, number_ok, i + 2, ArgsModel { wav: v, ..a });
        } else if f == "--mode"@ {
            lemma_parse_needs_model_and_wav(argv, number_ok, i + 2, ArgsModel { mode: v, ..a });
        } else if f == "--vocab"@ {
            lemma_parse_needs_model_and_wav(argv, number_ok, i + 2, ArgsModel { vocab: Some(v), ..a });
        } else if f == "--chunk-secs"@ {
            lemma_parse_needs_model_and_wav(argv, number_ok, i + 2, ArgsModel { chunk_secs: Some(v), ..a });
        } else if f == "--max-secs"@ {
            lemma_parse_needs_model_and_wav(argv, number_ok, i + 2, ArgsModel { max_secs: Some(v), ..a });
        } else {
            lemma_parse_needs_model_and_wav(argv, number_ok, i + 2, ArgsModel { language: v, ..a });
        }
    }
}

pub open spec fn strings_view(v: Seq<String>) -> Seq<Seq<char>> {
    v.map_values(|s: String| s@)
}

/// Reads the harness's command line (`argv[0]` is the program name). `number_ok[k]`
/// says whether `argv[k]` parses as a number.
pub fn parse_args(argv: &Vec<String>, number_ok: &Vec<bool>) -> (r: Result<HarnessArgs, ArgError>)
    requires
        number_ok@.len() == argv@.len(),
    ensures
        result_view(r) == parse_spec(strings_view(argv@), number_ok@),
        r is Ok && absent_from(strings_view(argv@), 1, "--carry"@) ==> !r->Ok_0.carry,
        r is Ok && absent_from(strings_view(argv@), 1, "--vocab"@) ==> r->Ok_0.vocab is None,
{
    let ghost av = strings_view(argv@);
    proof {
        law_options_change_only_their_own_field(av, number_ok@);
    }
    let mut model = String::new();
    let mut wav = String::new();
    let mut mode = String::from_str(DEFAULT_MODE);
    let mut vocab: Option<String> = None;
    let mut carry = false;
    let mut chunk_secs: Option<String> = None;
    let mut max_secs: Option<String> = None;
    let mut language = String::from_str(DEFAULT_LANGUAGE);
    let mut i: usize = 1;
    while i < argv.len()
        invariant
            number_ok@.len() == argv@.len(),
            av == strings_view(argv@),
            1 <= i,
            parse_spec(av, number_ok@) == parse_from(
                av,
                number_ok@,
                i as nat,
                ArgsModel {
                    model: model@,
                    wav: wav@,
                    mode: mode@,
                    vocab: opt_view(vocab),
                    carry,
                    chunk_secs: opt_view(chunk_secs),
                    max_secs: opt_view(max_secs),
                    language: language@,
                },
            ),
        decreases argv.len() - i,
    {
        let f = argv[i].as_str();
        assert(f@ == av[i as int]);
        if same_text(f, "--carry") {
            carry = true;
            i += 1;
            continue;
        }
        let known = same_text(f, "--model") || same_text(f, "--wav") || same_text(f, "--mode")
            || same_text(f, "--vocab") || same_text(f, "--chunk-secs") || same_text(
            f,
            "--max-secs",
        ) || same_text(f, "--language");
        if !known {
            return Err(ArgError::UnknownArg(String::from_str(f)));
        }
        if i + 1 >= argv.len() {
            return Err(ArgError::MissingValue(String::from_str(f)));
        }
        let v = argv[i + 1].clone();
        assert(v@ == av[i + 1]);
        if same_text(f, "--model") {
            model = v;
        } else if same_text(f, "--wav") {
            wav = v;
        } else if same_text(f, "--mode") {
            mode = v;
        } else if same_text(f, "--vocab") {
            vocab = Some(v);
        } else if same_text(f, "--chunk-secs") {
            if !number_ok[i + 1] {
                return Err(ArgError::BadNumber(v));
            }
            chunk_secs = Some(v);
        } else if same_text(f, "--max-secs") {
            if !number_ok[i + 1] {
                return Err(ArgError::BadNumber(v));
            }
            max_secs = Some(v);
        } else {
            language = v;
        }
        i += 2;
    }
    if model.as_str().is_empty() || wav.as_str().is_empty() {
        return Err(ArgError::MissingRequired);
    }
    Ok(HarnessArgs { model, wav, mode, vocab, carry, chunk_secs, max_secs, language })
}

/// How whisper's segments become a window's text.
pub enum TextMode {
    /// Each segment decoded on its own, trimmed, the non-empty ones joined by spaces.
    Legacy,
    /// The bytes of all segments decoded together, then trimmed.
    Fixed,
}

/// The text assembly named `name`, if there is one.
pub fn text_mode(name: &str) -> (m: Option<TextMode>)
    ensures
        m == if name@ == "legacy"@ {
            Some(TextMode::Legacy)
        } else if name@ == "fixed"@ {
            Some(TextMode::Fixed)
        } else {
            None::<TextMode>
        },
{
    if same_text(name, "legacy") {
        Some(TextMode::Legacy)
    } else if same_text(name, "fixed") {
        Some(TextMode::Fixed)
    } else {
        None
    }
}

/// The prompt a window is biased with: the vocabulary, then (when carrying and there is
/// something to carry) the tail of the previous window's text on a line of its own.
pub open spec fn initial_prompt_spec(
    vocab: Option<Seq<char>>,
    carry: bool,
    prev_tail: Seq<char>,
) -> Seq<char> {
    let base = match vocab {
        Some(v) => v,
        None => Seq::empty(),
    };
    if carry && prev_tail.len() > 0 {
        if base.len() > 0 {
            base + seq!['\n'] + prev_tail
        } else {
            prev_tail
        }
    } else {
        base
    }
}

/// The vocabulary always opens the prompt, and without carry-over it is the whole
/// prompt; with carry-over a non-empty tail follows it, on a line of its own when there
/// is a vocabulary.
pub proof fn law_vocabulary_leads_the_prompt(vocab: Option<Seq<char>>, carry: bool, prev_tail: Seq<char>)
    ensures
        vocab matches Some(v) ==> initial_prompt_spec(vocab, carry, prev_tail).take(v.len() as int)
            == v,
        vocab matches Some(v) ==> initial_prompt_spec(vocab, carry, prev_tail).len() >= v.len(),
        !carry ==> initial_prompt_spec(vocab, carry, prev_tail) == match vocab {
            Some(v) => v,
            None => Seq::<char>::empty(),
        },
        carry && prev_tail.len() > 0 ==> initial_prompt_spec(vocab, carry, prev_tail) == match vocab {
            Some(v) => if v.len() > 0 {
                v + seq!['\n'] + prev_tail
            } else {
                prev_tail
            },
            None => prev_tail,
        },
        carry && prev_tail.len() == 0 ==> initial_prompt_spec(vocab, carry, prev_tail) == match vocab {
            Some(v) => v,
            None => Seq::<char>::empty(),
        },
{
    match vocab {
        Some(v) => {
            let p = initial_prompt_spec(vocab, carry, prev_tail);
            if carry && prev_tail.len() > 0 && v.len() > 0 {
                assert((v + seq!['\n'] + prev_tail).take(v.len() as int) =~= v);
            } else if carry && prev_tail.len() > 0 {
                assert(prev_tail.take(0) =~= v);
            } else {
                assert(v.take(v.len() as int) =~= v);
            }
        },
        None => {},
    }
}

/// The prompt a window is biased with, or `None` when it would be empty (then no
/// prompt is set).
pub fn initial_prompt(vocab: &Option<String>, carry: bool, prev_tail: &String) -> (p: Option<String>)
    ensures
        initial_prompt_spec(opt_view(*vocab), carry, prev_tail@).len() == 0 ==> p is None,
        initial_prompt_spec(opt_view(*vocab), carry, prev_tail@).len() > 0 ==> p is Some && p->0@
            == initial_prompt_spec(opt_view(*vocab), carry, prev_tail@),
        vocab is Some && vocab->0@.len() > 0 ==> p is Some && p->0@.take(vocab->0@.len() as int)
            == vocab->0@,
        !carry && vocab is Some && vocab->0@.len() > 0 ==> p is Some && p->0@ == vocab->0@,
{
    let mut prompt = String::new();
    match vocab {
        Some(v) => append_str(&mut prompt, v.as_str()),
        None => {},
    }
    if carry && !prev_tail.as_str().is_empty() {
        if !prompt.as_str().is_empty() {
            append_char(&mut prompt, '\n');
        }
        append_str(&mut prompt, prev_tail.as_str());
    }
    assert(prompt@ =~= initial_prompt_spec(opt_view(*vocab), carry, prev_tail@));
    proof {
        law_vocabulary_leads_the_prompt(opt_view(*vocab), carry, prev_tail@);
    }
    if prompt.as_str().is_empty() {
        None
    } else {
        Some(prompt)
    }
}

/// What of a window's text is carried into the next window's prompt: its last
/// `CARRY_CHARS` characters.
pub fn carry_tail(text: &String) -> (t: String)
    ensures
        t@ == tail(text@, CARRY_CHARS as nat),
{
    tail_chars(text.as_str(), CARRY_CHARS)
}

} // verus!
