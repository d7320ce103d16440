//! Token-by-token generation of the summary.
//!
//! After the prompt has been decoded, the caller samples one token at a time and
//! reports whether it ends the generation and the text it stands for; this module keeps
//! the output, decides where the token goes in the sequence and when to stop.
use vstd::prelude::*;

use crate::text::{append_str, trim, trim_string};

verus! {

/// All the pieces, in order, one after the other.
pub open spec fn concat_pieces(pieces: Seq<Seq<char>>) -> Seq<char>
    decreases pieces.len(),
{
    if pieces.len() == 0 {
        Seq::empty()
    } else {
        concat_pieces(pieces.drop_last()) + pieces.last()
    }
}

/// What the caller does with a sampled token.
pub enum TokenAction {
    /// Put the token in the batch at this position and decode it.
    Feed { position: i32 },
    /// Generation is over.
    Stop,
}

/// The state of a generation.
pub struct Generation {
    out: String,
    prefill: Ghost<Seq<char>>,
    pieces: Ghost<Seq<Seq<char>>>,
    start: i32,
    next_pos: i32,
    produced: u32,
    max_new: u32,
    ended: bool,
}

impl Generation {
    /// The text the output started from.
    pub closed spec fn prefill(&self) -> Seq<char> {
        self.prefill@
    }

    /// The text of each token fed so far (empty for one that had no text).
    pub closed spec fn pieces(&self) -> Seq<Seq<char>> {
        self.pieces@
    }

    /// The output so far.
    pub closed spec fn text(&self) -> Seq<char> {
        self.out@
    }

    /// Tokens in the decoded prompt: the position of the first generated token.
    pub closed spec fn start(&self) -> int {
        self.start as int
    }

    /// Tokens generated and fed so far.
    pub closed spec fn produced(&self) -> nat {
        self.produced as nat
    }

    /// Most tokens that may be generated.
    pub closed spec fn max_new(&self) -> nat {
        self.max_new as nat
    }

    /// Whether an end-of-generation token has been seen.
    pub closed spec fn ended(&self) -> bool {
        self.ended
    }

    /// Whether another token is to be sampled.
    pub open spec fn wants_more(&self) -> bool {
        !self.ended() && self.produced() < self.max_new()
    }

    /// Internal consistency of the state.
    pub closed spec fn wf(&self) -> bool {
        &&& 0 <= self.start
        &&& self.start as int + self.max_new as int <= i32::MAX
        &&& self.produced <= self.max_new
        &&& self.next_pos as int == self.start as int + self.produced as int
        &&& self.pieces@.len() == self.produced
        &&& self.out@ == self.prefill@ + concat_pieces(self.pieces@)
    }

    /// A generation that starts from `prefill`, after a prompt of `prompt_tokens` tokens,
    /// and may add up to `max_new` tokens.
    pub fn new(prefill: String, prompt_tokens: i32, max_new: u32) -> (g: Self)
        requires
            0 <= prompt_tokens,
            prompt_tokens + max_new <= i32::MAX,
        ensures
            g.wf(),
            g.prefill() == prefill@,
            g.text() == prefill@,
            g.pieces() == Seq::<Seq<char>>::empty(),
            g.start() == prompt_tokens,
            g.produced() == 0,
            g.max_new() == max_new,
            !g.ended(),
    {
        let ghost p = prefill@;
        Generation {
            out: prefill,
            prefill: Ghost(p),
            pieces: Ghost(Seq::empty()),
            start: prompt_tokens,
            next_pos: prompt_tokens,
            produced: 0,
            max_new,
            ended: false,
        }
    }

    /// Whether another token is to be sampled: none has ended the generation and fewer
    /// than the maximum have been fed.
    pub fn wants_token(&self) -> (b: bool)
        requires
            self.wf(),
        ensures
            b == self.wants_more(),
    {
        !self.ended && self.produced < self.max_new
    }

    /// Takes a sampled token: whether it ends the generation, and its text if it has
    /// one. An ending token stops the generation; any other has its text appended to the
    /// output and is fed at the next position. Nothing changes once no token is wanted.
    pub fn take_token(&mut self, is_end: bool, piece: Option<String>) -> (a: TokenAction)
        requires
            old(self).wf(),
        ensures
            final(self).wf(),
            final(self).prefill() == old(self).prefill(),
            final(self).start() == old(self).start(),
            final(self).max_new() == old(self).max_new(),
            !old(self).wants_more() ==> a is Stop && *final(self) == *old(self),
            !old(self).ended() && old(self).produced() < old(self).max_new() && !is_end ==> a
                == (TokenAction::Feed { position: (old(self).start() + old(self).produced()) as i32 }),
            !old(self).ended() && old(self).produced() < old(self).max_new() && !is_end ==> (
            final(self).wants_more() <==> old(self).produced() + 1 < old(self).max_new()),
            old(self).wants_more() && is_end ==> {
                &&& a is Stop
                &&& final(self).ended()
                &&& final(self).text() == old(self).text()
                &&& final(self).pieces() == old(self).pieces()
                &&& final(self).produced() == old(self).produced()
            },
            old(self).wants_more() && !is_end ==> {
                &&& a == (TokenAction::Feed { position: (old(self).start() + old(self).produced()) as i32 })
                &&& !final(self).ended()
                &&& final(self).produced() == old(self).produced() + 1
                &&& final(self).pieces() == old(self).pieces().push(
                    match piece {
                        Some(p) => p@,
                        None => Seq::<char>::empty(),
                    },
                )
                &&& final(self).text() == old(self).text() + match piece {
                    Some(p) => p@,
                    None => Seq::<char>::empty(),
                }
            },
    {
        if self.ended || self.produced >= self.max_new {
            return TokenAction::Stop;
        }
        if is_end {
            self.ended = true;
            return TokenAction::Stop;
        }
        let ghost old_pieces = self.pieces@;
        let ghost old_out = self.out@;
        let ghost text: Seq<char> = match &piece {
            Some(p) => p@,
            None => Seq::<char>::empty(),
        };
        match &piece {
            Some(p) => append_str(&mut self.out, p.as_str()),
            None => {},
        }
        assert(self.out@ =~= old_out + text);
        self.pieces = Ghost(old_pieces.push(text));
        assert(self.pieces@.drop_last() =~= old_pieces);
        assert(self.out@ =~= self.prefill@ + concat_pieces(self.pieces@));
        let position = self.next_pos;
        self.next_pos = self.next_pos + 1;
        self.produced = self.produced + 1;
        TokenAction::Feed { position }
    }

    /// The output as it stands: the prefill followed by the text of every token fed.
    pub fn output(&self) -> (s: String)
        requires
            self.wf(),
        ensures
            s@ == self.text(),
            s@ == self.prefill() + concat_pieces(self.pieces()),
    {
        self.out.clone()
    }

    /// The output with leading and trailing whitespace removed.
    pub fn trimmed_output(&self) -> (s: String)
        requires
            self.wf(),
        ensures
            s@ == trim(self.text()),
    {
        trim_string(self.out.as_str())
    }
}

/// Whatever is sampled, a generation never feeds more tokens than its maximum, keeps
/// the text of every token it fed, in order, and its output always begins with the
/// prefill it started from.
pub proof fn law_generation_bounds(g: &Generation)
    requires
        g.wf(),
    ensures
        g.produced() <= g.max_new(),
        g.pieces().len() == g.produced(),
        g.text() == g.prefill() + concat_pieces(g.pieces()),
        g.text().take(g.prefill().len() as int) == g.prefill(),
{
    assert((g.prefill() + concat_pieces(g.pieces())).take(g.prefill().len() as int)
        =~= g.prefill());
}

/// Whether another token is wanted depends on nothing but whether an end token has
/// been seen and how many tokens have been fed: whatever text the generation holds, it
/// goes on until an end token or the token limit.
pub proof fn law_generation_stops_only_at_end_or_limit(g: &Generation)
    requires
        g.wf(),
    ensures
        g.wants_more() <==> (!g.ended() && g.produced() < g.max_new()),
{
}

} // verus!
