//! Splits a raw input line into tokens under shell-style quoting rules.
//!
//! Tokens are separated by unquoted whitespace; single- and double-quote
//! delimited stretches keep their inner bytes (including spaces) and the
//! quote characters themselves are dropped. A quote left open at the end
//! of the line is an error. The tokenizer is modeled as a byte-at-a-time
//! state machine (`lex_step` / `lex_run`), and the executable `tokenize`
//! is proved to return exactly what the model says.

use vstd::prelude::*;

use crate::errors::ShellError;

verus! {

/// Quoting state while scanning a line.
pub enum Quote {
    Outside,
    Single,
    Double,
}

/// Mathematical state of the tokenizer after consuming a prefix of the line:
/// the tokens already emitted, the token being built, whether a token is
/// currently open, and the quoting state.
pub struct LexState {
    pub toks: Seq<Seq<u8>>,
    pub cur: Seq<u8>,
    pub started: bool,
    pub quote: Quote,
}

/// The bytes that separate tokens outside quotes: space, tab, LF, CR.
pub open spec fn is_space(c: u8) -> bool {
    c == 32 || c == 9 || c == 10 || c == 13
}

/// A line of nothing but whitespace.
pub open spec fn is_blank(s: Seq<u8>) -> bool {
    forall|i: int| 0 <= i < s.len() ==> is_space(#[trigger] s[i])
}

/// The per-token views of a sequence of byte vectors.
pub open spec fn views_of(ts: Seq<Vec<u8>>) -> Seq<Seq<u8>> {
    Seq::new(ts.len(), |i: int| ts[i]@)
}

pub open spec fn init_state() -> LexState {
    LexState { toks: Seq::empty(), cur: Seq::empty(), started: false, quote: Quote::Outside }
}

/// One step of the tokenizer: consume byte `c` in state `st`.
pub open spec fn lex_step(st: LexState, c: u8) -> LexState {
    match st.quote {
        Quote::Single => if c == 39 {
            LexState { toks: st.toks, cur: st.cur, started: st.started, quote: Quote::Outside }
        } else {
            LexState { toks: st.toks, cur: st.cur.push(c), started: st.started, quote: Quote::Single }
        },
        Quote::Double => if c == 34 {
            LexState { toks: st.toks, cur: st.cur, started: st.started, quote: Quote::Outside }
        } else {
            LexState { toks: st.toks, cur: st.cur.push(c), started: st.started, quote: Quote::Double }
        },
        Quote::Outside => if is_space(c) {
            if st.started {
                LexState { toks: st.toks.push(st.cur), cur: Seq::empty(), started: false, quote: Quote::Outside }
            } else {
                st
            }
        } else if c == 39 {
            LexState { toks: st.toks, cur: st.cur, started: true, quote: Quote::Single }
        } else if c == 34 {
            LexState { toks: st.toks, cur: st.cur, started: true, quote: Quote::Double }
        } else {
            LexState { toks: st.toks, cur: st.cur.push(c), started: true, quote: Quote::Outside }
        },
    }
}

/// The tokenizer state after consuming the first `n` bytes of `s`.
pub open spec fn lex_run(s: Seq<u8>, n: int) -> LexState
    decreases n,
{
    if n <= 0 {
        init_state()
    } else {
        lex_step(lex_run(s, n - 1), s[n - 1])
    }
}

/// What tokenizing a whole line yields: `None` when a quote is left open,
/// otherwise the emitted tokens, closing the last token if one is open.
pub open spec fn spec_tokens(s: Seq<u8>) -> Option<Seq<Seq<u8>>> {
    let st = lex_run(s, s.len() as int);
    if !(st.quote is Outside) {
        None
    } else if st.started {
        Some(st.toks.push(st.cur))
    } else {
        Some(st.toks)
    }
}

/// Inside a quoted stretch a token is always open.
pub open spec fn state_inv(st: LexState) -> bool {
    !(st.quote is Outside) ==> st.started
}

pub proof fn lemma_run_inv(s: Seq<u8>, n: int)
    requires
        0 <= n <= s.len(),
    ensures
        state_inv(lex_run(s, n)),
    decreases n,
{
    if n > 0 {
        lemma_run_inv(s, n - 1);
    }
}

/// A whitespace-only prefix leaves the tokenizer in its initial state.
pub proof fn lemma_blank_run(s: Seq<u8>, n: int)
    requires
        0 <= n <= s.len(),
        is_blank(s),
    ensures
        lex_run(s, n) == init_state(),
    decreases n,
{
    if n > 0 {
        lemma_blank_run(s, n - 1);
    }
}

/// A whitespace-only line tokenizes to no tokens at all.
pub proof fn lemma_blank_tokens(s: Seq<u8>)
    requires
        is_blank(s),
    ensures
        spec_tokens(s) == Some(Seq::<Seq<u8>>::empty()),
{
    lemma_blank_run(s, s.len() as int);
}

/// Once some non-space byte has been consumed, a token has been emitted
/// or one is open.
pub proof fn lemma_nonspace_started(s: Seq<u8>, n: int)
    requires
        0 <= n <= s.len(),
        exists|i: int| 0 <= i < n && !is_space(#[trigger] s[i]),
    ensures
        lex_run(s, n).toks.len() > 0 || lex_run(s, n).started,
    decreases n,
{
    let st = lex_run(s, n - 1);
    lemma_run_inv(s, n - 1);
    if exists|i: int| 0 <= i < n - 1 && !is_space(#[trigger] s[i]) {
        lemma_nonspace_started(s, n - 1);
    }
}

/// A line that is not blank and has no open quote yields at least one token.
pub proof fn lemma_nonblank_has_token(s: Seq<u8>)
    requires
        !is_blank(s),
        spec_tokens(s) is Some,
    ensures
        spec_tokens(s).unwrap().len() > 0,
{
    lemma_nonspace_started(s, s.len() as int);
}

/// Whether `c` is a token separator.
fn is_space_byte(c: u8) -> (r: bool)
    ensures
        r == is_space(c),
{
    c == 32 || c == 9 || c == 10 || c == 13
}

/// Whether the line consists only of whitespace.
pub fn line_is_blank(line: &Vec<u8>) -> (r: bool)
    ensures
        r == is_blank(line@),
{
    let mut i: usize = 0;
    while i < line.len()
        invariant
            0 <= i <= line@.len(),
            forall|k: int| 0 <= k < i ==> is_space(#[trigger] line@[k]),
        decreases line@.len() - i,
    {
        if !is_space_byte(line[i]) {
            return false;
        }
        i = i + 1;
    }
    true
}

/// Splits `line` into tokens; fails exactly when a quote is unterminated.
pub fn tokenize(line: &Vec<u8>) -> (r: Result<Vec<Vec<u8>>, ShellError>)
    ensures
        match r {
            Ok(toks) => spec_tokens(line@) == Some(views_of(toks@)),
            Err(e) => spec_tokens(line@) is None && e is InvalidQuoting,
        },
{
    let mut toks: Vec<Vec<u8>> = Vec::new();
    let mut cur: Vec<u8> = Vec::new();
    let mut started: bool = false;
    let mut quote: Quote = Quote::Outside;
    let mut i: usize = 0;
    proof {
        assert(views_of(toks@) =~= Seq::<Seq<u8>>::empty());
    }
    while i < line.len()
        invariant
            0 <= i <= line@.len(),
            lex_run(line@, i as int) == (LexState {
                toks: views_of(toks@),
                cur: cur@,
                started: started,
                quote: quote,
            }),
        decreases line@.len() - i,
    {
        let c = line[i];
        match quote {
            Quote::Single => {
                if c == 39 {
                    quote = Quote::Outside;
                } else {
                    cur.push(c);
                }
            },
            Quote::Double => {
                if c == 34 {
                    quote = Quote::Outside;
                } else {
                    cur.push(c);
                }
            },
            Quote::Outside => {
                if is_space_byte(c) {
                    if started {
                        let ghost prev_toks = views_of(toks@);
                        let ghost prev_cur = cur@;
                        toks.push(cur);
                        cur = Vec::new();
                        started = false;
                        proof {
                            assert(views_of(toks@) =~= prev_toks.push(prev_cur));
                        }
                    }
                } else if c == 39 {
                    quote = Quote::Single;
                    started = true;
                } else if c == 34 {
                    quote = Quote::Double;
                    started = true;
                } else {
                    cur.push(c);
                    started = true;
                }
            },
        }
        i = i + 1;
    }
    match quote {
        Quote::Outside => {
            if started {
                let ghost prev_toks = views_of(toks@);
                let ghost prev_cur = cur@;
                toks.push(cur);
                proof {
                    assert(views_of(toks@) =~= prev_toks.push(prev_cur));
                }
            }
            Ok(toks)
        },
        Quote::Single => Err(ShellError::InvalidQuoting),
        Quote::Double => Err(ShellError::InvalidQuoting),
    }
}

} // verus!
