//! Resolves a token sequence against the grammar.
//!
//! The first token is matched, case-sensitively and exactly, against every
//! command's canonical name and aliases. On a hit the command's canonical
//! name is returned together with the captured trailing arguments: every
//! remaining token, in order, when the command takes a variadic list, and
//! nothing otherwise. Matching is total: it yields a match, an unknown
//! command (carrying the offending word), or a missing subcommand.

use vstd::prelude::*;

use crate::errors::ShellError;
use crate::grammar::{claims, grammar_wf, some_claims, CommandSpecView, Grammar, command_claims};
use crate::tokenizer::views_of;

verus! {

/// A resolved command: the canonical name of the command the first token
/// named, and the trailing arguments captured for it.
pub struct MatchedCommand {
    pub canonical: Vec<u8>,
    pub args: Vec<Vec<u8>>,
}

/// The mathematical outcome of matching tokens against a grammar.
pub enum SpecMatch {
    Matched { canonical: Seq<u8>, args: Seq<Seq<u8>> },
    NoSuchCommand { word: Seq<u8> },
    NoSubcommand,
}

/// What matching `toks` against `g` yields: the unique claiming command's
/// canonical name and captured arguments, or the structured failure.
pub open spec fn spec_match(g: Seq<CommandSpecView>, toks: Seq<Seq<u8>>) -> SpecMatch {
    if toks.len() == 0 {
        SpecMatch::NoSubcommand
    } else if some_claims(g, toks[0]) {
        let i = choose|i: int| 0 <= i < g.len() && claims(#[trigger] g[i], toks[0]);
        SpecMatch::Matched {
            canonical: g[i].name,
            args: if g[i].takes_ext {
                toks.subrange(1, toks.len() as int)
            } else {
                Seq::empty()
            },
        }
    } else {
        SpecMatch::NoSuchCommand { word: toks[0] }
    }
}

/// Byte-for-byte equality of two byte vectors.
pub fn bytes_eq(a: &Vec<u8>, b: &Vec<u8>) -> (r: bool)
    ensures
        r == (a@ == b@),
{
    if a.len() != b.len() {
        return false;
    }
    let mut i: usize = 0;
    while i < a.len()
        invariant
            0 <= i <= a@.len(),
            a@.len() == b@.len(),
            forall|k: int| 0 <= k < i ==> a@[k] == b@[k],
        decreases a@.len() - i,
    {
        if a[i] != b[i] {
            return false;
        }
        i = i + 1;
    }
    proof {
        assert(a@ =~= b@);
    }
    true
}

/// A fresh copy of a byte vector, equal to its source.
pub fn copy_bytes(v: &Vec<u8>) -> (r: Vec<u8>)
    ensures
        r@ == v@,
{
    let mut r: Vec<u8> = Vec::new();
    let mut i: usize = 0;
    while i < v.len()
        invariant
            0 <= i <= v@.len(),
            r@ == v@.subrange(0, i as int),
        decreases v@.len() - i,
    {
        r.push(v[i]);
        i = i + 1;
        proof {
            assert(r@ =~= v@.subrange(0, i as int));
        }
    }
    proof {
        assert(r@ =~= v@);
    }
    r
}

/// Resolves `tokens` against the grammar `g`, exactly as `spec_match`
/// states: the unique command claiming the first token wins; an unclaimed
/// first token is an unknown command; no token at all is a missing
/// subcommand.
pub fn match_tokens(g: &Grammar, tokens: &Vec<Vec<u8>>) -> (r: Result<MatchedCommand, ShellError>)
    requires
        grammar_wf(g@),
    ensures
        match r {
            Ok(m) => spec_match(g@, views_of(tokens@)) == (SpecMatch::Matched {
                canonical: m.canonical@,
                args: views_of(m.args@),
            }),
            Err(e) => match e {
                ShellError::UnknownCommand(w) => w@ == views_of(tokens@)[0] && spec_match(
                    g@,
                    views_of(tokens@),
                ) == (SpecMatch::NoSuchCommand { word: w@ }),
                ShellError::MissingSubcommand => spec_match(g@, views_of(tokens@))
                    is NoSubcommand,
                _ => false,
            },
        },
{
    if tokens.len() == 0 {
        return Err(ShellError::MissingSubcommand);
    }
    let first = &tokens[0];
    proof {
        assert(first@ == views_of(tokens@)[0]);
    }
    let mut i: usize = 0;
    while i < g.commands.len()
        invariant
            0 <= i <= g.commands@.len(),
            g@.len() == g.commands@.len(),
            grammar_wf(g@),
            tokens@.len() > 0,
            first@ == views_of(tokens@)[0],
            forall|k: int| 0 <= k < i ==> !claims(#[trigger] g@[k], first@),
        decreases g.commands@.len() - i,
    {
        if command_claims(&g.commands[i], first) {
            proof {
                let tv = views_of(tokens@);
                assert(claims(g@[i as int], tv[0]));
                assert(some_claims(g@, tv[0]));
                let c = choose|k: int| 0 <= k < g@.len() && claims(#[trigger] g@[k], tv[0]);
                assert(claims(g@[c], tv[0]));
                assert(c == i);
            }
            let canonical = copy_bytes(&g.commands[i].name);
            let mut args: Vec<Vec<u8>> = Vec::new();
            if g.commands[i].takes_ext {
                let mut j: usize = 1;
                proof {
                    assert(views_of(args@) =~= views_of(tokens@).subrange(1, 1));
                }
                while j < tokens.len()
                    invariant
                        1 <= j <= tokens@.len(),
                        views_of(args@) == views_of(tokens@).subrange(1, j as int),
                    decreases tokens@.len() - j,
                {
                    let ghost prev = views_of(args@);
                    args.push(copy_bytes(&tokens[j]));
                    j = j + 1;
                    proof {
                        assert(views_of(args@) =~= prev.push(tokens@[j - 1]@));
                        assert(views_of(args@) =~= views_of(tokens@).subrange(1, j as int));
                    }
                }
                proof {
                    assert(views_of(args@) == views_of(tokens@).subrange(1, views_of(tokens@).len() as int));
                }
            } else {
                proof {
                    assert(views_of(args@) =~= Seq::<Seq<u8>>::empty());
                }
            }
            return Ok(MatchedCommand { canonical, args });
        }
        i = i + 1;
    }
    proof {
        assert(!some_claims(g@, views_of(tokens@)[0]));
    }
    Err(ShellError::UnknownCommand(copy_bytes(first)))
}

/// Alias transparency: which of a command's words begins the line makes no
/// difference — two token sequences whose first tokens are both claimed by
/// the same command of a well-formed grammar, and whose remaining tokens
/// agree, match to the same canonical command and the same arguments.
pub proof fn lemma_alias_transparency(
    g: Seq<CommandSpecView>,
    t1: Seq<Seq<u8>>,
    t2: Seq<Seq<u8>>,
    i: int,
)
    requires
        grammar_wf(g),
        t1.len() > 0,
        t2.len() > 0,
        0 <= i < g.len(),
        claims(g[i], t1[0]),
        claims(g[i], t2[0]),
        t1.subrange(1, t1.len() as int) == t2.subrange(1, t2.len() as int),
    ensures
        spec_match(g, t1) == spec_match(g, t2),
        spec_match(g, t1) matches SpecMatch::Matched { canonical, args } && canonical == g[i].name,
{
    assert(some_claims(g, t1[0]));
    assert(some_claims(g, t2[0]));
    let c1 = choose|k: int| 0 <= k < g.len() && claims(#[trigger] g[k], t1[0]);
    let c2 = choose|k: int| 0 <= k < g.len() && claims(#[trigger] g[k], t2[0]);
    assert(claims(g[c1], t1[0]));
    assert(claims(g[c2], t2[0]));
    assert(c1 == i);
    assert(c2 == i);
}

} // verus!
