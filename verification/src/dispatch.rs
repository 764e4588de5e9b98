//! Routes a resolved command to its handler.
//!
//! The dispatcher is a two-state machine: the shell is running until the
//! terminating handler fires, and every other handler leaves it running.
//! A matched command whose canonical name has no handler registered in the
//! grammar is a configuration error — proved impossible for commands that
//! came out of the matcher (`lemma_matched_always_dispatches`).

use vstd::prelude::*;

use crate::errors::ShellError;
use crate::grammar::{claims, grammar_wf, CommandSpecView, Grammar, HandlerKind};
use crate::matcher::{bytes_eq, MatchedCommand, SpecMatch, spec_match};
use crate::tokenizer::views_of;

verus! {

/// Whether the shell keeps running after a command, or terminates.
pub enum ShellOutcome {
    Running,
    Terminated,
}

/// The side effect the host must perform for a handled command: echo the
/// argument list (the placeholder behavior of the data commands), or print
/// the farewell on termination.
pub enum Effect {
    Echo(Vec<Vec<u8>>),
    Farewell,
}

/// What dispatching produced: the continuation signal and the effect.
pub struct Dispatch {
    pub outcome: ShellOutcome,
    pub effect: Effect,
}

/// The mathematical outcome of dispatching `canonical` with `args` under
/// grammar `g`: keep running and echo the arguments, stop, or report that
/// no handler is registered for the name.
pub enum SpecDispatch {
    Run(Seq<Seq<u8>>),
    Stop,
    NoHandler(Seq<u8>),
}

pub open spec fn spec_dispatch(
    g: Seq<CommandSpecView>,
    canonical: Seq<u8>,
    args: Seq<Seq<u8>>,
) -> SpecDispatch {
    if exists|i: int| 0 <= i < g.len() && #[trigger] g[i].name == canonical {
        let i = choose|i: int| 0 <= i < g.len() && #[trigger] g[i].name == canonical;
        match g[i].handler {
            HandlerKind::EchoArgs => SpecDispatch::Run(args),
            HandlerKind::Quit => SpecDispatch::Stop,
        }
    } else {
        SpecDispatch::NoHandler(canonical)
    }
}

/// Runs the handler registered for the matched command, exactly as
/// `spec_dispatch` states; fails only when no command of the grammar bears
/// the canonical name.
pub fn handle_command(g: &Grammar, m: MatchedCommand) -> (r: Result<Dispatch, ShellError>)
    requires
        grammar_wf(g@),
    ensures
        match r {
            Ok(d) => match d.effect {
                Effect::Echo(a) => d.outcome is Running && a@ == m.args@ && spec_dispatch(
                    g@,
                    m.canonical@,
                    views_of(m.args@),
                ) == SpecDispatch::Run(views_of(a@)),
                Effect::Farewell => d.outcome is Terminated && spec_dispatch(
                    g@,
                    m.canonical@,
                    views_of(m.args@),
                ) is Stop,
            },
            Err(e) => match e {
                ShellError::HandlerConfiguration(w) => w@ == m.canonical@ && spec_dispatch(
                    g@,
                    m.canonical@,
                    views_of(m.args@),
                ) == SpecDispatch::NoHandler(m.canonical@),
                _ => false,
            },
        },
{
    let mut i: usize = 0;
    while i < g.commands.len()
        invariant
            0 <= i <= g.commands@.len(),
            g@.len() == g.commands@.len(),
            grammar_wf(g@),
            forall|k: int| 0 <= k < i ==> #[trigger] g@[k].name != m.canonical@,
        decreases g.commands@.len() - i,
    {
        if bytes_eq(&g.commands[i].name, &m.canonical) {
            proof {
                assert(g@[i as int].name == m.canonical@);
                let c = choose|k: int|
                    0 <= k < g@.len() && #[trigger] g@[k].name == m.canonical@;
                assert(g@[c].name == m.canonical@);
                assert(claims(g@[c], m.canonical@));
                assert(claims(g@[i as int], m.canonical@));
                assert(c == i);
            }
            match g.commands[i].handler {
                HandlerKind::EchoArgs => {
                    return Ok(
                        Dispatch { outcome: ShellOutcome::Running, effect: Effect::Echo(m.args) },
                    );
                },
                HandlerKind::Quit => {
                    return Ok(
                        Dispatch { outcome: ShellOutcome::Terminated, effect: Effect::Farewell },
                    );
                },
            }
        }
        i = i + 1;
    }
    Err(ShellError::HandlerConfiguration(m.canonical))
}

/// The grammar and the dispatcher cannot drift apart: a command that the
/// matcher resolved against a well-formed grammar always has a handler
/// registered, so dispatching it never reports a configuration error.
pub proof fn lemma_matched_always_dispatches(
    g: Seq<CommandSpecView>,
    toks: Seq<Seq<u8>>,
    canonical: Seq<u8>,
    args: Seq<Seq<u8>>,
)
    requires
        grammar_wf(g),
        spec_match(g, toks) == (SpecMatch::Matched { canonical, args }),
    ensures
        !(spec_dispatch(g, canonical, args) is NoHandler),
{
    let i = choose|i: int| 0 <= i < g.len() && claims(#[trigger] g[i], toks[0]);
    assert(g[i].name == canonical);
    assert(exists|k: int| 0 <= k < g.len() && #[trigger] g[k].name == canonical);
}

} // verus!
