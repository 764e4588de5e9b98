//! One iteration of the read-tokenize-dispatch loop, minus the reading.
//!
//! `process_command` takes the raw line the host read and decides, as a
//! pure function of the grammar and the line, what the host must do next:
//! nothing (blank line), echo an argument list, terminate, or report an
//! error and keep going. The host loop around it only reads lines, prints
//! bytes, and stops when told to.

use vstd::prelude::*;

use crate::dispatch::{handle_command, spec_dispatch, Effect, SpecDispatch};
use crate::errors::{ErrorView, ShellError};
use crate::grammar::{grammar_wf, some_claims, CommandSpecView, Grammar};
use crate::matcher::{match_tokens, spec_match, SpecMatch};
use crate::tokenizer::{
    is_blank, lemma_blank_tokens, lemma_nonblank_has_token, line_is_blank, spec_tokens, tokenize,
    views_of,
};

verus! {

/// What the host must do after handing one line to the shell core.
#[derive(Debug, PartialEq, Eq)]
pub enum LineAction {
    /// The line was blank: do nothing, prompt again.
    Noop,
    /// Print the argument list and prompt again.
    Echo(Vec<Vec<u8>>),
    /// Print the farewell and terminate.
    Quit,
    /// Print the error message and prompt again.
    Reject(ShellError),
}

/// The mathematical value of a `LineAction`.
pub enum SpecAction {
    Noop,
    Echo(Seq<Seq<u8>>),
    Quit,
    Reject(ErrorView),
}

impl View for LineAction {
    type V = SpecAction;

    open spec fn view(&self) -> SpecAction {
        match self {
            LineAction::Noop => SpecAction::Noop,
            LineAction::Echo(a) => SpecAction::Echo(views_of(a@)),
            LineAction::Quit => SpecAction::Quit,
            LineAction::Reject(e) => SpecAction::Reject(e@),
        }
    }
}

/// What processing one raw line under grammar `g` must yield: blank lines
/// are no-ops; otherwise the line is tokenized, matched, and dispatched,
/// and any failure along the way is reported.
pub open spec fn spec_process(g: Seq<CommandSpecView>, line: Seq<u8>) -> SpecAction {
    if is_blank(line) {
        SpecAction::Noop
    } else {
        match spec_tokens(line) {
            Option::None => SpecAction::Reject(ErrorView::InvalidQuoting),
            Option::Some(toks) => match spec_match(g, toks) {
                SpecMatch::NoSubcommand => SpecAction::Reject(ErrorView::MissingSubcommand),
                SpecMatch::NoSuchCommand { word } => SpecAction::Reject(
                    ErrorView::UnknownCommand(word),
                ),
                SpecMatch::Matched { canonical, args } => match spec_dispatch(
                    g,
                    canonical,
                    args,
                ) {
                    SpecDispatch::Run(a) => SpecAction::Echo(a),
                    SpecDispatch::Stop => SpecAction::Quit,
                    SpecDispatch::NoHandler(w) => SpecAction::Reject(
                        ErrorView::HandlerConfiguration(w),
                    ),
                },
            },
        }
    }
}

/// Processes one raw input line: skip it when blank, else tokenize, match
/// and dispatch it. The result is exactly `spec_process` of the inputs —
/// the same line under the same grammar always yields the same action, and
/// nothing else flows from one invocation to the next.
pub fn process_command(g: &Grammar, line: &Vec<u8>) -> (r: LineAction)
    requires
        grammar_wf(g@),
    ensures
        r@ == spec_process(g@, line@),
        is_blank(line@) ==> r is Noop,
        spec_tokens(line@) is None ==> r == LineAction::Reject(ShellError::InvalidQuoting),
{
    if line_is_blank(line) {
        proof {
            lemma_blank_tokens(line@);
        }
        return LineAction::Noop;
    }
    match tokenize(line) {
        Result::Err(e) => LineAction::Reject(e),
        Result::Ok(toks) => match match_tokens(g, &toks) {
            Result::Err(e) => LineAction::Reject(e),
            Result::Ok(m) => {
                let ghost canonical = m.canonical@;
                let ghost args = views_of(m.args@);
                match handle_command(g, m) {
                    Result::Err(e) => LineAction::Reject(e),
                    Result::Ok(d) => match d.effect {
                        Effect::Echo(a) => LineAction::Echo(a),
                        Effect::Farewell => LineAction::Quit,
                    },
                }
            },
        },
    }
}

/// The bytes of the prompt, `"simpledb > "`.
pub open spec fn prompt_bytes() -> Seq<u8> {
    seq![115u8, 105, 109, 112, 108, 101, 100, 98, 32, 62, 32]
}

/// The bytes of the farewell, `"exiting..."`.
pub open spec fn farewell_bytes() -> Seq<u8> {
    seq![101u8, 120, 105, 116, 105, 110, 103, 46, 46, 46]
}

/// The prompt the host shows before each read.
pub fn prompt() -> (r: Vec<u8>)
    ensures
        r@ == prompt_bytes(),
{
    let mut r: Vec<u8> = Vec::new();
    r.push(115);
    r.push(105);
    r.push(109);
    r.push(112);
    r.push(108);
    r.push(101);
    r.push(100);
    r.push(98);
    r.push(32);
    r.push(62);
    r.push(32);
    proof {
        assert(r@ =~= prompt_bytes());
    }
    r
}

/// The farewell the host prints when the shell terminates.
pub fn farewell_message() -> (r: Vec<u8>)
    ensures
        r@ == farewell_bytes(),
{
    let mut r: Vec<u8> = Vec::new();
    r.push(101);
    r.push(120);
    r.push(105);
    r.push(116);
    r.push(105);
    r.push(110);
    r.push(103);
    r.push(46);
    r.push(46);
    r.push(46);
    proof {
        assert(r@ =~= farewell_bytes());
    }
    r
}

/// The no-op law: a line of nothing but whitespace is skipped whole — no
/// tokenization, no matching, no dispatch, no output.
pub proof fn lemma_blank_noop(g: Seq<CommandSpecView>, line: Seq<u8>)
    requires
        is_blank(line),
    ensures
        spec_process(g, line) == SpecAction::Noop,
{
}

/// A line with an unterminated quote is rejected as invalid quoting, and
/// no command executes.
pub proof fn lemma_unterminated_quote_rejected(g: Seq<CommandSpecView>, line: Seq<u8>)
    requires
        spec_tokens(line) is None,
    ensures
        spec_process(g, line) == SpecAction::Reject(ErrorView::InvalidQuoting),
{
    if is_blank(line) {
        lemma_blank_tokens(line);
    }
}

/// A line whose first token no command claims is rejected as an unknown
/// command, carrying that token, and no command executes.
pub proof fn lemma_unknown_rejected(
    g: Seq<CommandSpecView>,
    line: Seq<u8>,
    toks: Seq<Seq<u8>>,
)
    requires
        spec_tokens(line) == Some(toks),
        toks.len() > 0,
        !some_claims(g, toks[0]),
    ensures
        spec_process(g, line) == SpecAction::Reject(ErrorView::UnknownCommand(toks[0])),
{
    if is_blank(line) {
        lemma_blank_tokens(line);
    }
}

/// A missing subcommand can never surface through the loop: a blank line
/// is skipped before matching, and a non-blank line with valid quoting
/// always yields a first token for the matcher to look at.
pub proof fn lemma_missing_subcommand_unreachable(g: Seq<CommandSpecView>, line: Seq<u8>)
    ensures
        spec_process(g, line) != SpecAction::Reject(ErrorView::MissingSubcommand),
{
    if !is_blank(line) && spec_tokens(line) is Some {
        lemma_nonblank_has_token(line);
    }
}

/// Whether an action reports the grammar/dispatcher wiring error.
pub open spec fn is_config_error(a: SpecAction) -> bool {
    match a {
        SpecAction::Reject(e) => e is HandlerConfiguration,
        _ => false,
    }
}

/// Under a well-formed grammar the wiring error is unreachable: every
/// command the matcher resolves has a handler registered.
pub proof fn lemma_no_config_error(g: Seq<CommandSpecView>, line: Seq<u8>)
    requires
        grammar_wf(g),
    ensures
        !is_config_error(spec_process(g, line)),
{
    if !is_blank(line) {
        match spec_tokens(line) {
            Option::None => {},
            Option::Some(toks) => {
                match spec_match(g, toks) {
                    SpecMatch::Matched { canonical, args } => {
                        crate::dispatch::lemma_matched_always_dispatches(g, toks, canonical, args);
                    },
                    _ => {},
                }
            },
        }
    }
}

} // verus!
