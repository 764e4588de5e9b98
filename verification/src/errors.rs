//! The errors a line of input can provoke, and their user-facing messages.
//!
//! The first three kinds are user errors: the shell reports them and keeps
//! running. `HandlerConfiguration` means a matched command has no registered
//! handler — a wiring mistake between grammar and dispatcher, proved
//! unreachable for well-formed grammars (see `shell::lemma_no_config_error`).

use vstd::prelude::*;

verus! {

/// A structured error produced while processing one input line.
#[derive(Debug, PartialEq, Eq)]
pub enum ShellError {
    /// The line has an unterminated quote.
    InvalidQuoting,
    /// The first token (carried here) names no known command.
    UnknownCommand(Vec<u8>),
    /// No command token was present where one is required.
    MissingSubcommand,
    /// The matched command (carried here) has no handler registered.
    HandlerConfiguration(Vec<u8>),
}

/// The mathematical value of a `ShellError`.
pub enum ErrorView {
    InvalidQuoting,
    UnknownCommand(Seq<u8>),
    MissingSubcommand,
    HandlerConfiguration(Seq<u8>),
}

impl View for ShellError {
    type V = ErrorView;

    open spec fn view(&self) -> ErrorView {
        match self {
            ShellError::InvalidQuoting => ErrorView::InvalidQuoting,
            ShellError::UnknownCommand(w) => ErrorView::UnknownCommand(w@),
            ShellError::MissingSubcommand => ErrorView::MissingSubcommand,
            ShellError::HandlerConfiguration(w) => ErrorView::HandlerConfiguration(w@),
        }
    }
}

/// The bytes of `"error: invalid quoting"`.
pub open spec fn msg_invalid_quoting() -> Seq<u8> {
    seq![
        101u8, 114, 114, 111, 114, 58, 32,
        105, 110, 118, 97, 108, 105, 100, 32,
        113, 117, 111, 116, 105, 110, 103,
    ]
}

/// The bytes of `"error: unknown command: "`.
pub open spec fn msg_unknown_prefix() -> Seq<u8> {
    seq![
        101u8, 114, 114, 111, 114, 58, 32,
        117, 110, 107, 110, 111, 119, 110, 32,
        99, 111, 109, 109, 97, 110, 100, 58, 32,
    ]
}

/// The bytes of `"error: missing subcommand"`.
pub open spec fn msg_missing_subcommand() -> Seq<u8> {
    seq![
        101u8, 114, 114, 111, 114, 58, 32,
        109, 105, 115, 115, 105, 110, 103, 32,
        115, 117, 98, 99, 111, 109, 109, 97, 110, 100,
    ]
}

/// The bytes of `"error: no handler registered: "`.
pub open spec fn msg_no_handler_prefix() -> Seq<u8> {
    seq![
        101u8, 114, 114, 111, 114, 58, 32,
        110, 111, 32,
        104, 97, 110, 100, 108, 101, 114, 32,
        114, 101, 103, 105, 115, 116, 101, 114, 101, 100, 58, 32,
    ]
}

/// The message shown to the user for each error.
pub open spec fn spec_message(e: ErrorView) -> Seq<u8> {
    match e {
        ErrorView::InvalidQuoting => msg_invalid_quoting(),
        ErrorView::UnknownCommand(w) => msg_unknown_prefix() + w,
        ErrorView::MissingSubcommand => msg_missing_subcommand(),
        ErrorView::HandlerConfiguration(w) => msg_no_handler_prefix() + w,
    }
}

/// Appends all of `src` to `dst`.
fn append_bytes(dst: &mut Vec<u8>, src: &Vec<u8>)
    ensures
        final(dst)@ == old(dst)@ + src@,
{
    let mut i: usize = 0;
    while i < src.len()
        invariant
            0 <= i <= src@.len(),
            dst@ == old(dst)@ + src@.subrange(0, i as int),
        decreases src@.len() - i,
    {
        let ghost prev = dst@;
        dst.push(src[i]);
        i = i + 1;
        proof {
            assert(dst@ =~= old(dst)@ + src@.subrange(0, i as int));
        }
    }
    proof {
        assert(dst@ =~= old(dst)@ + src@);
    }
}

/// Renders the user-facing message for an error, byte for byte as
/// `spec_message` states it.
pub fn render_error(e: &ShellError) -> (r: Vec<u8>)
    ensures
        r@ == spec_message(e@),
{
    let mut r: Vec<u8> = Vec::new();
    match e {
        ShellError::InvalidQuoting => {
            push_invalid_quoting(&mut r);
        },
        ShellError::UnknownCommand(w) => {
            push_unknown_prefix(&mut r);
            append_bytes(&mut r, w);
        },
        ShellError::MissingSubcommand => {
            push_missing_subcommand(&mut r);
        },
        ShellError::HandlerConfiguration(w) => {
            push_no_handler_prefix(&mut r);
            append_bytes(&mut r, w);
        },
    }
    r
}

fn push_invalid_quoting(r: &mut Vec<u8>)
    ensures
        final(r)@ == old(r)@ + msg_invalid_quoting(),
{
    r.push(101);
    r.push(114);
    r.push(114);
    r.push(111);
    r.push(114);
    r.push(58);
    r.push(32);
    r.push(105);
    r.push(110);
    r.push(118);
    r.push(97);
    r.push(108);
    r.push(105);
    r.push(100);
    r.push(32);
    r.push(113);
    r.push(117);
    r.push(111);
    r.push(116);
    r.push(105);
    r.push(110);
    r.push(103);
    proof {
        assert(r@ =~= old(r)@ + msg_invalid_quoting());
    }
}

fn push_unknown_prefix(r: &mut Vec<u8>)
    ensures
        final(r)@ == old(r)@ + msg_unknown_prefix(),
{
    r.push(101);
    r.push(114);
    r.push(114);
    r.push(111);
    r.push(114);
    r.push(58);
    r.push(32);
    r.push(117);
    r.push(110);
    r.push(107);
    r.push(110);
    r.push(111);
    r.push(119);
    r.push(110);
    r.push(32);
    r.push(99);
    r.push(111);
    r.push(109);
    r.push(109);
    r.push(97);
    r.push(110);
    r.push(100);
    r.push(58);
    r.push(32);
    proof {
        assert(r@ =~= old(r)@ + msg_unknown_prefix());
    }
}

fn push_missing_subcommand(r: &mut Vec<u8>)
    ensures
        final(r)@ == old(r)@ + msg_missing_subcommand(),
{
    r.push(101);
    r.push(114);
    r.push(114);
    r.push(111);
    r.push(114);
    r.push(58);
    r.push(32);
    r.push(109);
    r.push(105);
    r.push(115);
    r.push(115);
    r.push(105);
    r.push(110);
    r.push(103);
    r.push(32);
    r.push(115);
    r.push(117);
    r.push(98);
    r.push(99);
    r.push(111);
    r.push(109);
    r.push(109);
    r.push(97);
    r.push(110);
    r.push(100);
    proof {
        assert(r@ =~= old(r)@ + msg_missing_subcommand());
    }
}

fn push_no_handler_prefix(r: &mut Vec<u8>)
    ensures
        final(r)@ == old(r)@ + msg_no_handler_prefix(),
{
    r.push(101);
    r.push(114);
    r.push(114);
    r.push(111);
    r.push(114);
    r.push(58);
    r.push(32);
    r.push(110);
    r.push(111);
    r.push(32);
    r.push(104);
    r.push(97);
    r.push(110);
    r.push(100);
    r.push(108);
    r.push(101);
    r.push(114);
    r.push(32);
    r.push(114);
    r.push(101);
    r.push(103);
    r.push(105);
    r.push(115);
    r.push(116);
    r.push(101);
    r.push(114);
    r.push(101);
    r.push(100);
    r.push(58);
    r.push(32);
    proof {
        assert(r@ =~= old(r)@ + msg_no_handler_prefix());
    }
}

} // verus!
