use simpledb::dispatch::{handle_command, Effect, ShellOutcome};
use simpledb::errors::{render_error, ShellError};
use simpledb::grammar::{cli, grammar_is_wf, CommandSpec, Grammar, HandlerKind};
use simpledb::matcher::{match_tokens, MatchedCommand};
use simpledb::shell::{farewell_message, process_command, prompt, LineAction};

fn bytes(s: &str) -> Vec<u8> {
    s.as_bytes().to_vec()
}

fn tokens(words: &[&str]) -> Vec<Vec<u8>> {
    words.iter().map(|w| bytes(w)).collect()
}

#[test]
fn blank_line_is_noop() {
    let g = cli();
    assert_eq!(process_command(&g, &bytes("   \t  \n")), LineAction::Noop);
}

#[test]
fn empty_line_is_noop() {
    let g = cli();
    assert_eq!(process_command(&g, &bytes("")), LineAction::Noop);
}

#[test]
fn unterminated_quote_is_rejected() {
    let g = cli();
    assert_eq!(
        process_command(&g, &bytes("select \"abc")),
        LineAction::Reject(ShellError::InvalidQuoting)
    );
}

#[test]
fn unknown_command_is_rejected_with_its_name() {
    let g = cli();
    assert_eq!(
        process_command(&g, &bytes("bogus 1 2")),
        LineAction::Reject(ShellError::UnknownCommand(bytes("bogus")))
    );
}

#[test]
fn quit_terminates() {
    let g = cli();
    assert_eq!(process_command(&g, &bytes("quit")), LineAction::Quit);
}

#[test]
fn q_terminates() {
    let g = cli();
    assert_eq!(process_command(&g, &bytes("q")), LineAction::Quit);
}

#[test]
fn exit_terminates() {
    let g = cli();
    assert_eq!(process_command(&g, &bytes("exit")), LineAction::Quit);
}

#[test]
fn quit_ignores_trailing_tokens() {
    let g = cli();
    assert_eq!(process_command(&g, &bytes("quit now")), LineAction::Quit);
}

#[test]
fn select_captures_quoted_arguments() {
    let g = cli();
    assert_eq!(
        process_command(&g, &bytes("select a \"b c\" d")),
        LineAction::Echo(tokens(&["a", "b c", "d"]))
    );
}

#[test]
fn insert_without_arguments_echoes_empty_list() {
    let g = cli();
    assert_eq!(process_command(&g, &bytes("insert")), LineAction::Echo(tokens(&[])));
}

#[test]
fn insert_keeps_argument_order() {
    let g = cli();
    assert_eq!(
        process_command(&g, &bytes("insert x y z")),
        LineAction::Echo(tokens(&["x", "y", "z"]))
    );
}

#[test]
fn repeated_processing_is_idempotent() {
    let g = cli();
    let line = bytes("select a \"b c\" d");
    let first = process_command(&g, &line);
    let second = process_command(&g, &line);
    assert_eq!(first, second);
    // a terminating command in between leaves no trace either
    let _ = process_command(&g, &bytes("quit"));
    let third = process_command(&g, &line);
    assert_eq!(first, third);
}

#[test]
fn aliases_resolve_to_the_same_canonical_command() {
    let g = cli();
    for word in ["quit", "q", "exit"] {
        let m = match_tokens(&g, &tokens(&[word])).unwrap();
        assert_eq!(m.canonical, bytes("quit"));
        assert_eq!(m.args, tokens(&[]));
    }
}

#[test]
fn no_tokens_is_a_missing_subcommand() {
    let g = cli();
    match match_tokens(&g, &tokens(&[])) {
        Err(ShellError::MissingSubcommand) => {}
        other => panic!("expected MissingSubcommand, got {:?}", other.map(|m| m.canonical)),
    }
}

#[test]
fn unregistered_canonical_name_is_a_configuration_error() {
    let g = cli();
    let m = MatchedCommand { canonical: bytes("bogus"), args: tokens(&[]) };
    match handle_command(&g, m) {
        Err(ShellError::HandlerConfiguration(w)) => assert_eq!(w, bytes("bogus")),
        _ => panic!("expected HandlerConfiguration"),
    }
}

#[test]
fn quit_dispatches_to_termination() {
    let g = cli();
    let m = MatchedCommand { canonical: bytes("quit"), args: tokens(&[]) };
    let d = handle_command(&g, m).unwrap();
    assert!(matches!(d.outcome, ShellOutcome::Terminated));
    assert!(matches!(d.effect, Effect::Farewell));
}

#[test]
fn select_dispatches_to_echo() {
    let g = cli();
    let m = MatchedCommand { canonical: bytes("select"), args: tokens(&["a"]) };
    let d = handle_command(&g, m).unwrap();
    assert!(matches!(d.outcome, ShellOutcome::Running));
    match d.effect {
        Effect::Echo(args) => assert_eq!(args, tokens(&["a"])),
        Effect::Farewell => panic!("expected Echo"),
    }
}

#[test]
fn invalid_quoting_message() {
    let r = render_error(&ShellError::InvalidQuoting);
    assert_eq!(r, bytes("error: invalid quoting"));
}

#[test]
fn unknown_command_message() {
    let r = render_error(&ShellError::UnknownCommand(bytes("bogus")));
    assert_eq!(r, bytes("error: unknown command: bogus"));
}

#[test]
fn missing_subcommand_message() {
    let r = render_error(&ShellError::MissingSubcommand);
    assert_eq!(r, bytes("error: missing subcommand"));
}

#[test]
fn no_handler_message() {
    let r = render_error(&ShellError::HandlerConfiguration(bytes("bogus")));
    assert_eq!(r, bytes("error: no handler registered: bogus"));
}

#[test]
fn prompt_is_exact() {
    assert_eq!(prompt(), bytes("simpledb > "));
}

#[test]
fn farewell_is_exact() {
    assert_eq!(farewell_message(), bytes("exiting..."));
}

#[test]
fn default_grammar_is_well_formed() {
    let g = cli();
    assert!(grammar_is_wf(&g));
}

#[test]
fn colliding_alias_is_caught_at_startup() {
    let g = Grammar {
        commands: vec![
            CommandSpec {
                name: bytes("select"),
                aliases: vec![],
                takes_ext: true,
                handler: HandlerKind::EchoArgs,
            },
            CommandSpec {
                name: bytes("quit"),
                aliases: vec![bytes("select")],
                takes_ext: false,
                handler: HandlerKind::Quit,
            },
        ],
    };
    assert!(!grammar_is_wf(&g));
}

#[test]
fn duplicate_name_is_caught_at_startup() {
    let g = Grammar {
        commands: vec![
            CommandSpec {
                name: bytes("x"),
                aliases: vec![],
                takes_ext: true,
                handler: HandlerKind::EchoArgs,
            },
            CommandSpec {
                name: bytes("x"),
                aliases: vec![],
                takes_ext: false,
                handler: HandlerKind::Quit,
            },
        ],
    };
    assert!(!grammar_is_wf(&g));
}

#[test]
fn command_word_matching_is_case_sensitive() {
    let g = cli();
    assert_eq!(
        process_command(&g, &bytes("SELECT a")),
        LineAction::Reject(ShellError::UnknownCommand(bytes("SELECT")))
    );
}
