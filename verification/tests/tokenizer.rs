use simpledb::errors::ShellError;
use simpledb::tokenizer::tokenize;

fn bytes(s: &str) -> Vec<u8> {
    s.as_bytes().to_vec()
}

fn tokens(words: &[&str]) -> Vec<Vec<u8>> {
    words.iter().map(|w| bytes(w)).collect()
}

#[test]
fn tokenize_splits_on_whitespace() {
    let r = tokenize(&bytes("select a b")).unwrap();
    assert_eq!(r, tokens(&["select", "a", "b"]));
}

#[test]
fn tokenize_collapses_runs_of_whitespace() {
    let r = tokenize(&bytes("  select \t a  \r\n")).unwrap();
    assert_eq!(r, tokens(&["select", "a"]));
}

#[test]
fn tokenize_preserves_quoted_spaces() {
    let r = tokenize(&bytes("select a \"b c\" d")).unwrap();
    assert_eq!(r, tokens(&["select", "a", "b c", "d"]));
}

#[test]
fn tokenize_single_quotes() {
    let r = tokenize(&bytes("select 'b c'")).unwrap();
    assert_eq!(r, tokens(&["select", "b c"]));
}

#[test]
fn tokenize_adjacent_quotes_join_into_one_token() {
    let r = tokenize(&bytes("a\"b c\"d")).unwrap();
    assert_eq!(r, tokens(&["ab cd"]));
}

#[test]
fn tokenize_empty_quoted_token() {
    let r = tokenize(&bytes("a \"\" b")).unwrap();
    assert_eq!(r, tokens(&["a", "", "b"]));
}

#[test]
fn tokenize_double_quote_may_hold_single_quote() {
    let r = tokenize(&bytes("say \"it's\"")).unwrap();
    assert_eq!(r, tokens(&["say", "it's"]));
}

#[test]
fn tokenize_empty_line_yields_no_tokens() {
    let r = tokenize(&bytes("")).unwrap();
    assert_eq!(r, tokens(&[]));
}

#[test]
fn tokenize_blank_line_yields_no_tokens() {
    let r = tokenize(&bytes(" \t \r\n")).unwrap();
    assert_eq!(r, tokens(&[]));
}

#[test]
fn tokenize_unterminated_double_quote_is_error() {
    let r = tokenize(&bytes("select \"abc"));
    assert_eq!(r, Err(ShellError::InvalidQuoting));
}

#[test]
fn tokenize_unterminated_single_quote_is_error() {
    let r = tokenize(&bytes("select 'abc"));
    assert_eq!(r, Err(ShellError::InvalidQuoting));
}

#[test]
fn tokenize_quote_reopened_later_is_error() {
    let r = tokenize(&bytes("a \"b\" \"c"));
    assert_eq!(r, Err(ShellError::InvalidQuoting));
}
