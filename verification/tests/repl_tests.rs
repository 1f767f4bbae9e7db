use codedx_client::repl::{quote_args, tokenize, CmdArgs};

fn strings(words: &[&str]) -> Vec<String> {
    words.iter().map(|w| w.to_string()).collect()
}

#[test]
fn test_plain_arg() {
    let args = tokenize("hello").unwrap();
    assert!(args == strings(&["hello"]));
}

#[test]
fn test_single_quoted() {
    let args = tokenize("'hello'").unwrap();
    assert!(args == strings(&["hello"]));
}

#[test]
fn test_single_quoted_escape() {
    let args = tokenize("'hello \\'world\\''").unwrap();
    assert!(args == strings(&["hello 'world'"]));
}

#[test]
fn test_double_quoted() {
    let args = tokenize("\"hello\"").unwrap();
    assert!(args == strings(&["hello"]));
}

#[test]
fn test_double_quoted_escape() {
    let args = tokenize("\"hello \\\"world\\\"\"").unwrap();
    assert!(args == strings(&["hello \"world\""]));
}

#[test]
fn test_multi_plain() {
    let args = tokenize("hello world").unwrap();
    assert!(args == strings(&["hello", "world"]));
}

#[test]
fn test_multi_mixed() {
    let args = tokenize("hello 'world' \"how are you\"").unwrap();
    assert!(args == strings(&["hello", "world", "how are you"]));
}

#[test]
fn test_multi_mixed_escape() {
    let args = tokenize("'ahoy \\'matey\\'' hello \"\\\"hello\\\"\"").unwrap();
    assert!(args == strings(&["ahoy 'matey'", "hello", "\"hello\""]));
}

#[test]
fn test_cmdargs_parse() {
    let args: CmdArgs = "hello world".parse().unwrap();
    assert!(args.0 == strings(&["hello", "world"]));
}

#[test]
fn test_mixed_quote_styles() {
    let args = tokenize("a 'b c' \"d e\"").unwrap();
    assert_eq!(args, strings(&["a", "b c", "d e"]));
}

#[test]
fn test_escaped_quote_inside_single() {
    let args = tokenize("'it\\'s'").unwrap();
    assert_eq!(args, strings(&["it's"]));
}

#[test]
fn test_unterminated_quote_fails() {
    assert!(tokenize("'abc").is_err());
    assert!(tokenize("\"abc").is_err());
}

#[test]
fn test_bad_escape_fails() {
    assert!(tokenize("'a\\bc'").is_err());
}

#[test]
fn test_empty_line_gives_no_tokens() {
    let args = tokenize("").unwrap();
    assert!(args.is_empty());
}

#[test]
fn test_surrounding_whitespace_fails() {
    assert!(tokenize(" a").is_err());
    assert!(tokenize("a ").is_err());
    assert!(tokenize("   ").is_err());
}

#[test]
fn test_quote_must_close_token() {
    assert!(tokenize("'ab'x").is_err());
}

#[test]
fn test_empty_quoted_token() {
    let args = tokenize("''").unwrap();
    assert_eq!(args, strings(&[""]));
}

#[test]
fn test_quote_inside_bare_token() {
    let args = tokenize("ab'cd").unwrap();
    assert_eq!(args, strings(&["ab'cd"]));
}

#[test]
fn test_quote_args_round_trip() {
    let original = strings(&["a b", "it's", "", "say \"hi\"", "back\\slash"]);
    let line = quote_args(&original);
    let reparsed = tokenize(line.as_str()).unwrap();
    assert_eq!(reparsed, original);
}

#[test]
fn test_quote_args_rendering() {
    let line = quote_args(&strings(&["a b", "c"]));
    assert_eq!(line, "'a b' 'c'");
}

#[test]
fn test_cmdargs_parse_failure() {
    let parsed = "'oops".parse::<CmdArgs>();
    assert!(parsed.is_err());
}
