use grok::{Dict, Error, Grok, Pattern};

#[test]
fn test_recursion_too_deep() {
    let mut grok = Grok::empty();
    grok.insert_definition("A", "%{B}");
    grok.insert_definition("B", "%{A}");
    let err = grok.compile("%{A}", false).unwrap_err();
    assert!(matches!(err, Error::RecursionTooDeep));
}

#[test]
fn test_definition_not_found() {
    let mut grok = Grok::empty();
    let err = grok.compile("%{UNKNOWN}", false).unwrap_err();
    match err {
        Error::DefinitionNotFound(name) => assert_eq!("UNKNOWN", name),
        other => panic!("unexpected error: {:?}", other),
    }
}

#[test]
fn test_compiled_pattern_is_empty() {
    let mut grok = Grok::empty();
    let err = grok.compile("", false).unwrap_err();
    match err {
        Error::CompiledPatternIsEmpty(p) => assert_eq!("", p),
        other => panic!("unexpected error: {:?}", other),
    }
}

#[test]
fn test_regex_compilation_failed() {
    let mut grok = Grok::empty();
    grok.insert_definition("BAD", "[");
    let err = grok.compile("%{BAD}", false).unwrap_err();
    match err {
        Error::RegexCompilationFailed(re) => assert_eq!("(?P<name0>[)", re),
        other => panic!("unexpected error: {:?}", other),
    }
}

#[test]
fn test_pattern_new_rejects_bad_regex() {
    let err = Pattern::new("(unclosed", Dict::new()).unwrap_err();
    assert!(matches!(err, Error::RegexCompilationFailed(_)));
}

#[test]
fn test_error_message_carries_datum() {
    let mut grok = Grok::empty();
    let err = grok.compile("%{UNKNOWN}", false).unwrap_err();
    assert_eq!("no definition was found for the name: UNKNOWN", err.message());
    assert_eq!(
        "recursion while compiling reached the limit",
        Error::RecursionTooDeep.message()
    );
}

#[test]
fn test_insert_definition_is_idempotent() {
    let mut once = Grok::empty();
    once.insert_definition("USERNAME", r"[a-zA-Z0-9._-]+");
    let mut twice = Grok::empty();
    twice.insert_definition("USERNAME", r"[a-zA-Z0-9._-]+");
    twice.insert_definition("USERNAME", r"[a-zA-Z0-9._-]+");
    let pat_once = once.compile("%{USERNAME:usr}", false).expect("Error while compiling!");
    let pat_twice = twice.compile("%{USERNAME:usr}", false).expect("Error while compiling!");
    let from_once = pat_once.match_against("john doe").expect("No matches found!");
    let from_twice = pat_twice.match_against("john doe").expect("No matches found!");
    assert_eq!(from_once.get("usr"), from_twice.get("usr"));
    assert_eq!(from_once.len(), from_twice.len());
}

#[test]
fn test_overwriting_insert_takes_latest() {
    let mut grok = Grok::empty();
    grok.insert_definition("NUM", r"[a-z]+");
    grok.insert_definition("NUM", r"[0-9]+");
    let pattern = grok.compile("%{NUM}", false).expect("Error while compiling!");
    let matches = pattern.match_against("abc 123").expect("No matches found!");
    assert_eq!("123", matches.get("NUM").unwrap());
}

#[test]
fn test_repeated_placeholder_gets_distinct_captures() {
    let mut grok = Grok::empty();
    grok.insert_definition("WORD", r"[a-z]+");
    let pattern = grok.compile("%{WORD} %{WORD}", false).expect("Error while compiling!");
    let matches = pattern.match_against("aaa bbb").expect("No matches found!");
    assert_eq!(2, matches.len());
    // both occurrences captured; the shared key resolves to the last binding
    assert_eq!("bbb", matches.get("WORD").unwrap());
}

#[test]
fn test_alias_collision_takes_latest_binding() {
    let mut grok = Grok::empty();
    grok.insert_definition("LETTERS", r"[a-z]+");
    grok.insert_definition("DIGITS", r"[0-9]+");
    let pattern = grok
        .compile("%{LETTERS:field} %{DIGITS:field}", false)
        .expect("Error while compiling!");
    let matches = pattern.match_against("abc 123").expect("No matches found!");
    assert_eq!("123", matches.get("field").unwrap());
}

#[test]
fn test_inline_definition() {
    let mut grok = Grok::empty();
    let pattern = grok.compile("%{WORD:w=[a-z]+}", false).expect("Error while compiling!");
    let matches = pattern.match_against("hello").expect("No matches found!");
    assert_eq!("hello", matches.get("w").unwrap());
    assert_eq!(1, matches.len());
    // the inline definition became a permanent registry entry
    let pattern = grok.compile("%{WORD}", false).expect("Error while compiling!");
    let matches = pattern.match_against("world").expect("No matches found!");
    assert_eq!("world", matches.get("WORD").unwrap());
}

#[test]
fn test_inline_definition_without_alias() {
    let mut grok = Grok::empty();
    let pattern = grok.compile("%{NUM=[0-9]+}", false).expect("Error while compiling!");
    let matches = pattern.match_against("42").expect("No matches found!");
    // without an alias the user-visible key is the full textual name
    assert_eq!("42", matches.get("NUM=[0-9]+").unwrap());
}

#[test]
fn test_is_empty_reflects_len() {
    let mut grok = Grok::empty();
    grok.insert_definition("USERNAME", r"[a-zA-Z0-9._-]+");
    let pattern = grok.compile("%{USERNAME}", false).expect("Error while compiling!");
    let matches = pattern.match_against("root").expect("No matches found!");
    assert_eq!(1, matches.len());
    assert!(!matches.is_empty());
}

#[test]
fn test_literal_text_survives_expansion() {
    let mut grok = Grok::empty();
    grok.insert_definition("NUM", r"[0-9]+");
    let pattern = grok.compile("id=%{NUM:n}!", false).expect("Error while compiling!");
    let matches = pattern.match_against("id=77!").expect("No matches found!");
    assert_eq!("77", matches.get("n").unwrap());
    assert!(pattern.match_against("id=seven!").is_none());
}

#[test]
fn test_suppression_keeps_only_aliased_captures() {
    let mut grok = Grok::empty();
    grok.insert_definition("WORD", r"[a-z]+");
    grok.insert_definition("NUM", r"[0-9]+");
    let pattern = grok.compile("%{WORD} %{NUM:n}", true).expect("Error while compiling!");
    let matches = pattern.match_against("abc 123").expect("No matches found!");
    assert_eq!(1, matches.len());
    assert_eq!("123", matches.get("n").unwrap());
    // the unaliased placeholder was rewritten as non-capturing: its map entry
    // resolves to a group the flat regex does not have
    assert_eq!(None, matches.get("WORD"));
}
