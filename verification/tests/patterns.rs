use grok::Grok;

#[test]
fn test_simple_anonymous_pattern() {
    let mut grok = Grok::default();
    grok.insert_definition("USERNAME", r"[a-zA-Z0-9._-]+");
    let pattern = grok.compile("%{USERNAME}", false).expect("Error while compiling!");

    let matches = pattern.match_against("root").expect("No matches found!");
    assert_eq!("root", matches.get("USERNAME").unwrap());
    assert_eq!(1, matches.len());
    let matches = pattern.match_against("john doe").expect("No matches found!");
    assert_eq!("john", matches.get("USERNAME").unwrap());
    assert_eq!(1, matches.len());
}

#[test]
fn test_simple_named_pattern() {
    let mut grok = Grok::default();
    grok.insert_definition("USERNAME", r"[a-zA-Z0-9._-]+");
    let pattern = grok.compile("%{USERNAME:usr}", false).expect("Error while compiling!");

    let matches = pattern.match_against("root").expect("No matches found!");
    assert_eq!("root", matches.get("usr").unwrap());
    assert_eq!(1, matches.len());
    let matches = pattern.match_against("john doe").expect("No matches found!");
    assert_eq!("john", matches.get("usr").unwrap());
    assert_eq!(1, matches.len());
}

#[test]
fn test_alias_anonymous_pattern() {
    let mut grok = Grok::default();
    grok.insert_definition("USERNAME", r"[a-zA-Z0-9._-]+");
    grok.insert_definition("USER", r"%{USERNAME}");
    let pattern = grok.compile("%{USER}", false).expect("Error while compiling!");

    let matches = pattern.match_against("root").expect("No matches found!");
    assert_eq!("root", matches.get("USER").unwrap());
    let matches = pattern.match_against("john doe").expect("No matches found!");
    assert_eq!("john", matches.get("USER").unwrap());
}

#[test]
fn test_ailas_named_pattern() {
    let mut grok = Grok::default();
    grok.insert_definition("USERNAME", r"[a-zA-Z0-9._-]+");
    grok.insert_definition("USER", r"%{USERNAME}");
    let pattern = grok.compile("%{USER:usr}", false).expect("Error while compiling!");

    let matches = pattern.match_against("root").expect("No matches found!");
    assert_eq!("root", matches.get("usr").unwrap());
    let matches = pattern.match_against("john doe").expect("No matches found!");
    assert_eq!("john", matches.get("usr").unwrap());
}

#[test]
fn test_composite_or_pattern() {
    let mut grok = Grok::default();
    grok.insert_definition("MAC", r"(?:%{CISCOMAC}|%{WINDOWSMAC}|%{COMMONMAC})");
    grok.insert_definition("CISCOMAC", r"(?:(?:[A-Fa-f0-9]{4}\.){2}[A-Fa-f0-9]{4})");
    grok.insert_definition("WINDOWSMAC", r"(?:(?:[A-Fa-f0-9]{2}-){5}[A-Fa-f0-9]{2})");
    grok.insert_definition("COMMONMAC", r"(?:(?:[A-Fa-f0-9]{2}:){5}[A-Fa-f0-9]{2})");
    let pattern = grok.compile("%{MAC}", false).expect("Error while compiling!");

    let matches = pattern.match_against("5E:FF:56:A2:AF:15").expect("No matches found!");
    assert_eq!("5E:FF:56:A2:AF:15", matches.get("MAC").unwrap());
    assert_eq!(4, matches.len());
    let matches = pattern.match_against("hello! 5E:FF:56:A2:AF:15 what?").expect("No matches found!");
    assert_eq!("5E:FF:56:A2:AF:15", matches.get("MAC").unwrap());
    assert_eq!(true, pattern.match_against("5E:FF").is_none());
}

#[test]
fn test_multiple_patterns() {
    let mut grok = Grok::default();
    grok.insert_definition("YEAR", r"(\d\d){1,2}");
    grok.insert_definition("MONTH", r"\b(?:Jan(?:uary)?|Feb(?:ruary)?|Mar(?:ch)?|Apr(?:il)?|May|Jun(?:e)?|Jul(?:y)?|Aug(?:ust)?|Sep(?:tember)?|Oct(?:ober)?|Nov(?:ember)?|Dec(?:ember)?)\b");
    grok.insert_definition("DAY", r"(?:Mon(?:day)?|Tue(?:sday)?|Wed(?:nesday)?|Thu(?:rsday)?|Fri(?:day)?|Sat(?:urday)?|Sun(?:day)?)");
    let pattern = grok.compile("%{DAY} %{MONTH} %{YEAR}", false).expect("Error while compiling!");

    let matches = pattern.match_against("Monday March 2012").expect("No matches found!");
    assert_eq!("Monday", matches.get("DAY").unwrap());
    assert_eq!("March", matches.get("MONTH").unwrap());
    assert_eq!("2012", matches.get("YEAR").unwrap());
    assert_eq!(None, matches.get("unknown"));
}

#[test]
fn test_with_alias_only() {
    let mut grok = Grok::default();
    grok.insert_definition("MAC", r"(?:%{CISCOMAC}|%{WINDOWSMAC}|%{COMMONMAC})");
    grok.insert_definition("CISCOMAC", r"(?:(?:[A-Fa-f0-9]{4}\.){2}[A-Fa-f0-9]{4})");
    grok.insert_definition("WINDOWSMAC", r"(?:(?:[A-Fa-f0-9]{2}-){5}[A-Fa-f0-9]{2})");
    grok.insert_definition("COMMONMAC", r"(?:(?:[A-Fa-f0-9]{2}:){5}[A-Fa-f0-9]{2})");
    let pattern = grok.compile("%{MAC:macaddr}", true).expect("Error while compiling!");

    let matches = pattern.match_against("5E:FF:56:A2:AF:15").expect("No matches found!");
    assert_eq!("5E:FF:56:A2:AF:15", matches.get("macaddr").unwrap());
    assert_eq!(1, matches.len());
    let matches = pattern.match_against("hello! 5E:FF:56:A2:AF:15 what?").expect("No matches found!");
    assert_eq!("5E:FF:56:A2:AF:15", matches.get("macaddr").unwrap());
    assert_eq!(true, pattern.match_against("5E:FF").is_none());
}
