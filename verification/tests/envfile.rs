use otto_cli::envfile::parse;

#[test]
fn parse_envfile() {
    let text = r#"
# comment
FOO=bar
EMPTY=
export NAME=otto
SINGLE='hello world'
DOUBLE="a\\nb"
RAW=hello # trailing comment
"#;

    let out = parse(text).expect("parse dotenv");
    assert_eq!(out.get("FOO"), Some(&"bar".to_string()));
    assert_eq!(out.get("EMPTY"), Some(&"".to_string()));
    assert_eq!(out.get("NAME"), Some(&"otto".to_string()));
    assert_eq!(out.get("SINGLE"), Some(&"hello world".to_string()));
    assert_eq!(out.get("DOUBLE"), Some(&"a\\nb".to_string()));
    assert_eq!(out.get("RAW"), Some(&"hello".to_string()));
}

#[test]
fn parse_rejects_invalid_line() {
    assert!(parse("not-valid").is_err());
}

#[test]
fn parse_reports_the_line_and_the_reason() {
    assert_eq!(
        parse("A=1\n\nnot-valid\nB=2").expect_err("bad"),
        "line 3: expected KEY=VALUE"
    );
    assert_eq!(
        parse("=1").expect_err("bad"),
        "line 1: expected KEY=VALUE"
    );
    assert_eq!(
        parse("A=1\nmy key=2").expect_err("bad"),
        "line 2: invalid key \"my key\""
    );
    assert_eq!(
        parse("A=\"open").expect_err("bad"),
        "line 1: unterminated double-quoted value"
    );
    assert_eq!(
        parse("A=\"").expect_err("bad"),
        "line 1: unterminated double-quoted value"
    );
    assert_eq!(
        parse("A=\"bad \\q escape\"").expect_err("bad"),
        "line 1: invalid double-quoted value"
    );
    assert_eq!(
        parse("A='open").expect_err("bad"),
        "line 1: unterminated single-quoted value"
    );
    assert_eq!(
        parse("A='").expect_err("bad"),
        "line 1: unterminated single-quoted value"
    );
}

#[test]
fn parse_reads_values_by_their_quotes() {
    let out = parse("A=\"tab\\there\"\r\nB='it # stays'\r\nC = spaced out  \nD=x#y\nE=a #b #c")
        .expect("parse");
    assert_eq!(out.get("A"), Some(&"tab\there".to_string()));
    assert_eq!(out.get("B"), Some(&"it # stays".to_string()));
    assert_eq!(out.get("C"), Some(&"spaced out".to_string()));
    assert_eq!(out.get("D"), Some(&"x#y".to_string()));
    assert_eq!(out.get("E"), Some(&"a".to_string()));
    assert_eq!(out.len(), 5);
}

#[test]
fn parse_lets_a_later_line_win() {
    let out = parse("A=1\nexport   A=2\n").expect("parse");
    assert_eq!(out.get("A"), Some(&"2".to_string()));
    assert_eq!(out.len(), 1);
}

#[test]
fn parse_of_nothing_is_empty() {
    assert!(parse("").expect("parse").is_empty());
    assert!(parse("\n# only a comment\n   \n").expect("parse").is_empty());
}
