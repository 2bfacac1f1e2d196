use hurl::{gather_escapes, parse_param, Error, Parameter, Separator, Token};

fn text(s: &str) -> Token {
    Token::Text(s.to_string())
}

fn data(key: &str, value: &str) -> Parameter {
    Parameter::Data { key: key.to_string(), value: value.to_string() }
}

#[test]
fn tokens_split_at_escapes() {
    assert_eq!(
        gather_escapes("a\\:b=c"),
        vec![text("a"), Token::Escape(':'), text("b=c")]
    );
    assert_eq!(
        gather_escapes("\\\\\\=x\\@"),
        vec![Token::Escape('\\'), Token::Escape('='), text("x"), Token::Escape('@')]
    );
}

#[test]
fn tokens_keep_other_backslashes() {
    assert_eq!(gather_escapes("a\\xb"), vec![text("a\\xb")]);
    assert_eq!(gather_escapes("abc\\"), vec![text("abc\\")]);
    assert_eq!(gather_escapes("\\"), vec![text("\\")]);
    assert_eq!(gather_escapes(""), Vec::<Token>::new());
}

#[test]
fn each_separator_selects_its_kind() {
    let cases = [
        ("XAPI-TOKEN:abc123", Parameter::Header { key: "XAPI-TOKEN".into(), value: "abc123".into() }),
        ("foo=bar", data("foo", "bar")),
        ("foo:=[1,2,3]", Parameter::RawJsonData { key: "foo".into(), value: "[1,2,3]".into() }),
        ("foo==bar", Parameter::Query { key: "foo".into(), value: "bar".into() }),
        ("file@/tmp/f.txt", Parameter::FormFile { key: "file".into(), value: "/tmp/f.txt".into() }),
        ("foo=@bar.txt", Parameter::DataFile { key: "foo".into(), value: "bar.txt".into() }),
        ("foo:=@bar.json", Parameter::RawJsonDataFile { key: "foo".into(), value: "bar.json".into() }),
    ];
    for (src, expected) in cases {
        assert_eq!(parse_param(src), Ok(expected), "{}", src);
    }
}

#[test]
fn single_separator_splits_around_it() {
    assert_eq!(parse_param("k:v"), Ok(Parameter::Header { key: "k".into(), value: "v".into() }));
    assert_eq!(parse_param("=v"), Ok(data("", "v")));
    assert_eq!(parse_param("k@"), Ok(Parameter::FormFile { key: "k".into(), value: "".into() }));
    assert_eq!(parse_param("ключ=значение"), Ok(data("ключ", "значение")));
}

#[test]
fn escaped_colon_is_not_a_separator() {
    assert_eq!(parse_param("a\\:b=c"), Ok(data("a:b", "c")));
    assert_eq!(parse_param("a\\\\b=c"), Ok(data("a\\b", "c")));
}

#[test]
fn escapes_after_the_separator_stay_in_the_value() {
    assert_eq!(parse_param("a=\\:b"), Ok(data("a", ":b")));
    assert_eq!(
        parse_param("a\\=b:c"),
        Ok(Parameter::Header { key: "a=b".into(), value: "c".into() })
    );
    assert_eq!(parse_param("k=x\\@y\\q"), Ok(data("k", "x@y\\q")));
}

#[test]
fn longest_separator_at_earliest_offset_wins() {
    assert_eq!(
        parse_param("a:=@b"),
        Ok(Parameter::RawJsonDataFile { key: "a".into(), value: "b".into() })
    );
    assert_eq!(parse_param("a=b:c"), Ok(data("a", "b:c")));
    assert_eq!(parse_param("a:b=c"), Ok(Parameter::Header { key: "a".into(), value: "b=c".into() }));
    assert_eq!(
        parse_param("a==b=c"),
        Ok(Parameter::Query { key: "a".into(), value: "b=c".into() })
    );
}

#[test]
fn query_scenario() {
    assert_eq!(
        parse_param("name==value"),
        Ok(Parameter::Query { key: "name".into(), value: "value".into() })
    );
}

#[test]
fn form_file_scenario_parses() {
    let p = parse_param("key@/tmp/f.txt").unwrap();
    assert!(p.is_form_file());
    assert!(p.is_data());
}

#[test]
fn missing_separator_is_an_error() {
    assert_eq!(
        parse_param("foo"),
        Err(Error::ParameterMissingSeparator("foo".to_string()))
    );
    assert_eq!(
        parse_param("a\\=b"),
        Err(Error::ParameterMissingSeparator("a\\=b".to_string()))
    );
    assert_eq!(parse_param(""), Err(Error::ParameterMissingSeparator(String::new())));
}

#[test]
fn header_and_query_are_not_data() {
    assert!(!parse_param("a:b").unwrap().is_data());
    assert!(!parse_param("a==b").unwrap().is_data());
    assert!(parse_param("a=b").unwrap().is_data());
    assert!(!parse_param("a=b").unwrap().is_form_file());
}

#[test]
fn separator_texts() {
    assert_eq!(Separator::Snail.chars(), vec![':', '=', '@']);
    assert_eq!(Separator::Snail.len(), 3);
    assert_eq!(Separator::EqualAt.len(), 2);
    assert_eq!(Separator::Colon.len(), 1);
}
