use hurl::client::apply_parameter;
use hurl::{
    build_request, default_verb, parse, parse_auth, parse_param, App, Body, BodyValue,
    Credentials, Directories, Error, FileInput, Parameter, Part, RequestSpec, Session, Verb,
};

fn app() -> App {
    App { url: Some("http://example.com".to_string()), ..App::default() }
}

fn params(srcs: &[&str]) -> Vec<Parameter> {
    srcs.iter().map(|s| parse_param(s).unwrap()).collect()
}

fn pairs(ps: &[(&str, &str)]) -> Vec<(String, String)> {
    ps.iter().map(|(k, v)| (k.to_string(), v.to_string())).collect()
}

#[test]
fn url_shorthands_and_default_scheme() {
    let a = app();
    assert_eq!(parse(&a, ":8080/x"), Ok("http://localhost:8080/x".to_string()));
    assert_eq!(parse(&a, ":/foo"), Ok("http://localhost/foo".to_string()));
    assert_eq!(parse(&a, "example.com"), Ok("http://example.com/".to_string()));
    assert_eq!(parse(&a, "http://example.com/a?b=c"), Ok("http://example.com/a?b=c".to_string()));
    let secure = App { secure: true, ..app() };
    assert_eq!(parse(&secure, "example.com/x"), Ok("https://example.com/x".to_string()));
}

#[test]
fn bad_url_is_an_error() {
    assert_eq!(parse(&app(), ":99999"), Err(Error::UrlParseError));
}

#[test]
fn auth_scenarios() {
    assert_eq!(
        parse_auth("alice:"),
        Credentials::Basic { username: "alice".into(), password: None }
    );
    assert_eq!(parse_auth("bob"), Credentials::Prompt { username: "bob".into() });
    assert_eq!(
        parse_auth("carol:s3cret:x"),
        Credentials::Basic { username: "carol".into(), password: Some("s3cret:x".into()) }
    );
    assert_eq!(
        parse_auth("dave::pw"),
        Credentials::Basic { username: "dave".into(), password: Some(":pw".into()) }
    );
    assert_eq!(parse_auth(":"), Credentials::Basic { username: "".into(), password: None });
}

#[test]
fn query_request_has_no_body() {
    let ps = params(&["name==value"]);
    let r = build_request(&app(), Verb::Get, &mut None, "http://example.com", &ps, &vec![FileInput::Unread]).unwrap();
    assert_eq!(r.url, "http://example.com/");
    assert_eq!(r.query, pairs(&[("name", "value")]));
    assert_eq!(r.body, Body::Empty);
    assert!(r.headers.is_empty());
    assert_eq!(r.verb, Verb::Get);
}

#[test]
fn form_file_without_form_mode_fails() {
    let ps = params(&["key@/tmp/f.txt"]);
    let r = build_request(&app(), Verb::Post, &mut None, "http://example.com", &ps, &vec![FileInput::Unread]);
    assert_eq!(r, Err(Error::NotFormButHasFormFile));
}

#[test]
fn bad_url_fails_before_the_session_changes() {
    let a = app();
    let dirs = Directories::new(Some("/c".to_string())).unwrap();
    let s = Session::new(&a, &dirs, "s".to_string(), "h".to_string());
    let mut session = Some(s.clone());
    let ps = params(&["X-A:1"]);
    let r = build_request(&a, Verb::Get, &mut session, ":99999", &ps, &vec![FileInput::Unread]);
    assert_eq!(r, Err(Error::UrlParseError));
    assert_eq!(session, Some(s));
}

#[test]
fn json_body_from_data_and_raw_json() {
    let ps = params(&["a=1", "b:=[1,2]", "a=2", "X-H:v"]);
    let files = vec![FileInput::Unread; ps.len()];
    let r = build_request(&app(), Verb::Post, &mut None, "http://h", &ps, &files).unwrap();
    assert_eq!(
        r.body,
        Body::Json(vec![
            ("a".to_string(), BodyValue::Text("2".to_string())),
            ("b".to_string(), BodyValue::Json("[1,2]".to_string())),
        ])
    );
    assert_eq!(r.headers, pairs(&[("X-H", "v")]));
}

#[test]
fn form_mode_encodes_fields_as_a_form() {
    let a = App { form: true, ..app() };
    let ps = params(&["a=1"]);
    let r = build_request(&a, Verb::Post, &mut None, "http://h", &ps, &vec![FileInput::Unread]).unwrap();
    assert_eq!(r.body, Body::Form(vec![("a".to_string(), BodyValue::Text("1".to_string()))]));
}

#[test]
fn invalid_raw_json_is_an_error() {
    let ps = params(&["a:=[1,2"]);
    let r = build_request(&app(), Verb::Post, &mut None, "http://h", &ps, &vec![FileInput::Unread]);
    assert_eq!(r, Err(Error::SerdeJson));
}

#[test]
fn file_fields_use_what_was_read() {
    let ps = params(&["t=@t.txt", "j:=@j.json"]);
    let files = vec![
        FileInput::Text("hello".to_string()),
        FileInput::Text("{\"k\": true}".to_string()),
    ];
    let r = build_request(&app(), Verb::Post, &mut None, "http://h", &ps, &files).unwrap();
    assert_eq!(
        r.body,
        Body::Json(vec![
            ("t".to_string(), BodyValue::Text("hello".to_string())),
            ("j".to_string(), BodyValue::Json("{\"k\": true}".to_string())),
        ])
    );
}

#[test]
fn unreadable_file_is_an_io_error_with_its_path() {
    let ps = params(&["t=@missing.txt"]);
    let r = build_request(&app(), Verb::Post, &mut None, "http://h", &ps, &vec![FileInput::Unread]);
    assert_eq!(r, Err(Error::IO("missing.txt".to_string())));
    let ps = params(&["j:=@bad.json"]);
    let r = build_request(&app(), Verb::Post, &mut None, "http://h", &ps, &vec![FileInput::Text("{".to_string())]);
    assert_eq!(r, Err(Error::SerdeJson));
}

#[test]
fn uploads_make_a_multipart_body() {
    let a = App { form: true, ..app() };
    let ps = params(&["f@/tmp/f.txt", "a=1", "b:=2", "t=@t.txt", "j:=@j.json"]);
    let files = vec![
        FileInput::Bytes(vec![1, 2, 3]),
        FileInput::Unread,
        FileInput::Unread,
        FileInput::Text("text".to_string()),
        FileInput::Text("[true]".to_string()),
    ];
    let r = build_request(&a, Verb::Post, &mut None, "http://h", &ps, &files).unwrap();
    assert_eq!(
        r.body,
        Body::Multipart(vec![
            Part::File { key: "f".into(), path: "/tmp/f.txt".into(), contents: vec![1, 2, 3] },
            Part::Text { key: "a".into(), value: "1".into() },
            Part::Text { key: "b".into(), value: "2".into() },
            Part::Text { key: "t".into(), value: "text".into() },
            Part::Text { key: "j".into(), value: "[true]".into() },
        ])
    );
}

#[test]
fn unreadable_upload_is_an_io_error_in_order() {
    let a = App { form: true, ..app() };
    let ps = params(&["f@/missing", "b:=[1"]);
    let files = vec![FileInput::Unread, FileInput::Unread];
    let r = build_request(&a, Verb::Post, &mut None, "http://h", &ps, &files);
    assert_eq!(r, Err(Error::IO("/missing".to_string())));
    let ps = params(&["b:=[1", "f@/missing"]);
    let r = build_request(&a, Verb::Post, &mut None, "http://h", &ps, &files);
    assert_eq!(r, Err(Error::SerdeJson));
}

#[test]
fn session_headers_come_first_and_parameters_override() {
    let a = App { auth: Some("u:p".to_string()), token: Some("tok".to_string()), ..app() };
    let s = Session::from_parts(
        "/c/s.json".into(),
        "s".into(),
        "h".into(),
        None,
        None,
        pairs(&[("X-A", "old"), ("X-B", "keep")]),
        pairs(&[("c", "1")]),
    );
    let mut session = Some(s);
    let ps = params(&["X-A:new", "Content-Type:text/plain"]);
    let r = build_request(&a, Verb::Get, &mut session, "http://h", &ps, &vec![FileInput::Unread, FileInput::Unread]).unwrap();
    assert_eq!(
        r.headers,
        pairs(&[("X-A", "new"), ("X-B", "keep"), ("Cookie", "c=1"), ("Content-Type", "text/plain")])
    );
    assert_eq!(r.basic_auth, Some(Credentials::Basic { username: "u".into(), password: Some("p".into()) }));
    assert_eq!(r.bearer_token, Some("tok".to_string()));
    let s = session.unwrap();
    assert_eq!(s.headers(), &pairs(&[("X-A", "new"), ("X-B", "keep")]));
    assert_eq!(s.auth(), &Some("u:p".to_string()));
    assert_eq!(s.token(), &Some("tok".to_string()));
}

#[test]
fn read_only_leaves_the_session_alone() {
    let a = App { read_only: true, auth: Some("u".to_string()), ..app() };
    let s = Session::from_parts("/p".into(), "s".into(), "h".into(), None, None, vec![], vec![]);
    let mut session = Some(s.clone());
    let ps = params(&["X-A:1"]);
    let r = build_request(&a, Verb::Get, &mut session, "http://h", &ps, &vec![FileInput::Unread]).unwrap();
    assert_eq!(session, Some(s));
    assert_eq!(r.basic_auth, Some(Credentials::Prompt { username: "u".into() }));
}

#[test]
fn default_verb_posts_only_with_data() {
    assert_eq!(default_verb(&params(&["a:b", "c==d"])), Verb::Get);
    assert_eq!(default_verb(&params(&["a:b", "c=d"])), Verb::Post);
    assert_eq!(default_verb(&vec![]), Verb::Get);
}

#[test]
fn parameter_step_follows_the_json_verdict() {
    let p = parse_param("a:=[1]").unwrap();
    let mut r = RequestSpec::new(Verb::Post, "http://h/".to_string());
    let mut data = Vec::new();
    let mut parts = Vec::new();
    assert_eq!(
        apply_parameter(&mut r, &mut data, &mut parts, &p, &FileInput::Unread, false, false),
        Err(Error::SerdeJson)
    );
    assert_eq!(apply_parameter(&mut r, &mut data, &mut parts, &p, &FileInput::Unread, false, true), Ok(()));
    assert_eq!(data, vec![("a".to_string(), BodyValue::Json("[1]".to_string()))]);
    let f = parse_param("b:=@b.json").unwrap();
    assert_eq!(
        apply_parameter(&mut r, &mut data, &mut parts, &f, &FileInput::Unread, false, true),
        Err(Error::IO("b.json".to_string()))
    );
}
