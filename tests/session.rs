use hurl::{make_safe_pathname, App, Directories, Parameter, RequestSpec, Session, Verb};

fn dirs() -> Directories {
    Directories::new(Some("/home/u/.config".to_string())).unwrap()
}

fn header(key: &str, value: &str) -> Parameter {
    Parameter::Header { key: key.to_string(), value: value.to_string() }
}

fn pairs(ps: &[(&str, &str)]) -> Vec<(String, String)> {
    ps.iter().map(|(k, v)| (k.to_string(), v.to_string())).collect()
}

fn stored(headers: &[(&str, &str)]) -> Session {
    Session::from_parts(
        "/tmp/s.json".to_string(),
        "s".to_string(),
        "example_com".to_string(),
        None,
        None,
        pairs(headers),
        Vec::new(),
    )
}

#[test]
fn safe_pathname_replaces_unsafe_characters() {
    assert_eq!(make_safe_pathname("http://example.com:8080/a b"), "http___example_com_8080_a b");
    assert_eq!(make_safe_pathname("Az09_- "), "Az09_- ");
    assert_eq!(make_safe_pathname("é"), "_");
    assert_eq!(make_safe_pathname(""), "");
}

#[test]
fn safe_pathname_is_idempotent() {
    for s in ["http://x.y/z?q=1", "plain", "ü:ö", ""] {
        let once = make_safe_pathname(s);
        assert_eq!(make_safe_pathname(&once), once);
    }
}

#[test]
fn new_session_path_is_derived_from_name_and_host() {
    let app = App::default();
    let s = Session::new(&app, &dirs(), "my session".to_string(), "example_com".to_string());
    assert_eq!(s.file_path(), "/home/u/.config/hurl/sessions/example_com/my session.json");
    assert_eq!(s.name(), "my session");
    assert_eq!(s.host(), "example_com");
    assert!(s.headers().is_empty());
    assert!(s.cookies().is_empty());
    assert_eq!(s.auth(), &None);
}

#[test]
fn session_dir_prefers_the_app_directory() {
    let mut app = App::default();
    app.session_dir = Some("/var/sessions/".to_string());
    assert_eq!(Session::dir(&app, &dirs(), "a.b"), "/var/sessions/a_b");
    assert_eq!(Session::path(&app, &dirs(), "n/1", "a.b"), "/var/sessions/a_b/n_1.json");
}

#[test]
fn stored_session_gets_its_path_recomputed() {
    let app = App::default();
    let s = Session::get_or_create(
        &app,
        &dirs(),
        "s".to_string(),
        "example_com".to_string(),
        Some(stored(&[("X-Foo", "1")])),
    );
    assert_eq!(s.file_path(), "/home/u/.config/hurl/sessions/example_com/s.json");
    assert_eq!(s.headers(), &pairs(&[("X-Foo", "1")]));
    let fresh = Session::get_or_create(&app, &dirs(), "t".to_string(), "h".to_string(), None);
    assert_eq!(fresh, Session::new(&app, &dirs(), "t".to_string(), "h".to_string()));
}

#[test]
fn content_type_is_not_stored_and_other_headers_survive() {
    let mut s = stored(&[("X-Foo", "1")]);
    s.update_with_parameters(&vec![header("Content-Type", "text/plain")]);
    assert_eq!(s.headers(), &pairs(&[("X-Foo", "1")]));
}

#[test]
fn per_request_headers_are_filtered_in_any_case() {
    let mut s = stored(&[]);
    s.update_with_parameters(&vec![
        header("CONTENT-length", "3"),
        header("If-None-Match", "x"),
        header("X-Bar", "2"),
        Parameter::Query { key: "q".into(), value: "1".into() },
        header("Contented", "yes"),
    ]);
    assert_eq!(s.headers(), &pairs(&[("X-Bar", "2"), ("Contented", "yes")]));
}

#[test]
fn later_header_replaces_stored_value_in_place() {
    let mut s = stored(&[("A", "1"), ("B", "2")]);
    s.update_with_parameters(&vec![header("A", "3"), header("C", "4")]);
    assert_eq!(s.headers(), &pairs(&[("A", "3"), ("B", "2"), ("C", "4")]));
}

#[test]
fn stored_duplicate_headers_keep_the_last() {
    let s = stored(&[("A", "1"), ("A", "2")]);
    assert_eq!(s.headers(), &pairs(&[("A", "2")]));
}

#[test]
fn missing_credentials_do_not_clear_stored_ones() {
    let mut s = stored(&[]);
    s.update_auth(&Some("u:p".to_string()), &Some("t1".to_string()));
    s.update_auth(&None, &None);
    assert_eq!(s.auth(), &Some("u:p".to_string()));
    assert_eq!(s.token(), &Some("t1".to_string()));
    s.update_auth(&None, &Some("t2".to_string()));
    assert_eq!(s.auth(), &Some("u:p".to_string()));
    assert_eq!(s.token(), &Some("t2".to_string()));
}

#[test]
fn response_cookies_accumulate() {
    let mut s = stored(&[]);
    s.update_with_response(&pairs(&[("a", "1")]));
    s.update_with_response(&pairs(&[("b", "2"), ("a", "3")]));
    assert_eq!(s.cookies(), &pairs(&[("a", "1"), ("b", "2"), ("a", "3")]));
}

#[test]
fn session_adds_headers_and_one_cookie_header() {
    let mut s = stored(&[("X-Foo", "1")]);
    s.update_with_response(&pairs(&[("a", "1"), ("b", "2")]));
    let mut r = RequestSpec::new(Verb::Get, "http://h/".to_string());
    s.add_to_request(&mut r);
    assert_eq!(r.headers, pairs(&[("X-Foo", "1"), ("Cookie", "a=1; b=2")]));
}

#[test]
fn no_cookie_header_without_cookies() {
    let s = stored(&[("X-Foo", "1")]);
    let mut r = RequestSpec::new(Verb::Get, "http://h/".to_string());
    s.add_to_request(&mut r);
    assert_eq!(r.headers, pairs(&[("X-Foo", "1")]));
}
