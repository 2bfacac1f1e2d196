use hurl::{
    classify_client_error, config_file, App, Config, Directories, Error, Method, MethodData,
};

fn dirs() -> Directories {
    Directories::new(Some("/home/u/.config".to_string())).unwrap()
}

#[test]
fn directories_live_under_the_platform_config() {
    assert_eq!(dirs().config(), "/home/u/.config/hurl");
    assert!(Directories::new(None).is_none());
}

#[test]
fn config_file_defaults_to_the_config_directory() {
    let app = App::default();
    assert_eq!(config_file(&app, &dirs()), "/home/u/.config/hurl/config");
    let app = App { config: Some("/etc/hurl.toml".to_string()), ..App::default() };
    assert_eq!(config_file(&app, &dirs()), "/etc/hurl.toml");
}

#[test]
fn config_fills_only_unset_settings() {
    let mut app = App { verbose: 2, token: Some("cli".to_string()), ..App::default() };
    let config = Config {
        verbose: Some(5),
        form: Some(true),
        auth: Some("u:p".to_string()),
        token: Some("file".to_string()),
        secure: Some(true),
    };
    app.process_config_file(Some(config));
    assert_eq!(app.verbose, 2);
    assert!(app.form);
    assert!(app.secure);
    assert_eq!(app.auth, Some("u:p".to_string()));
    assert_eq!(app.token, Some("cli".to_string()));
    let before = app.clone();
    app.process_config_file(None);
    assert_eq!(app, before);
}

#[test]
fn log_levels() {
    let level = |quiet: bool, verbose: u8| App { quiet, verbose, ..App::default() }.log_level();
    assert_eq!(level(false, 0), None);
    assert_eq!(level(false, 1), Some("error"));
    assert_eq!(level(false, 2), Some("warn"));
    assert_eq!(level(false, 3), Some("info"));
    assert_eq!(level(false, 4), Some("debug"));
    assert_eq!(level(false, 5), Some("trace"));
    assert_eq!(level(false, 200), Some("trace"));
    assert_eq!(level(true, 3), None);
}

#[test]
fn host_comes_from_the_url_or_the_method() {
    let app = App { url: Some("http://example.com".to_string()), ..App::default() };
    assert_eq!(app.host(), "http___example_com");
    let cmd = Method::GET(MethodData { url: "localhost:80".to_string(), parameters: vec![] });
    let app = App { cmd: Some(cmd), ..App::default() };
    assert_eq!(app.host(), "localhost_80");
}

#[test]
fn validate_needs_a_url_or_a_command() {
    assert_eq!(App::default().validate(), Err(Error::MissingUrlAndCommand));
    let mut app = App { url: Some("x".to_string()), ..App::default() };
    assert_eq!(app.validate(), Ok(()));
}

#[test]
fn method_data_and_verb() {
    let d = MethodData { url: "u".to_string(), parameters: vec![] };
    let m = Method::PATCH(d.clone());
    assert_eq!(m.data(), &d);
    assert_eq!(m.verb(), hurl::Verb::Patch);
}

#[test]
fn client_errors_are_classified_in_order() {
    assert_eq!(classify_client_error(true, true, Some(500)), Error::ClientSerialization);
    assert_eq!(classify_client_error(false, true, Some(500)), Error::ClientTimeout);
    assert_eq!(classify_client_error(false, false, Some(404)), Error::ClientWithStatus(404));
    assert_eq!(classify_client_error(false, false, None), Error::ClientOther);
}
