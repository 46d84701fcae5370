use mpclipboard_generic_client::config::{Config, ConfigError};

#[test]
fn valid_ws_and_wss_uris_are_accepted() {
    let c = Config::new("ws://127.0.0.1:3000", "t0ken", "cli").unwrap();
    assert_eq!(c.uri, "ws://127.0.0.1:3000");
    assert_eq!(c.token, "t0ken");
    assert_eq!(c.name, "cli");
    assert!(!c.uses_tls());

    let c = Config::new("wss://clipboard.example.dev/path", "t", "n").unwrap();
    assert!(c.uses_tls());
}

#[test]
fn bad_uris_are_rejected() {
    match Config::new("ws://exa mple.com", "t", "n") {
        Err(e) => assert_eq!(e, ConfigError::InvalidUri),
        Ok(_) => panic!("space in authority must not parse"),
    }
    match Config::new("https://example.com", "t", "n") {
        Err(e) => assert_eq!(e, ConfigError::BadScheme),
        Ok(_) => panic!("https scheme must be rejected"),
    }
    match Config::new("example.com:3000", "t", "n") {
        Err(e) => assert_eq!(e, ConfigError::BadScheme),
        Ok(_) => panic!("a scheme is required"),
    }
}

#[test]
fn describe_redacts_the_token() {
    let c = Config::new("ws://h:1", "hunter2-token", "name").unwrap();
    let shown = c.describe();
    assert!(!shown.contains("hunter2-token"));
    assert_eq!(shown, "Config { uri: ws://h:1, token: ******, name: name }");
}
