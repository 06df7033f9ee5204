use zknotes::config::{parse_options, ConfigError, ZKConfig};

#[test]
fn cors_with_origin_mounts_preflight_routes() {
    let config = ZKConfig {
        root: String::from("."),
        path: String::from("/api"),
        cors: true,
        cors_origin: Some(String::from("https://notes.example")),
        repository: true,
    };
    let plan = parse_options(config).unwrap();
    assert_eq!(plan.cors_origin.as_deref(), Some("https://notes.example"));
    assert!(!plan.serve_static);
    assert_eq!(plan.api_mount, "/api");
    assert!(plan.require_repository);
}

#[test]
fn cors_without_origin_is_refused() {
    let config = ZKConfig {
        root: String::from("."),
        path: String::from("/api"),
        cors: true,
        cors_origin: None,
        repository: false,
    };
    let r = parse_options(config);
    assert_eq!(r.err(), Some(ConfigError::MissingCorsOrigin));
}

#[test]
fn without_cors_the_static_routes_are_mounted() {
    let config = ZKConfig {
        root: String::from("."),
        path: String::from("/notes"),
        cors: false,
        cors_origin: Some(String::from("ignored")),
        repository: false,
    };
    let plan = parse_options(config).unwrap();
    assert!(plan.serve_static);
    assert!(plan.cors_origin.is_none());
    assert_eq!(plan.api_mount, "/notes");
    assert!(!plan.require_repository);
}
