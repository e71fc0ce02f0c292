use memorize_mcp::cli::{parse_args, parse_port, ArgError, CliOutcome, DEFAULT_PORT};

fn args(xs: &[&str]) -> Vec<String> {
    let mut v = vec!["memorize-mcp".to_string()];
    v.extend(xs.iter().map(|s| s.to_string()));
    v
}

#[test]
fn defaults_without_options() {
    match parse_args(&args(&[]), "./embedding_model".to_string()) {
        Ok(CliOutcome::Run(a)) => {
            assert_eq!(a.transport, "stdio");
            assert_eq!(a.port, DEFAULT_PORT);
            assert_eq!(a.port, 19532);
            assert_eq!(a.hook_port, None);
            assert_eq!(a.db_path, None);
            assert_eq!(a.model_dir, "./embedding_model");
            assert!(!a.debug);
        }
        other => panic!("unexpected {:?}", other),
    }
}

#[test]
fn every_option() {
    let r = parse_args(
        &args(&["--transport", "http", "--port", "8080", "--hook-port", "19533", "--db-path", "/data", "--model-dir", "/m", "--debug"]),
        "./embedding_model".to_string(),
    );
    match r {
        Ok(CliOutcome::Run(a)) => {
            assert_eq!(a.transport, "http");
            assert_eq!(a.port, 8080);
            assert_eq!(a.hook_port, Some(19533));
            assert_eq!(a.db_path, Some("/data".to_string()));
            assert_eq!(a.model_dir, "/m");
            assert!(a.debug);
        }
        other => panic!("unexpected {:?}", other),
    }
}

#[test]
fn help_and_unknown() {
    assert!(matches!(parse_args(&args(&["-h"]), String::new()), Ok(CliOutcome::Help)));
    assert!(matches!(parse_args(&args(&["--debug", "--help", "--bogus"]), String::new()), Ok(CliOutcome::Help)));
    match parse_args(&args(&["--bogus", "--help"]), String::new()) {
        Ok(CliOutcome::Unknown(a)) => assert_eq!(a, "--bogus"),
        other => panic!("unexpected {:?}", other),
    }
}

#[test]
fn bad_ports() {
    match parse_args(&args(&["--port", "70000"]), String::new()) {
        Err(ArgError::InvalidPort(v)) => assert_eq!(v, "70000"),
        other => panic!("unexpected {:?}", other),
    }
    match parse_args(&args(&["--hook-port", "x1"]), String::new()) {
        Err(ArgError::InvalidHookPort(v)) => assert_eq!(v, "x1"),
        other => panic!("unexpected {:?}", other),
    }
}

#[test]
fn trailing_option_without_value_is_ignored() {
    match parse_args(&args(&["--port"]), String::new()) {
        Ok(CliOutcome::Run(a)) => assert_eq!(a.port, DEFAULT_PORT),
        other => panic!("unexpected {:?}", other),
    }
}

#[test]
fn port_numbers() {
    assert_eq!(parse_port("0"), Some(0));
    assert_eq!(parse_port("+80"), Some(80));
    assert_eq!(parse_port("65535"), Some(65535));
    assert_eq!(parse_port("65536"), None);
    assert_eq!(parse_port(""), None);
    assert_eq!(parse_port("+"), None);
    assert_eq!(parse_port("-1"), None);
    assert_eq!(parse_port("8o"), None);
    assert_eq!(parse_port("0008080"), Some(8080));
    assert_eq!(parse_port("99999999999999999999999"), None);
    for s in ["1", "443", "19532", "65535", "65536", "+7", "a"] {
        assert_eq!(parse_port(s), s.parse::<u16>().ok());
    }
}
