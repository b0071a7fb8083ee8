use pinginfo::config::{bind_address, config_values, parse_cli, CliError, CliOptions};
use pinginfo::text::IntErrorKind;

fn args(list: &[&str]) -> Vec<String> {
    list.iter().map(|s| s.to_string()).collect()
}

// Which arguments read as IP addresses; in the service this is asked of the standard library.
fn ip_flags(list: &[&str], ips: &[&str]) -> Vec<bool> {
    list.iter().map(|a| ips.contains(a)).collect()
}

#[test]
fn defaults_listen_on_all_interfaces() {
    let config = config_values(None, None, None);

    assert_eq!(config.bind, "0.0.0.0:18080");
    assert_eq!(config.database_path, "data/pinginfo.db");
    assert_eq!(config.retention_days, 30);
}

#[test]
fn explicit_values_override_defaults() {
    let config = config_values(
        Some("0.0.0.0:8080".into()),
        Some("/app/data/pinginfo.db".into()),
        Some("7".into()),
    );

    assert_eq!(config.bind, "0.0.0.0:8080");
    assert_eq!(config.database_path, "/app/data/pinginfo.db");
    assert_eq!(config.retention_days, 7);
}

#[test]
fn retention_that_is_not_a_number_falls_back_to_thirty_days() {
    assert_eq!(config_values(None, None, Some("seven".into())).retention_days, 30);
    assert_eq!(config_values(None, None, Some("".into())).retention_days, 30);
    assert_eq!(config_values(None, None, Some(" 7".into())).retention_days, 30);
    assert_eq!(config_values(None, None, Some("+7".into())).retention_days, 7);
    assert_eq!(config_values(None, None, Some("-3".into())).retention_days, -3);
    assert_eq!(
        config_values(None, None, Some("9223372036854775808".into())).retention_days,
        30
    );
}

#[test]
fn parses_short_host_and_port_arguments() {
    let list = ["-h", "127.0.0.1", "-p", "18080"];
    let options = parse_cli(&args(&list), &ip_flags(&list, &["127.0.0.1"])).unwrap();

    assert_eq!(
        options,
        CliOptions {
            host: Some("127.0.0.1".to_string()),
            port: Some(18080),
            ..CliOptions::default()
        }
    );
}

#[test]
fn rejects_unknown_arguments() {
    let list = ["--bind", "0.0.0.0"];
    let error = parse_cli(&args(&list), &ip_flags(&list, &["0.0.0.0"])).unwrap_err();

    assert!(error.message().contains("unknown argument"));
    assert_eq!(error, CliError::UnknownArgument("--bind".to_string()));
}

#[test]
fn parses_version_flag() {
    let list = ["--version"];
    let options = parse_cli(&args(&list), &ip_flags(&list, &[])).unwrap();

    assert!(options.show_version);
    assert!(!options.show_help);
    assert_eq!(options.host, None);
    assert_eq!(options.port, None);
}

#[test]
fn long_options_and_help_flag() {
    let list = ["--host", "::1", "--port", "80", "--help", "-V"];
    let options = parse_cli(&args(&list), &ip_flags(&list, &["::1"])).unwrap();
    assert_eq!(options.host, Some("::1".to_string()));
    assert_eq!(options.port, Some(80));
    assert!(options.show_help);
    assert!(options.show_version);
}

#[test]
fn later_options_replace_earlier_ones() {
    let list = ["-p", "1", "-p", "2"];
    let options = parse_cli(&args(&list), &ip_flags(&list, &[])).unwrap();
    assert_eq!(options.port, Some(2));
}

#[test]
fn option_without_value_is_refused() {
    let list = ["-p"];
    let error = parse_cli(&args(&list), &ip_flags(&list, &[])).unwrap_err();
    assert_eq!(error, CliError::MissingValue("-p".to_string()));
    assert_eq!(error.message(), "missing value for -p");
}

#[test]
fn bad_host_is_refused_where_it_stands() {
    let list = ["-h", "not-an-ip", "--bogus"];
    let error = parse_cli(&args(&list), &ip_flags(&list, &[])).unwrap_err();
    assert_eq!(error, CliError::InvalidHost("not-an-ip".to_string()));
    assert_eq!(error.message(), "invalid IP address syntax");
}

#[test]
fn bad_ports_report_the_integer_error() {
    let cases = [
        ("", IntErrorKind::Empty, "cannot parse integer from empty string"),
        ("8o", IntErrorKind::InvalidDigit, "invalid digit found in string"),
        ("-1", IntErrorKind::InvalidDigit, "invalid digit found in string"),
        ("65536", IntErrorKind::PosOverflow, "number too large to fit in target type"),
        ("99999x", IntErrorKind::PosOverflow, "number too large to fit in target type"),
    ];
    for (value, kind, message) in cases {
        let list = ["-p", value];
        let error = parse_cli(&args(&list), &ip_flags(&list, &[])).unwrap_err();
        assert_eq!(error, CliError::InvalidPort(value.to_string(), kind));
        assert_eq!(error.message(), message);
    }
}

#[test]
fn cli_host_and_port_override_environment_bind() {
    let cli = CliOptions {
        host: Some("127.0.0.1".to_string()),
        port: Some(18080),
        ..CliOptions::default()
    };
    // The configured address "0.0.0.0:8080", as the service splits it into host and port.
    let (host, port) = bind_address("0.0.0.0".to_string(), 8080, &cli);

    assert_eq!(format!("{host}:{port}"), "127.0.0.1:18080");
}

#[test]
fn cli_port_reuses_host_from_environment_bind() {
    let cli = CliOptions {
        host: None,
        port: Some(19090),
        ..CliOptions::default()
    };
    // The configured address "0.0.0.0:8080", as the service splits it into host and port.
    let (host, port) = bind_address("0.0.0.0".to_string(), 8080, &cli);

    assert_eq!(format!("{host}:{port}"), "0.0.0.0:19090");
}
