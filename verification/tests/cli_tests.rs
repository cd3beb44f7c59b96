use docker_intrude::cli::{check_config, is_valid_docker_identifier, parse_args, CliError, Config, Flag, Invocation};

fn args(list: &[&str]) -> Vec<String> {
    list.iter().map(|s| s.to_string()).collect()
}

fn run_config(list: &[&str]) -> Config {
    match parse_args(&args(list)) {
        Ok(Invocation::Run(c)) => c,
        Ok(_) => panic!("expected a command to run"),
        Err(e) => panic!("refused: {}", e.message()),
    }
}

fn error_of(list: &[&str]) -> String {
    match parse_args(&args(list)) {
        Err(e) => e.message(),
        Ok(_) => panic!("expected a refusal"),
    }
}

#[test]
fn parses_full_command_line() {
    let c = run_config(&["--name", "my-project", "--net", "dev-net", "--ip", "172.18.0.22", "--", "./mvn", "spring-boot:run"]);
    assert_eq!(c.name, "my-project");
    assert_eq!(c.net, "dev-net");
    assert_eq!(c.ip, "172.18.0.22");
    assert!(!c.quiet && !c.verbose && !c.strict);
    assert_eq!(c.cmd, vec!["./mvn".to_string(), "spring-boot:run".to_string()]);
}

#[test]
fn short_flags_and_switches() {
    let c = run_config(&["-n", "box", "--net", "n1", "--ip", "10.0.0.2", "-q", "-v", "--strict", "ping", "-c", "1"]);
    assert_eq!(c.name, "box");
    assert!(c.quiet && c.verbose && c.strict);
    assert_eq!(c.cmd, vec!["ping".to_string(), "-c".to_string(), "1".to_string()]);
}

#[test]
fn long_switches() {
    let c = run_config(&["--quiet", "--verbose", "--name", "a", "--net", "b", "--ip", "::1", "--", "ls"]);
    assert!(c.quiet && c.verbose && !c.strict);
}

#[test]
fn later_flag_overrides_earlier() {
    let c = run_config(&["--name", "first", "--name", "second", "--net", "b", "--ip", "1.2.3.4", "true"]);
    assert_eq!(c.name, "second");
}

#[test]
fn separator_passes_flag_like_arguments() {
    let c = run_config(&["--name", "a", "--net", "b", "--ip", "1.2.3.4", "--", "--name", "-x", "--"]);
    assert_eq!(c.cmd, vec!["--name".to_string(), "-x".to_string(), "--".to_string()]);
    assert_eq!(c.name, "a");
}

#[test]
fn help_among_wrapper_arguments_wins() {
    assert!(matches!(parse_args(&args(&["--name", "a", "-h", "--", "ls"])), Ok(Invocation::Help)));
    assert!(matches!(parse_args(&args(&["--help", "--version"])), Ok(Invocation::Help)));
    assert!(matches!(parse_args(&args(&["--bogus", "--help"])), Ok(Invocation::Help)));
    assert!(matches!(parse_args(&args(&["--name", "--help"])), Ok(Invocation::Help)));
}

#[test]
fn help_after_separator_belongs_to_command() {
    let c = run_config(&["--name", "a", "--net", "b", "--ip", "10.0.0.1", "--", "ls", "--help"]);
    assert_eq!(c.cmd, vec!["ls".to_string(), "--help".to_string()]);
    let c = run_config(&["--name", "a", "--net", "b", "--ip", "10.0.0.1", "grep", "-h", "-V", "x"]);
    assert_eq!(c.cmd, vec!["grep".to_string(), "-h".to_string(), "-V".to_string(), "x".to_string()]);
    let c = run_config(&["--name", "a", "--net", "b", "--ip", "10.0.0.1", "--", "--version"]);
    assert_eq!(c.cmd, vec!["--version".to_string()]);
}

#[test]
fn version_request() {
    assert!(matches!(parse_args(&args(&["-V"])), Ok(Invocation::Version)));
    assert!(matches!(parse_args(&args(&["--net", "x", "--version"])), Ok(Invocation::Version)));
    assert!(matches!(parse_args(&args(&["--net", "x", "-V", "ls", "-h"])), Ok(Invocation::Version)));
}

#[test]
fn missing_values() {
    assert_eq!(error_of(&["--name"]), "Missing value for --name");
    assert_eq!(error_of(&["--name", "a", "--net"]), "Missing value for --net");
    assert_eq!(error_of(&["--ip"]), "Missing value for --ip");
    assert!(matches!(parse_args(&args(&["-n"])), Err(CliError::MissingValue(Flag::Name))));
}

#[test]
fn unknown_flag() {
    assert_eq!(error_of(&["--name", "a", "--bogus", "ls"]), "Unknown flag: --bogus");
    assert_eq!(error_of(&["-"]), "Unknown flag: -");
}

#[test]
fn missing_command_and_flags() {
    assert_eq!(error_of(&["--name", "a", "--net", "b", "--ip", "1.1.1.1"]), "Missing command to execute");
    assert_eq!(error_of(&["--name", "a", "--net", "b", "--ip", "1.1.1.1", "--"]), "Missing command to execute");
    assert_eq!(error_of(&[]), "Missing command to execute");
    assert_eq!(error_of(&["--net", "b", "--ip", "1.1.1.1", "ls"]), "Missing required flag: --name");
    assert_eq!(error_of(&["--name", "a", "--ip", "1.1.1.1", "ls"]), "Missing required flag: --net");
    assert_eq!(error_of(&["--name", "a", "--net", "b", "ls"]), "Missing required flag: --ip");
}

#[test]
fn command_is_checked_before_flags() {
    assert_eq!(error_of(&["--quiet"]), "Missing command to execute");
}

#[test]
fn identifiers() {
    assert!(is_valid_docker_identifier("my-project_1.a"));
    assert!(is_valid_docker_identifier("A"));
    assert!(!is_valid_docker_identifier(""));
    assert!(!is_valid_docker_identifier("-net"));
    assert!(!is_valid_docker_identifier("bad name"));
    assert!(!is_valid_docker_identifier("na/me"));
    assert!(!is_valid_docker_identifier("café"));
}

#[test]
fn check_config_order_and_messages() {
    let c = run_config(&["--name", "bad name", "--net", "n", "--ip", "nope", "ls"]);
    match check_config(c, false) {
        Err(e) => assert_eq!(e.message(), "Invalid IP format ('nope')"),
        Ok(_) => panic!("expected a refusal"),
    }
    let c = run_config(&["--name", "bad name", "--net", "n", "--ip", "1.2.3.4", "ls"]);
    match check_config(c, true) {
        Err(e) => assert_eq!(e.message(), "Invalid network or container identifier syntax"),
        Ok(_) => panic!("expected a refusal"),
    }
    let c = run_config(&["--name", "good", "--net", "-n", "--ip", "1.2.3.4", "ls"]);
    assert!(matches!(check_config(c, true), Err(CliError::InvalidIdentifier)));
    let c = run_config(&["--name", "good", "--net", "net", "--ip", "1.2.3.4", "ls"]);
    let checked = check_config(c, true).ok().expect("accepted");
    assert_eq!(checked.name, "good");
    assert_eq!(checked.cmd, vec!["ls".to_string()]);
}
