use desktop_cockpit::cli::{parse_config_path, CliRequest};

fn args(list: &[&str]) -> Vec<String> {
    list.iter().map(|a| a.to_string()).collect()
}

#[test]
fn reads_the_config_path() {
    assert_eq!(
        parse_config_path(&args(&["--config", "a.toml"])),
        Ok(CliRequest::Run {
            config_path: Some("a.toml".to_string())
        })
    );
    assert_eq!(
        parse_config_path(&args(&[])),
        Ok(CliRequest::Run { config_path: None })
    );
    assert_eq!(
        parse_config_path(&args(&["--config", "a.toml", "--config", "b.toml"])),
        Ok(CliRequest::Run {
            config_path: Some("b.toml".to_string())
        })
    );
}

#[test]
fn reports_bad_arguments() {
    assert_eq!(
        parse_config_path(&args(&["--config"])),
        Err("--config requires a path".to_string())
    );
    assert_eq!(
        parse_config_path(&args(&["--verbose", "--help"])),
        Err("unknown argument: --verbose".to_string())
    );
}

#[test]
fn asks_for_help() {
    assert_eq!(parse_config_path(&args(&["-h"])), Ok(CliRequest::Help));
    assert_eq!(
        parse_config_path(&args(&["--config", "a.toml", "--help", "--bogus"])),
        Ok(CliRequest::Help)
    );
}
