use reniced::config::{Config, MatcherConfig, ProcessConfig};
use reniced::matcher::ProcessMatcher;

/// A rule with every field set, shared by the tests below.
fn create_test_process_config() -> ProcessConfig {
    ProcessConfig {
        name: String::from("test_process"),
        owner: Some(String::from("test_user")),
        bin: String::from("/usr/bin/test"),
        nice: 10,
        matcher: MatcherConfig {
            kind: String::from("simple"),
            match_string: Some(String::from("test_process")),
            strip_path: Some(true),
        },
    }
}

#[test]
fn test_get_pattern_with_match_string() {
    let binding = Config::default();
    let process_config = create_test_process_config();
    let matcher = ProcessMatcher::new(&binding);

    let pattern = matcher.get_pattern(&process_config);
    assert_eq!(pattern, "test_process");
}

#[test]
fn test_get_pattern_without_match_string() {
    let binding = Config::default();
    let mut process_config = create_test_process_config();
    process_config.matcher.match_string = None;
    let matcher = ProcessMatcher::new(&binding);

    let pattern = matcher.get_pattern(&process_config);
    assert_eq!(pattern, "/usr/bin/test ");
}

#[test]
fn test_strip_path_from_command_with_valid_pattern() {
    let binding = Config::default();
    let matcher = ProcessMatcher::new(&binding);
    let cmd = "/usr/bin/test_process --arg value";
    let pattern = String::from("test_process ");

    let stripped = matcher.strip_path_from_command(cmd, &pattern);
    assert_eq!(stripped, "test_process --arg value");
}

#[test]
fn test_strip_path_from_command_with_invalid_pattern() {
    let binding = Config::default();
    let matcher = ProcessMatcher::new(&binding);
    let cmd = "/usr/bin/other_process --arg value";
    let pattern = String::from("test_process");

    let stripped = matcher.strip_path_from_command(cmd, &pattern);
    assert_eq!(stripped, cmd);
}

#[test]
fn test_prepare_command_with_strip_path() {
    let binding = Config::default();
    let matcher = ProcessMatcher::new(&binding);
    let cmd = "/usr/bin/test_process --arg value";
    let pattern = String::from("test_process");
    let mut matcher_config = MatcherConfig::default();
    matcher_config.strip_path = Some(true);

    let prepared_cmd = matcher.prepare_command(cmd, &pattern, &matcher_config);
    assert_eq!(prepared_cmd, "test_process --arg value");
}

#[test]
fn test_prepare_command_without_strip_path() {
    let binding = Config::default();
    let matcher = ProcessMatcher::new(&binding);
    let cmd = "/usr/bin/test_process --arg value";
    let pattern = String::from("test_process");
    let matcher_config = MatcherConfig::default();

    let prepared_cmd = matcher.prepare_command(cmd, &pattern, &matcher_config);
    assert_eq!(prepared_cmd, cmd);
}

#[test]
fn test_match_simple_with_matching_command() {
    let binding = Config::default();
    let matcher = ProcessMatcher::new(&binding);
    let cmd = "/usr/bin/test_process --arg value";
    let pattern = String::from("test_process");
    let mut matcher_config = MatcherConfig::default();
    matcher_config.strip_path = Some(true);

    let is_matched = matcher.match_simple(cmd, &pattern, &matcher_config);
    assert!(is_matched);
}

#[test]
fn test_match_simple_with_non_matching_command() {
    let binding = Config::default();
    let matcher = ProcessMatcher::new(&binding);
    let cmd = "/usr/bin/other_process --arg value";
    let pattern = String::from("test_process");
    let matcher_config = MatcherConfig::default();

    let is_matched = matcher.match_simple(cmd, &pattern, &matcher_config);
    assert!(!is_matched);
}
