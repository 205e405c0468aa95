use alistral::config::{Config, ConfigCli, ConfigCommands, ConfigError, ParsedTimeout, UserToken};
use alistral::filters::timeouts::TimeoutRegistry;

fn empty() -> Config {
    Config::new(Vec::new(), TimeoutRegistry::new())
}

#[test]
fn set_token_adds_and_replaces() {
    let mut config = empty();
    assert_eq!(config.get_token(&"ann".to_string()), None);
    config.set_token("ann".to_string(), "one".to_string());
    config.set_token("bob".to_string(), "two".to_string());
    config.set_token("ann".to_string(), "three".to_string());
    assert_eq!(config.get_token(&"ann".to_string()), Some(&"three".to_string()));
    assert_eq!(config.get_token(&"bob".to_string()), Some(&"two".to_string()));
    assert_eq!(config.get_token(&"Ann".to_string()), None);
}

#[test]
fn configuration_can_be_read_back() {
    let mut config = empty();
    config.set_token("ann".to_string(), "one".to_string());
    config.set_token("bob".to_string(), "two".to_string());
    config.set_token("ann".to_string(), "three".to_string());
    config.set_timeout("abc".to_string(), 77);
    let tokens: Vec<(String, String)> =
        config.user_tokens().iter().map(|t| (t.username.clone(), t.token.clone())).collect();
    assert_eq!(
        tokens,
        vec![("ann".to_string(), "three".to_string()), ("bob".to_string(), "two".to_string())]
    );
    let held: Vec<(String, i64)> =
        config.recording_timeouts().entries().iter().map(|t| (t.mbid.clone(), t.until)).collect();
    assert_eq!(held, vec![("abc".to_string(), 77)]);
}

#[test]
fn first_entry_of_a_user_counts() {
    let config = Config::new(
        vec![
            UserToken { username: "ann".to_string(), token: "first".to_string() },
            UserToken { username: "ann".to_string(), token: "second".to_string() },
        ],
        TimeoutRegistry::new(),
    );
    assert_eq!(config.get_token(&"ann".to_string()), Some(&"first".to_string()));
}

#[test]
fn set_token_command_sets_the_token() {
    let mut config = empty();
    let command =
        ConfigCommands::SetToken { username: "ann".to_string(), token: "secret".to_string() };
    assert_eq!(command.run(&mut config, None, 0), Ok(()));
    assert_eq!(config.get_token(&"ann".to_string()), Some(&"secret".to_string()));
}

#[test]
fn timeout_command_holds_the_recording_from_now_on() {
    let mut config = empty();
    let cli = ConfigCli {
        command: ConfigCommands::Timeout {
            recording: "https://musicbrainz.org/recording/abc".to_string(),
            duration: "1h".to_string(),
        },
    };
    let parsed = ParsedTimeout { mbid: "abc".to_string(), seconds: 3_600 };
    assert_eq!(cli.run(&mut config, Some(parsed), 10_000), Ok(()));
    let registry = config.recording_timeouts();
    assert!(registry.is_timed_out(&"abc".to_string(), 10_000));
    assert!(registry.is_timed_out(&"abc".to_string(), 13_599));
    assert!(!registry.is_timed_out(&"abc".to_string(), 13_600));
    assert!(!registry.is_timed_out(&"abd".to_string(), 10_000));
}

#[test]
fn timeout_command_that_cannot_be_read_fails_and_changes_nothing() {
    let mut config = empty();
    config.set_token("ann".to_string(), "one".to_string());
    let command =
        ConfigCommands::Timeout { recording: "what".to_string(), duration: "ever".to_string() };
    assert_eq!(command.run(&mut config, None, 10_000), Err(ConfigError::UnreadableTimeout));
    assert_eq!(config.get_token(&"ann".to_string()), Some(&"one".to_string()));
    assert!(!config.recording_timeouts().is_timed_out(&"what".to_string(), 10_000));
}

#[test]
fn timeout_ends_no_later_than_the_last_timestamp() {
    let mut config = empty();
    let command = ConfigCommands::Timeout { recording: "abc".to_string(), duration: "long".to_string() };
    let parsed = ParsedTimeout { mbid: "abc".to_string(), seconds: u64::MAX };
    assert_eq!(command.run(&mut config, Some(parsed), i64::MAX - 1), Ok(()));
    assert!(config.recording_timeouts().is_timed_out(&"abc".to_string(), i64::MAX - 1));
    assert!(!config.recording_timeouts().is_timed_out(&"abc".to_string(), i64::MAX));
}
