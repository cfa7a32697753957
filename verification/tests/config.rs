use twitch_relay::address::Address;
use twitch_relay::config::{check_channel, validate_channel, ChannelFault, Config, ConfigError};
use twitch_relay::log::{Level, LogHistory, LogMessage, LOG_LEN};

fn some(s: &str) -> Option<String> {
    Some(s.to_string())
}

#[test]
fn channel_names_in_order_pass() {
    assert_eq!(validate_channel("#togglebit"), None);
    assert_eq!(validate_channel("#a"), None);
    assert_eq!(validate_channel(&format!("#{}", "x".repeat(199))), None);
    assert_eq!(validate_channel("##"), None);
}

#[test]
fn channel_faults_are_named() {
    assert_eq!(validate_channel(""), Some("Channel name can not be empty".to_string()));
    assert_eq!(
        validate_channel("#"),
        Some("Channel name missing, specify a channel like so: #channel".to_string())
    );
    assert_eq!(
        validate_channel("togglebit"),
        Some("Channel name has to start with a # char, e.g #mychannel".to_string())
    );
    assert_eq!(
        validate_channel(&format!("#{}", "x".repeat(200))),
        Some("Channel name can not be longer than 200 characters".to_string())
    );
}

#[test]
fn missing_hash_is_named_before_length() {
    assert_eq!(
        validate_channel(&"x".repeat(500)),
        Some("Channel name has to start with a # char, e.g #mychannel".to_string())
    );
}

#[test]
fn channel_length_counts_characters() {
    let name = format!("#{}", "é".repeat(199));
    assert!(name.len() > 200);
    assert_eq!(validate_channel(&name), None);
    let name: Vec<char> = format!("#{}", "é".repeat(200)).chars().collect();
    assert_eq!(check_channel(&name), Some(ChannelFault::TooLong));
}

#[test]
fn check_channel_names_each_fault() {
    assert_eq!(check_channel(&[]), Some(ChannelFault::Empty));
    assert_eq!(check_channel(&['#']), Some(ChannelFault::NameMissing));
    assert_eq!(check_channel(&['a', '#']), Some(ChannelFault::HashMissing));
    assert_eq!(check_channel(&['#', 'a']), None);
    assert_eq!(ChannelFault::Empty.to_string(), "Channel name can not be empty");
}

#[test]
fn settings_in_order_make_a_config() {
    let config = Config::new(some("1234"), some("token"), some("bot"), some("#one,#two #three"))
        .unwrap();
    assert_eq!(config.channel_id, "1234");
    assert_eq!(config.token, "token");
    assert_eq!(config.nick, "bot");
    assert_eq!(config.irc_channels, vec!["#one", "#two", "#three"]);
}

#[test]
fn channel_names_are_trimmed() {
    let config = Config::new(some("1"), some("t"), some("n"), some("#one\t,\n#two")).unwrap();
    assert_eq!(config.irc_channels, vec!["#one", "#two"]);
}

#[test]
fn missing_settings_are_named_in_order() {
    let error = Config::new(None, None, None, None).unwrap_err();
    assert!(matches!(error, ConfigError::ChannelIdMissing));
    assert_eq!(error.to_string(), "Channel id missing");
    let error = Config::new(some("1"), None, None, None).unwrap_err();
    assert!(matches!(error, ConfigError::TokenMissing));
    assert_eq!(error.to_string(), "OAuth token missing");
    let error = Config::new(some("1"), some("t"), None, None).unwrap_err();
    assert!(matches!(error, ConfigError::NickMissing));
    assert_eq!(error.to_string(), "Nick is missing");
    let error = Config::new(some("1"), some("t"), some("n"), None).unwrap_err();
    assert!(matches!(error, ConfigError::ChannelsMissing));
    assert_eq!(error.to_string(), "Channels are missing");
}

#[test]
fn first_invalid_channel_is_named() {
    let error = Config::new(some("1"), some("t"), some("n"), some("#ok,bad,#")).unwrap_err();
    match &error {
        ConfigError::InvalidChannel { name, fault } => {
            assert_eq!(name, "bad");
            assert_eq!(*fault, ChannelFault::HashMissing);
        }
        other => panic!("unexpected error {:?}", other),
    }
    assert_eq!(
        error.to_string(),
        "Invalid irc channel name \"bad\": Channel name has to start with a # char, e.g #mychannel"
    );
}

#[test]
fn two_separators_in_a_row_give_an_empty_name() {
    let error = Config::new(some("1"), some("t"), some("n"), some("#one, #two")).unwrap_err();
    match &error {
        ConfigError::InvalidChannel { name, fault } => {
            assert_eq!(name, "");
            assert_eq!(*fault, ChannelFault::Empty);
        }
        other => panic!("unexpected error {:?}", other),
    }
    assert_eq!(
        error.to_string(),
        "Invalid irc channel name \"\": Channel name can not be empty"
    );
    assert!(Config::new(some("1"), some("t"), some("n"), some("")).is_err());
}

#[test]
fn log_line_has_the_sender_in_a_column() {
    let m = LogMessage::info(Address::Chat, "connected".to_string());
    assert_eq!(m.to_string(), "Chat            | connected");
    assert_eq!(m.level(), Level::Info);
    assert_eq!(m.sender(), Address::Chat);
    assert_eq!(m.message(), "connected");
    let m = LogMessage::error(Address::ChannelPoints, "closed".to_string());
    assert_eq!(m.to_string(), "ChannelPoints   | closed");
    assert_eq!(m.level(), Level::Error);
    let m = LogMessage::info(Address::Connection(12345), "".to_string());
    assert_eq!(m.to_string(), "Connection(1234 | ");
    let m = LogMessage::info(Address::Connection(12), "x".to_string());
    assert_eq!(m.to_string(), format!("{:15.15} | {}", "Connection(12)", "x"));
}

#[test]
fn log_history_lets_the_oldest_message_go() {
    let mut history = LogHistory::new();
    assert_eq!(history.len(), 0);
    for n in 0..LOG_LEN {
        history.record(LogMessage::info(Address::Connection(n), "x".to_string()));
        assert_eq!(history.len(), n + 1);
    }
    history.record(LogMessage::error(Address::Server, "y".to_string()));
    assert_eq!(history.len(), LOG_LEN);
    history.record(LogMessage::error(Address::Server, "z".to_string()));
    assert_eq!(history.len(), LOG_LEN);
}
