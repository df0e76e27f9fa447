use kitkat::antispam::config::AntiSpamConfig;
use kitkat::config::ConfigError;
use kitkat::deleted_messages::DeletedMessageConfig;
use kitkat::numbers::IntErrorKind;

#[test]
fn antispam_config_defaults_without_section() {
    let c = AntiSpamConfig::parse("[other]\nfoo\n").unwrap();
    assert_eq!(c, AntiSpamConfig::default());
    assert_eq!(c.duplicate_window_seconds, 12);
    assert_eq!(c.distinct_channels_threshold, 3);
    assert_eq!(c.alert_channel_id, None);
}

#[test]
fn antispam_config_reads_its_section() {
    let text = "# comment\n[antispam]\nalert_channel_id = \"123\" # alerts\nduplicate_window_seconds = 30\r\ndistinct_channels_threshold = 4\nunknown = x\n[deleted_messages]\ndatabase_path = \"db.sqlite3\"\n";
    let c = AntiSpamConfig::parse(text).unwrap();
    assert_eq!(c.alert_channel_id, Some(123));
    assert_eq!(c.duplicate_window_seconds, 30);
    assert_eq!(c.distinct_channels_threshold, 4);
}

#[test]
fn antispam_config_errors() {
    match AntiSpamConfig::parse("[antispam]\nnot a pair\n") {
        Err(ConfigError::ExpectedKeyValue { line }) => assert_eq!(line, 2),
        _ => panic!("expected a key = value error"),
    }
    match AntiSpamConfig::parse("[antispam]\n\nduplicate_window_seconds = 0") {
        Err(ConfigError::NotPositive { line, key }) => {
            assert_eq!(line, 3);
            assert_eq!(key, "duplicate_window_seconds");
        }
        _ => panic!("expected a positive-number error"),
    }
    match AntiSpamConfig::parse("[antispam]\ndistinct_channels_threshold = 1") {
        Err(ConfigError::TooSmall { line, .. }) => assert_eq!(line, 2),
        _ => panic!("expected a too-small error"),
    }
    match AntiSpamConfig::parse("[antispam]\nalert_channel_id = abc") {
        Err(ConfigError::InvalidNumber { line, key, raw, kind }) => {
            assert_eq!(line, 2);
            assert_eq!(key, "alert_channel_id");
            assert_eq!(raw, "abc");
            assert_eq!(kind, IntErrorKind::InvalidDigit);
        }
        _ => panic!("expected an invalid-number error"),
    }
    match AntiSpamConfig::parse("[antispam]\nalert_channel_id = 0") {
        Err(ConfigError::ZeroId { line, .. }) => assert_eq!(line, 2),
        _ => panic!("expected a zero-id error"),
    }
}

#[test]
fn parsed_antispam_configs_are_sane() {
    for text in ["", "[antispam]\nduplicate_window_seconds = 1", "[antispam]\ndistinct_channels_threshold = 2"] {
        let c = AntiSpamConfig::parse(text).unwrap();
        assert!(c.duplicate_window_seconds > 0 && c.distinct_channels_threshold >= 2);
    }
}

#[test]
fn deleted_messages_config() {
    let text = "[deleted_messages]\ndatabase_path = \"logs.sqlite3\"\nlog_channel_id = 5\n[deleted_messages.log_channels]\n10 = 20\n11 = \"21\"\n";
    let c = DeletedMessageConfig::parse(text).unwrap();
    assert_eq!(c.database_path, "logs.sqlite3");
    assert_eq!(c.log_channel_for(Some(10)), Some(20));
    assert_eq!(c.log_channel_for(Some(11)), Some(21));
    assert_eq!(c.log_channel_for(Some(12)), None);
    assert_eq!(c.log_channel_for(None), None);
    assert!(!c.should_remember(Some(10), 20));
    assert!(c.should_remember(Some(10), 21));
    assert!(c.should_remember(None, 20));

    let d = DeletedMessageConfig::parse("").unwrap();
    assert_eq!(d.database_path, "kitkat_deleted_messages.sqlite3");
    assert!(d.log_channels.is_empty());

    match DeletedMessageConfig::parse("[other]\nflag") {
        Err(ConfigError::ExpectedKeyValue { line }) => assert_eq!(line, 2),
        _ => panic!("every section's lines must be key = value"),
    }
    match DeletedMessageConfig::parse("[deleted_messages.log_channels]\nabc = 1") {
        Err(ConfigError::InvalidNumber { key, raw, .. }) => {
            assert_eq!(key, "guild_id");
            assert_eq!(raw, "abc");
        }
        _ => panic!("expected an invalid guild id"),
    }
    match DeletedMessageConfig::parse("[deleted_messages.log_channels]\n5 = x") {
        Err(ConfigError::InvalidNumber { key, raw, .. }) => {
            assert_eq!(key, "5");
            assert_eq!(raw, "x");
        }
        _ => panic!("expected an invalid channel id"),
    }
}

#[test]
fn config_error_messages() {
    let e = AntiSpamConfig::parse("[antispam]\nalert_channel_id = abc").err().unwrap();
    assert_eq!(e.describe(), "Linea 2: `alert_channel_id` invalido (`abc`): invalid digit found in string");
    let e = AntiSpamConfig::parse("[antispam]\nx").err().unwrap();
    assert_eq!(e.describe(), "Linea 2: se esperaba key = value");
    let e = AntiSpamConfig::parse("[antispam]\nduplicate_window_seconds = -1").err().unwrap();
    assert_eq!(e.describe(), "Linea 2: `duplicate_window_seconds` debe ser mayor que 0");
    let e = AntiSpamConfig::parse("[antispam]\ndistinct_channels_threshold = 1").err().unwrap();
    assert_eq!(e.describe(), "Linea 2: `distinct_channels_threshold` debe ser al menos 2");
    assert_eq!(IntErrorKind::PosOverflow.description(), "number too large to fit in target type");
    assert_eq!("".parse::<u64>().unwrap_err().to_string(), IntErrorKind::Empty.description());
    assert_eq!("99999999999999999999".parse::<u64>().unwrap_err().to_string(), IntErrorKind::PosOverflow.description());
}

#[test]
fn legacy_log_channel_key_warnings() {
    let text = "[deleted_messages]\nlog_channel_id = 5\n[other]\nlog_channel_id = 6\n[deleted_messages]\nlog_channel_id = 7 # again\n";
    assert_eq!(DeletedMessageConfig::legacy_log_channel_warnings(text), 2);
    assert_eq!(DeletedMessageConfig::legacy_log_channel_warnings(""), 0);
    let failing = "[deleted_messages]\nlog_channel_id = 5\nbroken\nlog_channel_id = 6\n";
    assert_eq!(DeletedMessageConfig::parse(failing).err().unwrap().line(), 3);
    assert_eq!(DeletedMessageConfig::legacy_log_channel_warnings(failing), 1);
}
