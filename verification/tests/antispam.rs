use kitkat::antispam::config::AntiSpamConfig;
use kitkat::antispam::model::{normalize_content, MessageFingerprint, Observation};
use kitkat::antispam::AntiSpam;

fn anti_spam() -> AntiSpam {
    AntiSpam::new(AntiSpamConfig {
        alert_channel_id: None,
        duplicate_window_seconds: 12,
        distinct_channels_threshold: 3,
    })
}

fn fingerprint(content: &str) -> MessageFingerprint {
    MessageFingerprint {
        normalized_content: normalize_content(content),
        image_descriptors: vec!["banner.png:1024:640:480:image/png".to_string()],
    }
}

fn observation(channel_id: u64, observed_at: i64) -> Observation {
    Observation {
        guild_id: 1,
        user_id: 2,
        channel_id,
        message_id: channel_id * 10,
        observed_at,
        fingerprint: fingerprint("Promo Nitro"),
    }
}

#[test]
fn antispam_detects_same_message_across_three_channels() {
    let mut anti_spam = anti_spam();

    assert!(anti_spam.observe(observation(10, 100)).is_none());
    assert!(anti_spam.observe(observation(11, 104)).is_none());

    let incident = anti_spam
        .observe(observation(12, 108))
        .expect("incident should be detected");

    assert_eq!(incident.repeated_messages, 3);
    assert_eq!(incident.channels.len(), 3);
    assert_eq!(incident.first_detected_at, 100);
    assert_eq!(incident.last_detected_at, 108);
}

#[test]
fn antispam_ignores_duplicates_inside_same_channel_only() {
    let mut anti_spam = anti_spam();

    assert!(anti_spam.observe(observation(10, 100)).is_none());
    assert!(anti_spam.observe(observation(10, 103)).is_none());
    assert!(anti_spam.observe(observation(11, 106)).is_none());
}

#[test]
fn antispam_ignores_old_messages_outside_window() {
    let mut anti_spam = anti_spam();

    assert!(anti_spam.observe(observation(10, 100)).is_none());
    assert!(anti_spam.observe(observation(11, 120)).is_none());
    assert!(anti_spam.observe(observation(12, 121)).is_none());
}

#[test]
fn mod_detects_same_message_across_three_channels() {
    let mut anti_spam = anti_spam();

    assert!(anti_spam.observe(observation(10, 100)).is_none());
    assert!(anti_spam.observe(observation(11, 104)).is_none());

    let incident = anti_spam
        .observe(observation(12, 108))
        .expect("incident should be detected");

    assert_eq!(incident.repeated_messages, 3);
    assert_eq!(incident.channels.len(), 3);
    assert_eq!(incident.first_detected_at, 100);
    assert_eq!(incident.last_detected_at, 108);
}

#[test]
fn mod_ignores_duplicates_inside_same_channel_only() {
    let mut anti_spam = anti_spam();

    assert!(anti_spam.observe(observation(10, 100)).is_none());
    assert!(anti_spam.observe(observation(10, 103)).is_none());
    assert!(anti_spam.observe(observation(11, 106)).is_none());
}

#[test]
fn mod_ignores_old_messages_outside_window() {
    let mut anti_spam = anti_spam();

    assert!(anti_spam.observe(observation(10, 100)).is_none());
    assert!(anti_spam.observe(observation(11, 120)).is_none());
    assert!(anti_spam.observe(observation(12, 121)).is_none());
}
