use kitkat::antispam::enforce::{enforce_step, EnforceAction, EnforceEvent, EnforceFailure, EnforceStage};
use kitkat::antispam::alert::alert_message;
use kitkat::antispam::cleanup::{
    has_next_pass, is_supported_channel, prioritize_channels, timeout_deadline, ChannelCleanup, ChannelKind,
};
use kitkat::antispam::config::AntiSpamConfig;
use kitkat::antispam::detector::detect_incident;
use kitkat::antispam::model::{
    elapsed_seconds, image_descriptor, is_image_attachment, normalize_content, truncate_text,
    MessageFingerprint, Observation, UserTracker,
};
use kitkat::antispam::AntiSpam;
use kitkat::message::{AttachmentInfo, MessageInfo};

fn image(name: &str) -> AttachmentInfo {
    AttachmentInfo {
        id: 1,
        filename: name.to_string(),
        url: format!("https://cdn.example/{name}"),
        proxy_url: String::new(),
        content_type: Some("image/PNG".to_string()),
        size: 1024,
        width: Some(640),
        height: Some(480),
    }
}

fn message(channel_id: u64, at: i64, attachments: Vec<AttachmentInfo>) -> MessageInfo {
    MessageInfo {
        id: channel_id * 10,
        guild_id: Some(1),
        channel_id,
        author_id: 2,
        author_name: "spammer".to_string(),
        author_is_bot: false,
        from_webhook: false,
        content: "  Promo   NITRO ".to_string(),
        created_at: at,
        attachments,
    }
}

fn config() -> AntiSpamConfig {
    AntiSpamConfig { alert_channel_id: Some(99), duplicate_window_seconds: 12, distinct_channels_threshold: 3 }
}

#[test]
fn normalizes_and_describes_messages() {
    assert_eq!(normalize_content("  Promo   NITRO \n free "), "promo nitro free");
    assert_eq!(normalize_content(""), "");
    assert_eq!(image_descriptor(&image("Banner.PNG")), "banner.png:1024:640:480:image/png");
    let mut bare = image("x.bin");
    bare.content_type = None;
    assert!(is_image_attachment(&bare));
    assert_eq!(image_descriptor(&bare), "x.bin:1024:640:480:unknown");
    bare.height = None;
    assert!(!is_image_attachment(&bare));
    let mut doc = image("a.pdf");
    doc.content_type = Some("application/pdf".to_string());
    assert!(!is_image_attachment(&doc));
}

#[test]
fn fingerprints_sort_their_images() {
    let m = message(10, 100, vec![image("b.png"), image("a.png")]);
    let f = MessageFingerprint::from_message(&m).unwrap();
    assert_eq!(f.normalized_content, "promo nitro");
    assert_eq!(f.image_descriptors, vec!["a.png:1024:640:480:image/png".to_string(), "b.png:1024:640:480:image/png".to_string()]);
    let other = MessageFingerprint::from_message(&message(11, 100, vec![image("a.png"), image("b.png")])).unwrap();
    assert!(f.same_as(&other));
    assert!(MessageFingerprint::from_message(&message(10, 100, vec![])).is_none());
}

#[test]
fn previews_and_truncation() {
    let empty = MessageFingerprint { normalized_content: String::new(), image_descriptors: vec![] };
    assert_eq!(empty.preview(), "(sin texto)");
    let long = "x".repeat(130);
    let f = MessageFingerprint { normalized_content: long.clone(), image_descriptors: vec![] };
    assert_eq!(f.preview(), format!("{}...", "x".repeat(120)));
    assert_eq!(truncate_text("abc", 3), "abc");
    assert_eq!(truncate_text("abcd", 3), "abc...");
    assert_eq!(elapsed_seconds(i64::MAX, -1), i64::MAX);
    assert_eq!(elapsed_seconds(i64::MIN, 1), i64::MIN);
    assert_eq!(elapsed_seconds(108, 100), 8);
}

#[test]
fn observations_skip_bots_webhooks_and_plain_text() {
    let mut m = message(10, 100, vec![image("a.png")]);
    assert!(Observation::from_message(&m).is_some());
    m.author_is_bot = true;
    assert!(Observation::from_message(&m).is_none());
    m.author_is_bot = false;
    m.from_webhook = true;
    assert!(Observation::from_message(&m).is_none());
    m.from_webhook = false;
    m.guild_id = None;
    assert!(Observation::from_message(&m).is_none());
    let plain = message(10, 100, vec![]);
    assert!(Observation::from_message(&plain).is_none());
}

#[test]
fn incident_from_messages_then_cooldown() {
    let mut spam = AntiSpam::new(config());
    assert!(spam.observe_message(&message(10, 100, vec![image("a.png")])).is_none());
    assert!(spam.observe_message(&message(11, 101, vec![image("a.png")])).is_none());
    let incident = spam.observe_message(&message(12, 102, vec![image("a.png")])).unwrap();
    assert_eq!(incident.channels, vec![10, 11, 12]);
    assert_eq!(incident.trigger_channel_id, 12);
    assert_eq!(incident.trigger_message_id, 120);
    assert_eq!(incident.preview, "promo nitro");
    // within the cooldown of 60 seconds nothing more is reported
    for (i, c) in [13u64, 14, 15].iter().enumerate() {
        assert!(spam.observe_message(&message(*c, 103 + i as i64, vec![image("a.png")])).is_none());
    }
    assert!(spam.observe_message(&message(16, 162, vec![image("a.png")])).is_none());
    // after it, a new burst is reported again
    assert!(spam.observe_message(&message(17, 170, vec![image("a.png")])).is_none());
    assert!(spam.observe_message(&message(18, 171, vec![image("a.png")])).is_none());
    assert!(spam.observe_message(&message(19, 172, vec![image("a.png")])).is_some());
}

#[test]
fn other_users_do_not_interfere() {
    let mut spam = AntiSpam::new(config());
    let mut other = message(20, 100, vec![image("a.png")]);
    other.author_id = 3;
    assert!(spam.observe_message(&message(10, 100, vec![image("a.png")])).is_none());
    assert!(spam.observe_message(&other).is_none());
    assert!(spam.observe_message(&message(11, 101, vec![image("a.png")])).is_none());
    other.channel_id = 21;
    assert!(spam.observe_message(&other).is_none());
    assert!(spam.observe_message(&message(12, 102, vec![image("a.png")])).is_some());
}

#[test]
fn detector_on_a_tracker() {
    let m = message(10, 100, vec![image("a.png")]);
    let o = Observation::from_message(&m).unwrap();
    let mut t = UserTracker::new();
    t.record(&o);
    assert!(detect_incident(&t, &o, 2).is_none());
    let incident = detect_incident(&t, &o, 1).unwrap();
    assert_eq!(incident.repeated_messages, 1);
    assert_eq!(incident.first_detected_at, 100);
    t.prune(113, 12);
    assert!(detect_incident(&t, &o, 1).is_none());
    t.mark_action(113);
    assert!(t.is_on_cooldown(173));
    assert!(!t.is_on_cooldown(174));
}

#[test]
fn alert_text() {
    let spam = AntiSpam::new(config());
    let m = message(10, 100, vec![image("a.png")]);
    let o = Observation::from_message(&m).unwrap();
    let mut t = UserTracker::new();
    t.record(&o);
    let incident = detect_incident(&t, &o, 1).unwrap();
    let (channel, text) = alert_message(&spam.config(), &incident, "2024-01-01T00:00:00Z", None, 2).unwrap();
    assert_eq!(channel, 99);
    assert_eq!(
        text,
        "[AntiSpam]\nUsuario: <@2>\nEstado: timeout aplicado hasta 2024-01-01T00:00:00Z\nBorrado: mensajes borrados tras sancion: 2\nCanales detectados: <#10>\nRepeticiones: 1\nVentana: 0 segundos\nContenido: promo nitro\nMensaje detonante: https://discord.com/channels/1/10/100"
    );
    let (_, failed) = alert_message(&spam.config(), &incident, "x", Some("sin permisos"), 0).unwrap();
    assert!(failed.contains("Estado: fallo al aplicar timeout: sin permisos\n"));
    let quiet = AntiSpamConfig { alert_channel_id: None, ..config() };
    assert!(alert_message(&quiet, &incident, "x", None, 0).is_none());
}

#[test]
fn cleanup_decisions() {
    assert_eq!(prioritize_channels(&[1, 2, 3, 4], &[3, 9, 1]), vec![3, 1, 2, 4]);
    assert!(is_supported_channel(ChannelKind::NewsThread));
    assert!(!is_supported_channel(ChannelKind::Other));
    assert!(has_next_pass(0));
    assert!(!has_next_pass(1));
    let mut c = ChannelCleanup::new(3);
    assert!(c.targets(2, 2));
    assert!(!c.targets(3, 2));
    assert!(!c.record_attempt(true));
    assert!(!c.record_attempt(false));
    assert!(!c.record_attempt(true));
    assert!(c.record_attempt(true));
    assert_eq!(c.deleted(), 3);
    let mut pages = ChannelCleanup::new(3);
    assert_eq!(pages.before(), None);
    assert!(!pages.accept_page(None));
    assert!(!pages.accept_page(Some(&[])));
    assert_eq!(pages.before(), None);
    assert!(pages.accept_page(Some(&[9, 8, 7])));
    assert_eq!(pages.before(), Some(7));
    assert!(pages.fetch_more());
    assert!(!pages.accept_page(Some(&[])));
    assert_eq!(pages.before(), Some(7));
}

#[test]
fn timeouts_last_a_week() {
    assert_eq!(timeout_deadline(1_700_000_000), Some(1_700_604_800));
    assert_eq!(timeout_deadline(0), Some(604_800));
    assert_eq!(timeout_deadline(9_000_000_000_000), None);
}

#[test]
fn incident_channels_are_the_copies_channels() {
    let two = AntiSpamConfig { distinct_channels_threshold: 2, ..config() };
    let mut spam = AntiSpam::new(two);
    assert!(spam.observe_message(&message(30, 80, vec![image("a.png")])).is_none());
    assert!(spam.observe_message(&message(10, 100, vec![image("a.png")])).is_none());
    assert!(spam.observe_message(&message(10, 101, vec![image("a.png")])).is_none());
    let incident = spam.observe_message(&message(11, 103, vec![image("a.png")])).unwrap();
    assert_eq!(incident.channels, vec![10, 11]);
    assert_eq!(incident.repeated_messages, 3);
    assert_eq!(incident.first_detected_at, 100);
}

#[test]
fn copies_with_images_in_another_order_are_the_same_spam() {
    let mut spam = AntiSpam::new(config());
    assert!(spam.observe_message(&message(10, 100, vec![image("a.png"), image("b.png")])).is_none());
    assert!(spam.observe_message(&message(11, 101, vec![image("b.png"), image("a.png")])).is_none());
    assert!(spam.observe_message(&message(12, 102, vec![image("a.png"), image("b.png")])).is_some());
}

#[test]
fn sanction_steps() {
    let (s, a) = enforce_step(EnforceStage::Idle, EnforceEvent::Begin { now: 1_700_000_000 });
    assert_eq!(a, EnforceAction::FetchMember { until: 1_700_604_800 });
    let (s2, a) = enforce_step(s, EnforceEvent::MemberFetched { ok: false });
    assert_eq!((s2, a), (EnforceStage::Finished, EnforceAction::Fail(EnforceFailure::Member)));
    let (s, a) = enforce_step(s, EnforceEvent::MemberFetched { ok: true });
    assert_eq!(a, EnforceAction::ApplyTimeout);
    let (s, a) = enforce_step(s, EnforceEvent::TimeoutApplied { ok: false });
    assert_eq!(a, EnforceAction::DeleteMessages);
    let (s, a) = enforce_step(s, EnforceEvent::MessagesDeleted { count: 4 });
    assert_eq!(a, EnforceAction::SendAlert { deleted: 4 });
    assert_eq!(enforce_step(s, EnforceEvent::AlertSent { ok: false }).1, EnforceAction::Fail(EnforceFailure::Alert));
    assert_eq!(enforce_step(s, EnforceEvent::AlertSent { ok: true }).1, EnforceAction::Fail(EnforceFailure::Timeout));
    let ok = EnforceStage::Alerting { timeout_failed: false };
    assert_eq!(enforce_step(ok, EnforceEvent::AlertSent { ok: true }), (EnforceStage::Finished, EnforceAction::Done));
    assert_eq!(
        enforce_step(EnforceStage::Idle, EnforceEvent::Begin { now: 9_000_000_000_000 }).1,
        EnforceAction::Fail(EnforceFailure::InvalidDeadline)
    );
    assert_eq!(enforce_step(EnforceStage::Idle, EnforceEvent::AlertSent { ok: true }), (EnforceStage::Idle, EnforceAction::Ignored));
}
