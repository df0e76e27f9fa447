use kitkat::buttons::{generate_row, plan_for_button, queue_refusal, replies_after_action, ButtonAction, ButtonPlan, QueueOperation};
use kitkat::deleted_messages::{
    deletion_log, deletion_log_embed, discord_timestamp, id_text, missing_message_log_embed,
    summarize_attachments, truncate_embed_field, visible_text, StoredMessage,
};
use kitkat::message::{AttachmentInfo, MessageInfo};
use kitkat::music::{is_direct_link, join_refusal, leave_refusal, must_start_playback, requester_line, resume_reply, select_tracks, song_heading, LoadResult, TrackSelection};
use kitkat::translate::{can_speak, clean_ai_reply, tidy_reply, voice_translation_message, AiReplyError};

fn attachment(name: &str) -> AttachmentInfo {
    AttachmentInfo {
        id: 5,
        filename: name.to_string(),
        url: format!("https://cdn/{name}"),
        proxy_url: String::new(),
        content_type: None,
        size: 1,
        width: None,
        height: None,
    }
}

fn stored() -> StoredMessage {
    let m = MessageInfo {
        id: 300,
        guild_id: Some(1),
        channel_id: 200,
        author_id: 100,
        author_name: "ana".to_string(),
        author_is_bot: false,
        from_webhook: false,
        content: "   ".to_string(),
        created_at: 1_700_000_000,
        attachments: vec![attachment("a.txt")],
    };
    StoredMessage::from_message(&m)
}

#[test]
fn attachment_summaries() {
    assert_eq!(summarize_attachments(&vec![]), "(sin adjuntos)");
    let many: Vec<AttachmentInfo> = (0..7).map(|i| attachment(&format!("f{i}"))).collect();
    let summary = summarize_attachments(&many);
    assert_eq!(summary.lines().count(), 5);
    assert!(summary.starts_with("f0: https://cdn/f0\nf1: https://cdn/f1"));
}

#[test]
fn visible_and_truncated_fields() {
    assert_eq!(visible_text(" \n"), "(vacio)");
    assert_eq!(visible_text("hola"), "hola");
    assert_eq!(truncate_embed_field("abc"), "abc");
    let long = "é".repeat(1001);
    assert_eq!(truncate_embed_field(&long), format!("{}\n...", "é".repeat(1000)));
}

#[test]
fn discord_timestamps() {
    assert_eq!(discord_timestamp(1_700_000_000), "<t:1700000000:F>");
    assert_eq!(discord_timestamp(-5), "<t:-5:F>");
    assert_eq!(discord_timestamp(9_000_000_000_000), "9000000000000");
    assert_eq!(discord_timestamp(8_210_266_876_799), "<t:8210266876799:F>");
    assert_eq!(discord_timestamp(8_210_266_876_800), "8210266876800");
    assert_eq!(discord_timestamp(-8_334_601_228_800), "<t:-8334601228800:F>");
    assert_eq!(discord_timestamp(-8_334_601_228_801), "-8334601228801");
}

#[test]
fn deletion_embeds() {
    let m = stored();
    assert_eq!(m.attachments_summary, "a.txt: https://cdn/a.txt");
    let e = deletion_log_embed(&m, 1_700_000_100);
    assert_eq!(e.title, "Mensaje borrado");
    assert_eq!(e.color, 0xff3b30);
    let fields: Vec<(String, String, bool)> = e.fields.iter().map(|f| (f.name.clone(), f.value.clone(), f.inline)).collect();
    assert_eq!(fields[0], ("Usuario".to_string(), "<@100> (ana)".to_string(), false));
    assert_eq!(fields[1], ("Canal".to_string(), "<#200>".to_string(), true));
    assert_eq!(fields[2], ("Servidor".to_string(), "1".to_string(), true));
    assert_eq!(fields[3], ("Mensaje ID".to_string(), "300".to_string(), false));
    assert_eq!(fields[4].1, "<t:1700000000:F>");
    assert_eq!(fields[5].1, "<t:1700000100:F>");
    assert_eq!(fields[6].1, "(vacio)");
    assert_eq!(fields[7].1, "a.txt: https://cdn/a.txt");
    assert_eq!(e.footer, "KitKat deleted message log");

    let missing = missing_message_log_embed(None, 7, 8, 9);
    assert_eq!(missing.color, 0xff9500);
    assert_eq!(missing.fields[1].value, "(desconocido)");
    assert_eq!(missing.fields.len(), 5);

    let (guild, embed) = deletion_log(None, Some(4), 7, 8, 9);
    assert_eq!(guild, Some(4));
    assert_eq!(embed.color, 0xff9500);
    let (guild, embed) = deletion_log(Some(stored()), Some(4), 7, 8, 9);
    assert_eq!(guild, Some(1));
    assert_eq!(embed.color, 0xff3b30);
}

#[test]
fn stored_rows_read_back() {
    let row = StoredMessage::from_row(Some(id_text(1)), id_text(200), id_text(u64::MAX), "x".to_string(), "ana".to_string(), "hi".to_string(), "(sin adjuntos)".to_string(), 5);
    assert_eq!(row.guild_id, Some(1));
    assert_eq!(row.channel_id, 200);
    assert_eq!(row.message_id, u64::MAX);
    assert_eq!(row.author_id, 0);
    assert_eq!(row.attachments_json, "");
    let row = StoredMessage::from_row(Some("nope".to_string()), String::new(), String::new(), String::new(), String::new(), String::new(), String::new(), 0);
    assert_eq!(row.guild_id, None);
}

#[test]
fn ai_replies() {
    assert_eq!(clean_ai_reply(None), Err(AiReplyError::NoResponse));
    assert_eq!(clean_ai_reply(Some("<think>plan\nmore</think>\n  こんにちは ".to_string())), Ok("こんにちは".to_string()));
    assert_eq!(clean_ai_reply(Some("a<think>x</think>b<think>y</think>c".to_string())), Ok("abc".to_string()));
    assert_eq!(tidy_reply("  x "), "x");
    assert!(!can_speak(" \n"));
    assert_eq!(voice_translation_message("  "), "La traducción llegó vacía.");
    assert_eq!(voice_translation_message("こんにちは"), "🔊 **Traducción (ES→JA):**\nこんにちは");
}

#[test]
fn buttons() {
    assert!(ButtonAction::from_custom_id("skip") == ButtonAction::Skip);
    assert!(ButtonAction::from_custom_id("close") == ButtonAction::Close);
    assert!(ButtonAction::from_custom_id("Skip") == ButtonAction::Unknown);
    assert!(ButtonAction::from_custom_id("") == ButtonAction::Unknown);
    for a in [ButtonAction::Skip, ButtonAction::Stop, ButtonAction::Pause, ButtonAction::Resume, ButtonAction::Close] {
        assert!(ButtonAction::from_custom_id(a.custom_id()) == a);
    }
    let row = generate_row(true);
    let ids: Vec<&str> = row.iter().map(|b| b.custom_id).collect();
    assert_eq!(ids, vec!["stop", "resume", "skip"]);
    assert_eq!(row[1].label, "Reanudar");
    assert_eq!(generate_row(false)[1].emoji, '⏸');
    assert!(plan_for_button(ButtonAction::Close) == ButtonPlan::DeleteMessage);
    assert!(plan_for_button(ButtonAction::Unknown) == ButtonPlan::Ignore);
    assert!(plan_for_button(ButtonAction::Pause) == ButtonPlan::Queue { operation: QueueOperation::Pause, message: "Se ha pausado la canción", update_paused: Some(true) });
    assert_eq!(queue_refusal(ButtonAction::Skip, 0), Some("No hay canciones en la cola"));
    assert_eq!(queue_refusal(ButtonAction::Stop, 1), Some("No hay más canciones en la cola"));
    assert_eq!(queue_refusal(ButtonAction::Stop, 2), None);
    assert_eq!(queue_refusal(ButtonAction::Pause, 0), None);
    assert!(!replies_after_action(ButtonAction::Resume));
    assert!(replies_after_action(ButtonAction::Skip));
}

#[test]
fn music_replies() {
    assert!(is_direct_link("https://youtu.be/x"));
    assert!(!is_direct_link("never gonna"));
    assert!(select_tracks(LoadResult::Search { results: 0 }) == TrackSelection::Respond { message: "No se encontraron resultados" });
    assert!(select_tracks(LoadResult::Search { results: 4 }) == TrackSelection::Queue { count: 1 });
    assert!(select_tracks(LoadResult::Playlist { tracks: 4 }) == TrackSelection::Queue { count: 4 });
    assert!(select_tracks(LoadResult::Playlist { tracks: 0 }) == TrackSelection::Respond { message: "La lista de reproducción está vacía" });
    assert!(select_tracks(LoadResult::Nothing) == TrackSelection::Respond { message: "No se encontraron resultados" });
    assert_eq!(song_heading(true, "Song"), "Song Añadido a la cola");
    assert_eq!(song_heading(false, "Song"), "Reproduciendo Song");
    assert_eq!(requester_line("ana"), "**Solicitado por:** ana");
    assert!(must_start_playback(false));
    assert_eq!(join_refusal(false, true), Some("No estás en un canal de voz para unirme"));
    assert_eq!(join_refusal(true, false), Some("No pude unirme a un canal de voz"));
    assert_eq!(join_refusal(true, true), None);
    assert_eq!(leave_refusal(false), Some("No estoy en un canal de voz para salir"));
    assert_eq!(resume_reply(false), "No hay nada pausado");
}

#[test]
fn stored_attachments_are_json() {
    let s = stored();
    assert_eq!(
        s.attachments_json,
        r#"[{"content_type":null,"filename":"a.txt","height":null,"id":"5","proxy_url":"","size":1,"url":"https://cdn/a.txt","width":null}]"#
    );
    let mut img = attachment("b.png");
    img.content_type = Some("image/png".to_string());
    img.width = Some(640);
    img.height = Some(480);
    let m = MessageInfo {
        id: 1,
        guild_id: None,
        channel_id: 2,
        author_id: 3,
        author_name: "x".to_string(),
        author_is_bot: false,
        from_webhook: false,
        content: String::new(),
        created_at: 0,
        attachments: vec![img],
    };
    let json: serde_json::Value = serde_json::from_str(&StoredMessage::from_message(&m).attachments_json).unwrap();
    assert_eq!(json[0]["content_type"], "image/png");
    assert_eq!(json[0]["width"], 640);
    assert_eq!(json[0]["id"], "5");
    let empty = MessageInfo { attachments: vec![], ..m };
    assert_eq!(StoredMessage::from_message(&empty).attachments_json, "[]");
}
