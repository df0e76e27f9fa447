use kitkat::voicevox::{audio_query_outcome, status_failure_text, synthesis_outcome, SynthesisFailure};
use kitkat::voicevox::{pick_reading, reading_without_letters, romaji_from_lowercase, check_wav, choose_speaker_id, prepare_japanese_for_tts, prepare_synthesis_text, speaker_id_from_env_content, VoiceVoxClient, VoiceVoxError};

#[test]
fn client_urls() {
    let c = VoiceVoxClient::new("http://host:1//".to_string(), 7);
    assert_eq!(c.audio_query_url(), "http://host:1/audio_query");
    assert_eq!(c.synthesis_url(), "http://host:1/synthesis");
    assert_eq!(c.speaker_id(None), 7);
    assert_eq!(c.speaker_id(Some(2)), 2);
    let d = VoiceVoxClient::from_settings(None, None, None);
    assert_eq!(d.audio_query_url(), "http://127.0.0.1:50021/audio_query");
    assert_eq!(d.speaker_id(None), 3);
    let e = VoiceVoxClient::from_settings(Some("tts"), Some("80"), Some(1));
    assert_eq!(e.synthesis_url(), "http://tts:80/synthesis");
}

#[test]
fn synthesis_checks() {
    assert_eq!(prepare_synthesis_text("  \n"), Err(VoiceVoxError::EmptyText));
    assert_eq!(prepare_synthesis_text("  konnichiwa "), Ok("コンニチワ".to_string()));
    let mut wav = b"RIFF".to_vec();
    wav.extend_from_slice(&[0u8; 8]);
    assert_eq!(check_wav(wav.clone()), Ok(wav));
    assert_eq!(check_wav(b"RIFF".to_vec()), Err(VoiceVoxError::InvalidWav));
    assert_eq!(check_wav(vec![0u8; 20]), Err(VoiceVoxError::InvalidWav));
}

#[test]
fn speaker_ids() {
    assert_eq!(speaker_id_from_env_content("# x\nOTHER=1\n VOICEVOX_SPEAKER_ID = \"'8'\" \n"), Some(8));
    assert_eq!(speaker_id_from_env_content("VOICEVOX_SPEAKER_ID=x\nVOICEVOX_SPEAKER_ID=2"), None);
    assert_eq!(speaker_id_from_env_content("#VOICEVOX_SPEAKER_ID=2\nnope"), None);
    assert_eq!(choose_speaker_id(Some(4), Some("9")), Some(4));
    assert_eq!(choose_speaker_id(None, Some(" 9 ")), Some(9));
    assert_eq!(choose_speaker_id(None, Some("x")), None);
    assert_eq!(choose_speaker_id(None, None), None);
}

#[test]
fn text_without_latin_is_kept() {
    assert_eq!(prepare_japanese_for_tts("。、！ 123"), "。、！ 123");
    assert_eq!(prepare_japanese_for_tts(""), "");
}

#[test]
fn voicevox_and_ai_error_messages() {
    assert_eq!(VoiceVoxError::EmptyText.describe(), "El texto a sintetizar está vacío");
    assert_eq!(VoiceVoxError::InvalidWav.describe(), "VOICEVOX no devolvió un WAV válido");
    assert_eq!(
        kitkat::translate::AiReplyError::NoResponse.describe(),
        "No se recibió una respuesta válida del modelo de IA"
    );
}

#[test]
fn latin_words_become_kana_only() {
    let out = prepare_japanese_for_tts("hello world、konnichiwa");
    assert!(out.contains('、'));
    assert!(out.chars().all(|c| !c.is_ascii_alphabetic()), "{out}");
}

#[test]
fn reading_choices() {
    assert_eq!(romaji_from_lowercase("discord"), "disukorudu");
    assert_eq!(romaji_from_lowercase("nation"), "nasuhon");
    assert_eq!(reading_without_letters("ディスコード".to_string()), "ディスコード");
    assert_eq!(reading_without_letters("ディスkoード".to_string()), "");
    assert_eq!(pick_reading("konnichiwa", "コンニチワ", "x"), "コンニチワ");
    assert_eq!(pick_reading("discord", "ぢsこrd", "ディスコード"), "ディスコード");
    assert_eq!(pick_reading("zzz", "zzz", ""), "zzz");
    assert_eq!(pick_reading("", "", ""), "");
}

#[test]
fn preparing_twice_changes_nothing() {
    for text in ["konnichiwa Discord で話そう", "don't stop", "xyzzy qwrtp", "''", "ウェブ's page", ""] {
        let once = prepare_japanese_for_tts(text);
        assert_eq!(prepare_japanese_for_tts(&once), once);
    }
}

#[test]
fn engine_answers() {
    assert_eq!(audio_query_outcome(200, "{}".to_string()).ok(), Some("{}".to_string()));
    let f = audio_query_outcome(500, "boom".to_string()).err().unwrap();
    assert_eq!((f.code, f.body.as_str()), (500, "boom"));
    let wav = b"RIFF\0\0\0\0WAVEfmt ".to_vec();
    assert_eq!(synthesis_outcome(200, wav.clone()).ok(), Some(wav.clone()));
    assert!(matches!(synthesis_outcome(204, b"nope".to_vec()), Err(SynthesisFailure::InvalidWav)));
    match synthesis_outcome(404, wav.clone()) {
        Err(SynthesisFailure::Status(f)) => assert_eq!((f.code, f.body), (404, wav)),
        _ => panic!("a failing status is an error"),
    }
    assert_eq!(status_failure_text("synthesis", "404 Not Found", "x"), "VOICEVOX synthesis falló (404 Not Found): x");
}
