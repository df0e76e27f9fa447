use kitkat::voicevox::prepare_japanese_for_tts;

#[test]
fn converts_romaji_to_katakana() {
    assert_eq!(prepare_japanese_for_tts("konnichiwa"), "コンニチワ");
    assert_eq!(prepare_japanese_for_tts("arigatou gozaimasu"), "アリガトウ ゴザイマス");
    assert_eq!(prepare_japanese_for_tts("こんにちは konnichiwa"), "こんにちは コンニチワ");
}

#[test]
fn converts_english_loanwords_to_katakana() {
    let out = prepare_japanese_for_tts("Discord");
    assert!(out.chars().all(|c| !c.is_ascii_alphabetic()), "expected no latin in {out}");
    assert!(!out.is_empty());

    let mixed = prepare_japanese_for_tts("Discord で話そう");
    assert!(mixed.contains("で話そう"), "got: {mixed}");
    assert_eq!(mixed.chars().filter(|c| c.is_ascii_alphabetic()).count(), 0, "got: {mixed}");
}

#[test]
fn keeps_japanese_script() {
    assert_eq!(
        prepare_japanese_for_tts("ディスコードで話そう"),
        "ディスコードで話そう"
    );
}
