use yt::response::{check_translation, parse_transcript, transcript_response, transcript_url};
use yt::{TranscriptError, TranscriptInfo, TranscriptItem, TranslationLanguage};

fn info(translatable: bool, url: &str) -> TranscriptInfo {
    TranscriptInfo {
        language_code: "en".to_string(),
        language: "English".to_string(),
        is_generated: false,
        is_translatable: translatable,
        base_url: url.to_string(),
        translation_languages: vec![
            TranslationLanguage { language: "German".to_string(), language_code: "de".to_string() },
            TranslationLanguage { language: "French".to_string(), language_code: "fr".to_string() },
        ],
    }
}

#[test]
fn translation_checks() {
    assert!(check_translation(&info(true, "u"), "fr", "vid").is_ok());
    assert!(matches!(check_translation(&info(false, "u"), "fr", "vid"), Err(TranscriptError::NotTranslatable(v)) if v == "vid"));
    assert!(matches!(
        check_translation(&info(true, "u"), "es", "vid"),
        Err(TranscriptError::TranslationLanguageNotAvailable(l)) if l == "es"
    ));
}

#[test]
fn transcript_addresses() {
    assert_eq!(transcript_url(&info(true, "https://x/t?a=1"), None, "vid").unwrap(), "https://x/t?a=1");
    assert_eq!(transcript_url(&info(true, "https://x/t?a=1"), Some("de"), "vid").unwrap(), "https://x/t?a=1&tlang=de");
    assert!(matches!(
        transcript_url(&info(true, "https://x/t?a=1&exp=xpe"), None, "vid"),
        Err(TranscriptError::PoTokenRequired(v)) if v == "vid"
    ));
}

fn item(text: &str) -> TranscriptItem {
    TranscriptItem { text: text.to_string(), start: None, duration: None, milliseconds: false }
}

#[test]
fn responses() {
    let plain = transcript_response("vid", &info(true, "u"), None, Some("T".to_string()), vec![item("a")]);
    assert_eq!(plain.language, "English");
    assert_eq!(plain.language_code, "en");
    assert!(!plain.is_generated);
    assert!(plain.is_translatable);
    assert_eq!(plain.title.as_deref(), Some("T"));
    assert_eq!(plain.transcript.len(), 1);

    let translated = transcript_response("vid", &info(true, "u"), Some("fr"), None, vec![]);
    assert_eq!(translated.language, "French");
    assert_eq!(translated.language_code, "fr");
    assert!(translated.is_generated);

    let unknown = transcript_response("vid", &info(true, "u"), Some("zz"), None, vec![]);
    assert_eq!(unknown.language, "English");
    assert_eq!(unknown.language_code, "zz");
}

#[test]
fn parse_errors_become_xml_errors() {
    match parse_transcript("<transcript><text>open") {
        Err(TranscriptError::XmlParseError(m)) => assert_eq!(m, "Failed to parse XML: Unexpected EOF in text element"),
        other => panic!("unexpected: {:?}", other),
    }
    assert_eq!(parse_transcript("<transcript><text start=\"1\">hi</text></transcript>").unwrap().len(), 1);
}
