use tts_startup::voices::{prepare_gcloud_voices, variant_from_name, GoogleGender, GoogleVoice, VoiceCatalog};

fn voice(name: &str, langs: &[&str], gender: GoogleGender) -> GoogleVoice {
    GoogleVoice {
        name: name.to_string(),
        language_codes: langs.iter().map(|l| l.to_string()).collect(),
        ssml_gender: gender,
    }
}

#[test]
fn end_to_end_two_records() {
    let catalog = prepare_gcloud_voices(vec![
        voice("en-US-Standard-A", &["en-US"], GoogleGender::Female),
        voice("en-US-Wavenet-F", &["en-US"], GoogleGender::Female),
    ]);
    assert_eq!(catalog.len(), 1);
    assert_eq!(catalog.variant_count("en-US"), 2);
    assert_eq!(catalog.get("en-US", "A"), Some(GoogleGender::Female));
    assert_eq!(catalog.get("en-US", "Wavenet-F"), Some(GoogleGender::Female));
    assert_eq!(catalog.get("en-US", "F"), None);
}

#[test]
fn standard_prefix_is_stripped() {
    assert_eq!(variant_from_name("de-DE-Standard-B"), Some("B".to_string()));
    assert_eq!(variant_from_name("cmn-CN-Standard-D"), Some("D".to_string()));
}

#[test]
fn other_type_prefix_is_kept() {
    assert_eq!(variant_from_name("en-GB-Neural2-C"), Some("Neural2-C".to_string()));
    assert_eq!(variant_from_name("en-US-Wavenet-F"), Some("Wavenet-F".to_string()));
    assert_eq!(variant_from_name("en-US-Standardish-F"), Some("Standardish-F".to_string()));
}

#[test]
fn tail_after_variant_is_kept_whole() {
    assert_eq!(variant_from_name("en-US-Standard-A-B"), Some("A-B".to_string()));
    assert_eq!(variant_from_name("en-US-Studio-O-x"), Some("Studio-O-x".to_string()));
}

#[test]
fn third_part_without_dash_is_the_variant() {
    assert_eq!(variant_from_name("en-US-Standard"), Some("Standard".to_string()));
    assert_eq!(variant_from_name("en-US-Polyglot"), Some("Polyglot".to_string()));
    assert_eq!(variant_from_name("en-US-"), Some(String::new()));
}

#[test]
fn malformed_names_have_no_variant() {
    assert_eq!(variant_from_name("en-US"), None);
    assert_eq!(variant_from_name("enUS"), None);
    assert_eq!(variant_from_name(""), None);
}

#[test]
fn malformed_records_are_dropped() {
    let catalog = prepare_gcloud_voices(vec![
        voice("en-US", &["en-US"], GoogleGender::Male),
        voice("broken", &[], GoogleGender::Male),
        voice("fr-FR-Standard-A", &["fr-FR"], GoogleGender::Neutral),
    ]);
    assert_eq!(catalog.len(), 1);
    assert_eq!(catalog.variant_count("en-US"), 0);
    assert_eq!(catalog.get("fr-FR", "A"), Some(GoogleGender::Neutral));
}

#[test]
fn empty_input_gives_empty_catalog() {
    let catalog = prepare_gcloud_voices(Vec::new());
    assert_eq!(catalog.len(), 0);
    let fresh = VoiceCatalog::new();
    assert_eq!(fresh.len(), 0);
}

#[test]
fn last_duplicate_wins() {
    let catalog = prepare_gcloud_voices(vec![
        voice("en-US-Standard-A", &["en-US"], GoogleGender::Female),
        voice("en-US-Standard-A", &["en-US"], GoogleGender::Male),
    ]);
    assert_eq!(catalog.variant_count("en-US"), 1);
    assert_eq!(catalog.get("en-US", "A"), Some(GoogleGender::Male));
}

#[test]
fn first_language_code_is_the_key() {
    let catalog = prepare_gcloud_voices(vec![voice(
        "es-US-Standard-B",
        &["es-US", "es-MX"],
        GoogleGender::Unspecified,
    )]);
    assert_eq!(catalog.len(), 1);
    assert_eq!(catalog.get("es-US", "B"), Some(GoogleGender::Unspecified));
    assert_eq!(catalog.get("es-MX", "B"), None);
}

#[test]
fn language_keys_keep_their_case() {
    let catalog = prepare_gcloud_voices(vec![voice("en-US-Standard-A", &["en-US"], GoogleGender::Female)]);
    assert_eq!(catalog.get("en-us", "A"), None);
    assert_eq!(catalog.get("en-US", "a"), None);
}

#[test]
fn normalising_twice_gives_the_same_catalog() {
    let records = || {
        vec![
            voice("en-US-Standard-A", &["en-US"], GoogleGender::Female),
            voice("en-GB-Neural2-C", &["en-GB"], GoogleGender::Male),
            voice("ja", &["ja-JP"], GoogleGender::Male),
        ]
    };
    let first = prepare_gcloud_voices(records());
    let second = prepare_gcloud_voices(records());
    for (lang, variant) in [("en-US", "A"), ("en-GB", "Neural2-C"), ("ja-JP", "ja")] {
        assert_eq!(first.get(lang, variant), second.get(lang, variant));
    }
    assert_eq!(first.len(), second.len());
}

#[test]
fn long_keys_are_capped_at_255_bytes() {
    let lang = "l".repeat(300);
    let variant = "v".repeat(300);
    let name = format!("xx-YY-Standard-{variant}");
    let catalog = prepare_gcloud_voices(vec![voice(&name, &[lang.as_str()], GoogleGender::Male)]);
    assert_eq!(catalog.get(&"l".repeat(255), &"v".repeat(255)), Some(GoogleGender::Male));
    assert_eq!(catalog.get(&lang, &variant), None);
}

#[test]
fn capping_keeps_whole_chars() {
    // 'é' takes two bytes: 127 of them fill 254 bytes, the 128th would pass 255.
    let lang = "é".repeat(130);
    let catalog = prepare_gcloud_voices(vec![voice("xx-YY-Standard-A", &[lang.as_str()], GoogleGender::Female)]);
    assert_eq!(catalog.get(&"é".repeat(127), "A"), Some(GoogleGender::Female));
}
