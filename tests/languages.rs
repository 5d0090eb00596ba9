use tts_startup::languages::collect_translation_languages;

fn pairs(items: &[(&str, &str)]) -> Vec<(String, String)> {
    items.iter().map(|(c, n)| (c.to_string(), n.to_string())).collect()
}

#[test]
fn codes_are_lowercased_and_last_wins() {
    let langs = collect_translation_languages(pairs(&[("EN", "English"), ("en", "English (dup)")]));
    assert_eq!(langs.len(), 1);
    assert_eq!(langs.get("en").map(|s| s.as_str()), Some("English (dup)"));
    assert_eq!(langs.get("EN"), None);
}

#[test]
fn lowercase_then_uppercase_keeps_the_later() {
    let langs = collect_translation_languages(pairs(&[("de", "German"), ("DE", "Deutsch")]));
    assert_eq!(langs.len(), 1);
    assert_eq!(langs.get("de").map(|s| s.as_str()), Some("Deutsch"));
}

#[test]
fn mixed_case_codes() {
    let langs = collect_translation_languages(pairs(&[
        ("PT-BR", "Portuguese (Brazilian)"),
        ("Zh", "Chinese"),
        ("ja", "Japanese"),
    ]));
    assert_eq!(langs.len(), 3);
    assert_eq!(langs.get("pt-br").map(|s| s.as_str()), Some("Portuguese (Brazilian)"));
    assert_eq!(langs.get("zh").map(|s| s.as_str()), Some("Chinese"));
    assert_eq!(langs.get("ja").map(|s| s.as_str()), Some("Japanese"));
    assert_eq!(langs.get("PT-BR"), None);
}

#[test]
fn only_ascii_letters_are_lowercased() {
    let langs = collect_translation_languages(pairs(&[("ÉN", "accented")]));
    assert_eq!(langs.get("Én").map(|s| s.as_str()), Some("accented"));
    assert_eq!(langs.get("én"), None);
}

#[test]
fn empty_list_gives_empty_map() {
    let langs = collect_translation_languages(Vec::new());
    assert_eq!(langs.len(), 0);
    assert_eq!(langs.get("en"), None);
}

#[test]
fn long_codes_are_capped() {
    let code = "A".repeat(260);
    let langs = collect_translation_languages(vec![(code, "long".to_string())]);
    assert_eq!(langs.get(&"a".repeat(255)).map(|s| s.as_str()), Some("long"));
}
