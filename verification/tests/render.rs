use rdict_core::german::GermanEntry;
use rdict_core::parse::{Example, Meaning, Pronunciation, ToChinese, ToEnglish, TranslationData};
use rdict_core::rdict::{render_chinese, render_english, render_german_entry, render_markdown};

fn hello() -> ToChinese {
    ToChinese {
        input_text: "hello".to_string(),
        pronunciation: Pronunciation { uk: Some("həˈləʊ".to_string()), us: None },
        meanings: vec![
            Meaning { part_of_speech: Some("int.".to_string()), definitions: vec!["喂".to_string(), "你好".to_string()] },
            Meaning { part_of_speech: None, definitions: vec!["招呼".to_string()] },
        ],
        examples: vec![Example { en: "Hello!".to_string(), zh: "你好！".to_string() }],
    }
}

#[test]
fn chinese_markdown_plain() {
    let out = render_chinese(&hello(), false);
    assert_eq!(
        out,
        "# Pronunciation\n英：[həˈləʊ]\n\n# Meanings\n[int.]\n* 喂\n* 你好\n\n* 招呼\n\n# Examples\n* Hello!\n  你好！"
    );
}

#[test]
fn chinese_markdown_colored() {
    let out = render_chinese(&hello(), true);
    assert!(out.starts_with("# Pronunciation\n英：[\x1b[32mhəˈləʊ\x1b[39m]\n"));
    assert!(out.contains("* \x1b[32m喂\x1b[39m\n"));
    assert!(out.ends_with("* \x1b[32mHello!\x1b[39m\n  \x1b[35m你好！\x1b[39m"));
}

#[test]
fn english_markdown() {
    let r = ToEnglish {
        input_text: "你好".to_string(),
        meanings: vec!["hello".to_string()],
        examples: vec![],
    };
    assert_eq!(render_english(&r, false), "# Meanings\n* hello");
    assert_eq!(render_english(&r, true), "# Meanings\n* \x1b[32mhello\x1b[39m");
    let empty = ToEnglish { input_text: String::new(), meanings: vec![], examples: vec![] };
    assert_eq!(render_english(&empty, false), "");
}

fn haus() -> GermanEntry {
    GermanEntry {
        word: "Haus".to_string(),
        gender: Some("neuter".to_string()),
        article: Some("das".to_string()),
        phonetic: Some("haʊ̯s".to_string()),
        cefr_level: Some("A1".to_string()),
        word_type: Some("noun".to_string()),
        definitions: vec!["building".to_string()],
        examples: vec![("Das Haus.".to_string(), "The house.".to_string())],
    }
}

#[test]
fn german_markdown_plain() {
    assert_eq!(
        render_german_entry(&haus(), false),
        "# German Dictionary\n\ndas Haus  [A1]\n* noun (neuter)\n* IPA /haʊ̯s/\n# Definitions\n* building\n# Examples\n* Das Haus.\n  The house."
    );
}

#[test]
fn german_markdown_colored() {
    let out = render_german_entry(&haus(), true);
    assert!(out.starts_with("\x1b[90m# German Dictionary\x1b[39m\n\n\x1b[36mdas\x1b[39m \x1b[32mHaus\x1b[39m  [\x1b[33mA1\x1b[39m]\n"));
    assert!(out.contains("\x1b[90m# Type\x1b[39m \x1b[36mnoun\x1b[39m | \x1b[33mneuter\x1b[39m\n"));
    assert!(out.contains("\x1b[90m# IPA\x1b[39m  /\x1b[32mhaʊ̯s\x1b[39m/\n"));
}

#[test]
fn german_markdown_minimal() {
    let e = GermanEntry {
        word: "x".to_string(),
        gender: None,
        article: None,
        phonetic: None,
        cefr_level: None,
        word_type: Some("verb".to_string()),
        definitions: vec![],
        examples: vec![],
    };
    assert_eq!(render_german_entry(&e, false), "# German Dictionary\n\nx\n* verb");
}

#[test]
fn render_dispatches_by_kind() {
    let d = TranslationData::German(haus());
    assert_eq!(render_markdown(&d, false), render_german_entry(&haus(), false));
    let d = TranslationData::ToChinese(hello());
    assert_eq!(render_markdown(&d, false), render_chinese(&hello(), false));
}

#[test]
fn empty_entries_render_empty() {
    assert_eq!(render_chinese(&ToChinese::default(), true), "");
    assert_eq!(render_english(&ToEnglish::default(), true), "");
    assert_eq!(render_german_entry(&GermanEntry::default(), false), "# German Dictionary");
}

#[test]
fn markdown_never_ends_with_whitespace() {
    for colored in [false, true] {
        for out in [
            render_chinese(&hello(), colored),
            render_german_entry(&haus(), colored),
            render_english(&ToEnglish { input_text: String::new(), meanings: vec!["a ".to_string()], examples: vec![] }, colored),
        ] {
            assert!(!out.ends_with(char::is_whitespace), "{out:?}");
        }
    }
}
