use rdict_core::german::{
    article_in, german_from_page, guess_word_type, level_in, parse_german, word_type_of_lowercase,
    word_type_of_lowercase_title, ExampleItem, GermanPage, WoerterNetSource,
};
use rdict_core::parse::TranslationData;
use rdict_core::source::DictionarySource;
use rdict_core::Error;

const HAUS_PAGE: &str = r#"<html><head><title>Declension of noun Haus with plural and article</title></head><body>
<p>Haus /haʊ̯s/ and more</p>
<div itemprop="mainEntity"><div itemprop="acceptedAnswer"><p>The article is "das". Haus belongs to the vocabulary at A1 level.</p></div></div>
<i>building for people to live in</i>
<i>building for people to live in</i>
<i>@short</i>
<ul class="rLstGt"><li>Das Haus ist groß. <span>The house is big.</span></li><li>Kurz <span>Short</span></li></ul>
</body></html>"#;

#[test]
fn parse_german_reads_a_noun_page() {
    let e = parse_german("Haus", HAUS_PAGE).ok().unwrap();
    assert_eq!(e.word, "Haus");
    assert_eq!(e.word_type.as_deref(), Some("noun"));
    assert_eq!(e.cefr_level.as_deref(), Some("A1"));
    assert_eq!(e.article.as_deref(), Some("das"));
    assert_eq!(e.gender.as_deref(), Some("neuter"));
    assert_eq!(e.phonetic.as_deref(), Some("haʊ̯s"));
    assert_eq!(e.definitions, vec!["building for people to live in".to_string()]);
    assert_eq!(
        e.examples,
        vec![("Das Haus ist groß.".to_string(), "The house is big.".to_string())]
    );
}

#[test]
fn parse_german_without_data() {
    assert!(matches!(
        parse_german("xyz", "<html><head><title>Nothing</title></head><body><p>a / b /</p></body></html>"),
        Err(Error::NoTranslationResults)
    ));
    let s = WoerterNetSource::new("https://www.verbformen.com");
    assert!(matches!(
        s.parse("Haus", "<html><head><title>Haus</title></head><body><p>nothing here</p></body></html>"),
        Err(Error::NoTranslationResults)
    ));
}

#[test]
fn lowercased_text_rules() {
    assert_eq!(word_type_of_lowercase("arbeiten"), "verb");
    assert_eq!(word_type_of_lowercase("sammeln"), "verb");
    assert_eq!(word_type_of_lowercase("ruhig"), "adjective");
    assert_eq!(word_type_of_lowercase("haus"), "noun");
    // Only lowercase endings count here.
    assert_eq!(word_type_of_lowercase("ARBEITEN"), "noun");
    assert_eq!(word_type_of_lowercase_title("conjugation of gehen").as_deref(), Some("verb"));
    assert_eq!(word_type_of_lowercase_title("declension adjective schön").as_deref(), Some("adjective"));
    assert_eq!(word_type_of_lowercase_title("declension of noun haus").as_deref(), Some("noun"));
    assert_eq!(word_type_of_lowercase_title("Conjugation of gehen"), None);
    assert_eq!(level_in("vocabulary at b1 and a2 level").as_deref(), Some("A2"));
    assert_eq!(level_in("vocabulary at A1 level"), None);
    assert_eq!(level_in("c2"), Some("C2".to_string()));
    assert_eq!(
        article_in("Haus", "the article is \"die\"; \"Haus\" is neuter"),
        Some(("das".to_string(), "neuter".to_string()))
    );
    assert_eq!(
        article_in("haus", "the article is \"die\""),
        Some(("die".to_string(), "feminine".to_string()))
    );
    assert_eq!(article_in("haus", "\"haus\" is Neuter"), None);
}

#[test]
fn german_from_page_rules() {
    let page = GermanPage {
        title: Some("Conjugation of verb gehen".to_string()),
        answers: vec![
            None,
            Some("Its level is B2.".to_string()),
            Some("\"gehen\" is masculine?".to_string()),
            Some("c1 and a2".to_string()),
        ],
        body: Some(vec!["/x/ /ab/ /ʃa/".to_string()]),
        italics: (0..12).map(|i| format!("definition number {i}")).collect(),
        items: vec![ExampleItem { pieces: vec!["Ich gehe.".to_string()], last_span: None }],
    };
    let e = german_from_page("gehen", &page).ok().unwrap();
    assert_eq!(e.word_type.as_deref(), Some("verb"));
    // The last answer that names a level wins; inside an answer the first level in A1..C2 order.
    assert_eq!(e.cefr_level.as_deref(), Some("A2"));
    assert_eq!(e.article.as_deref(), Some("der"));
    assert_eq!(e.gender.as_deref(), Some("masculine"));
    // "/x/" is too short, "/ab/" holds no IPA character, "/ʃa/" qualifies.
    assert_eq!(e.phonetic.as_deref(), Some("ʃa"));
    assert_eq!(e.definitions.len(), 8);
    assert_eq!(e.definitions[7], "definition number 7");
    // Without a span the whole text is the German part, and the English part is empty.
    assert!(e.examples.is_empty());
}

#[test]
fn ipa_needs_a_closing_slash_and_an_ipa_character() {
    let page = |body: &str| GermanPage {
        title: Some("Declension adjective schön".to_string()),
        answers: vec![],
        body: Some(vec![body.to_string()]),
        italics: vec![],
        items: vec![],
    };
    let e = german_from_page("schön", &page("text /ʃøːn/ more")).ok().unwrap();
    assert_eq!(e.word_type.as_deref(), Some("adjective"));
    assert_eq!(e.phonetic.as_deref(), Some("ʃøːn"));
    let e = german_from_page("schön", &page("a/b c/ʃøːn/")).ok().unwrap();
    // "/b c/" closes without IPA characters, so the transcription falls outside the slashes.
    assert_eq!(e.phonetic.as_deref(), None);
    let e = german_from_page("schön", &page("/ab/ /ʃøːn/")).ok().unwrap();
    assert_eq!(e.phonetic.as_deref(), Some("ʃøːn"));
}

#[test]
fn word_type_guesses() {
    assert_eq!(guess_word_type("gehen"), "verb");
    assert_eq!(guess_word_type("studieren"), "verb");
    assert_eq!(guess_word_type("wandern"), "verb");
    assert_eq!(guess_word_type("GEHEN"), "verb");
    assert_eq!(guess_word_type("freundlich"), "adjective");
    assert_eq!(guess_word_type("ARM"), "adjective");
    assert_eq!(guess_word_type("Haus"), "noun");
}

#[test]
fn woerter_net_urls() {
    let s = WoerterNetSource::new("https://www.verbformen.com");
    assert_eq!(s.name(), "woerter-net");
    assert_eq!(s.fetch_url("gehen"), "https://www.verbformen.com/conjugation/gehen.htm");
    assert_eq!(s.fetch_url("schön"), "https://www.verbformen.com/declension/nouns/schön.htm");
    assert_eq!(
        s.fetch_url("freundlich"),
        "https://www.verbformen.com/declension/adjectives/freundlich.htm"
    );
    assert_eq!(s.fetch_url("Haus"), "https://www.verbformen.com/declension/nouns/Haus.htm");
    assert!(matches!(s.parse("Haus", HAUS_PAGE), Ok(TranslationData::German(_))));
}
