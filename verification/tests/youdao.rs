use rdict_core::parse::{
    chinese_from_page, english_from_page, to_chinese, to_english, ChinesePage, EnglishPage,
    ExampleBlock, MeaningBlock, TranslationData,
};
use rdict_core::source::DictionarySource;
use rdict_core::youdao::YoudaoSource;
use rdict_core::Error;

const HELLO_PAGE: &str = r#"<html><body><div class="search_result-dict">
<div class="word-head"><span class="title">hello</span></div>
<div class="phone_con"><div class="per-phone"><span class="phonetic">/həˈləʊ/</span></div><div class="per-phone"><span class="phonetic"> /həˈloʊ/ </span></div></div>
<div class="trans-container"><div class="basic"><ul><li class="word-exp"><span class="pos">int.</span><span class="trans">喂；你好 </span></li><li class="word-exp"><span class="pos">n.</span><span class="trans">招呼</span></li></ul></div>
<div class="mcols-layout"><div class="col2"><p class="sen-eng"> Hello, world. </p><p class="sen-ch">你好，世界。</p></div><div class="col2"><p class="sen-eng"></p></div></div></div>
</div></body></html>"#;

const NIHAO_PAGE: &str = r#"<html><body><div class="search_result-dict">
<div class="trans-container"><div class="basic"><div class="col2"><a class="point"> hello </a><a class="point">hi</a><a class="point">  </a></div></div>
<div class="mcols-layout"><div class="col2"><p class="sen-eng">Hello there.</p><p class="sen-ch">你好。</p></div></div></div>
</div></body></html>"#;

#[test]
fn to_chinese_reads_a_result_page() {
    let r = to_chinese("hello", HELLO_PAGE).ok().unwrap();
    assert_eq!(r.input_text, "hello");
    assert_eq!(r.pronunciation.uk.as_deref(), Some("həˈləʊ"));
    // Slashes are trimmed before whitespace, so slashes inside surrounding spaces stay.
    assert_eq!(r.pronunciation.us.as_deref(), Some("/həˈloʊ/"));
    assert_eq!(r.meanings.len(), 2);
    assert_eq!(r.meanings[0].part_of_speech.as_deref(), Some("int."));
    assert_eq!(r.meanings[0].definitions, vec!["喂".to_string(), "你好".to_string()]);
    assert_eq!(r.meanings[1].part_of_speech.as_deref(), Some("n."));
    assert_eq!(r.meanings[1].definitions, vec!["招呼".to_string()]);
    assert_eq!(r.examples.len(), 1);
    assert_eq!(r.examples[0].en, "Hello, world.");
    assert_eq!(r.examples[0].zh, "你好，世界。");
}

#[test]
fn to_chinese_without_result_body() {
    match to_chinese("hello", "<html><body><p>nothing</p></body></html>") {
        Err(Error::Parse(m)) => assert_eq!(m, "no .search_result-dict found"),
        _ => panic!("expected a parse error"),
    }
}

#[test]
fn to_chinese_with_empty_result_body() {
    let page = r#"<div class="search_result-dict"><div class="phone_con"><div class="per-phone"><span class="phonetic">//</span></div></div></div>"#;
    assert!(matches!(to_chinese("hello", page), Err(Error::NoTranslationResults)));
}

#[test]
fn to_english_reads_a_result_page() {
    let r = to_english("你好", NIHAO_PAGE).ok().unwrap();
    assert_eq!(r.input_text, "你好");
    assert_eq!(r.meanings, vec!["hello".to_string(), "hi".to_string()]);
    assert_eq!(r.examples.len(), 1);
    assert_eq!(r.examples[0].en, "Hello there.");
    assert_eq!(r.examples[0].zh, "你好。");
}

#[test]
fn to_english_without_data() {
    let page = r#"<div class="search_result-dict"><p>empty</p></div>"#;
    assert!(matches!(to_english("你好", page), Err(Error::NoTranslationResults)));
    assert!(matches!(to_english("你好", "<p></p>"), Err(Error::Parse(_))));
}

#[test]
fn chinese_from_page_cleans_texts() {
    let page = ChinesePage {
        pronunciations: vec!["  /ə/ ".to_string(), "/ /".to_string(), "ignored".to_string()],
        meanings: vec![
            MeaningBlock { part_of_speech: None, definitions: None },
            MeaningBlock { part_of_speech: Some(" v. ".to_string()), definitions: Some(" a ；b；".to_string()) },
        ],
        examples: vec![ExampleBlock { en: None, zh: Some(" 例 ".to_string()) }],
    };
    let r = chinese_from_page("x", Some(page)).ok().unwrap();
    assert_eq!(r.pronunciation.uk.as_deref(), Some("/ə/"));
    assert_eq!(r.pronunciation.us, None);
    assert_eq!(r.meanings.len(), 1);
    assert_eq!(r.meanings[0].part_of_speech.as_deref(), Some("v."));
    assert_eq!(r.meanings[0].definitions, vec!["a".to_string(), "b".to_string(), "".to_string()]);
    assert_eq!(r.examples[0].en, "");
    assert_eq!(r.examples[0].zh, "例");
    assert!(matches!(chinese_from_page("x", None), Err(Error::Parse(_))));
}

#[test]
fn english_from_page_drops_blank_meanings() {
    let page = EnglishPage { translations: vec![" ".to_string()], examples: vec![] };
    assert!(matches!(english_from_page("x", Some(page)), Err(Error::NoTranslationResults)));
    let page = EnglishPage { translations: vec![" good ".to_string(), "".to_string()], examples: vec![] };
    let r = english_from_page("好", Some(page)).ok().unwrap();
    assert_eq!(r.meanings, vec!["good".to_string()]);
}

#[test]
fn youdao_source_urls_and_routing() {
    let s = YoudaoSource::new("https://m.youdao.com");
    assert_eq!(s.name(), "youdao");
    assert_eq!(s.fetch_url("hello"), "https://m.youdao.com/result?word=hello&lang=en");
    assert!(matches!(s.parse("hello", HELLO_PAGE), Ok(TranslationData::ToChinese(_))));
    assert!(matches!(s.parse("你好", NIHAO_PAGE), Ok(TranslationData::ToEnglish(_))));
    // A Chinese word routed to the Chinese→English reading finds no `.point` meanings here.
    assert!(matches!(s.parse("你好", HELLO_PAGE), Ok(TranslationData::ToEnglish(_))));
}
