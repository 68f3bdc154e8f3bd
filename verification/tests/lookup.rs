use rdict_core::cli::{
    frame_output, input_mode, needs_pager, output_format, piped_query, prompt, prompt_query,
    query_of, supports_ansi_with, InputMode,
};
use rdict_core::parse::{ToEnglish, TranslationData};
use rdict_core::rdict::{cache_outcome, check_response_status, fetched_from_page, CacheOutcome, CacheRead, Format};
use rdict_core::youdao::YoudaoSource;
use rdict_core::Error;

#[test]
fn cache_reads() {
    let d = TranslationData::ToEnglish(ToEnglish { input_text: "好".to_string(), meanings: vec!["good".to_string()], examples: vec![] });
    match cache_outcome(CacheRead::Decoded(d)) {
        CacheOutcome::Hit(r) => {
            assert!(r.is_cached);
            assert!(matches!(r.data, TranslationData::ToEnglish(ref t) if t.meanings == vec!["good".to_string()]));
        }
        _ => panic!("expected a hit"),
    }
    assert!(matches!(cache_outcome(CacheRead::Undecodable), CacheOutcome::Stale));
    assert!(matches!(cache_outcome(CacheRead::Missing), CacheOutcome::Miss));
    assert!(matches!(cache_outcome(CacheRead::Failed), CacheOutcome::Miss));
    assert!(matches!(cache_outcome(CacheRead::NoData), CacheOutcome::Miss));
}

#[test]
fn http_status() {
    assert!(check_response_status(200, "200 OK", "youdao", "hi").is_ok());
    assert!(check_response_status(299, "299 <unknown status code>", "youdao", "hi").is_ok());
    match check_response_status(404, "404 Not Found", "youdao", "hi") {
        Err(Error::Parse(m)) => assert_eq!(m, "HTTP 404 Not Found from youdao while fetching \"hi\""),
        _ => panic!("expected an error"),
    }
    assert!(check_response_status(199, "199", "x", "y").is_err());
    assert!(check_response_status(300, "300 Multiple Choices", "x", "y").is_err());
}

#[test]
fn fresh_results_are_not_cached() {
    let s = YoudaoSource::new("https://m.youdao.com");
    let page = r#"<div class="search_result-dict"><div class="trans-container"><div class="basic"><div class="col2"><a class="point">hello</a></div></div></div></div>"#;
    let r = fetched_from_page(&s, "你好", page).ok().unwrap();
    assert!(!r.is_cached);
    assert!(fetched_from_page(&s, "你好", "<p/>").is_err());
}

#[test]
fn error_messages() {
    assert_eq!(Error::NoTranslationResults.message(), "No translation results");
    assert_eq!(Error::Parse("x".to_string()).message(), "Failed to parse response: x");
    assert_eq!(Error::Http("t".to_string()).message(), "HTTP request failed: t");
    assert_eq!(Error::Database("d".to_string()).message(), "Database error: d");
    assert_eq!(Error::Serialize("s".to_string()).message(), "Serialization error: s");
    assert_eq!(Error::Io("i".to_string()).message(), "I/O error: i");
    assert_eq!(Error::InvalidDatabasePath("p".to_string()).message(), "Invalid UTF-8 database path: p");
}

#[test]
fn ansi_support() {
    assert!(!supports_ansi_with(true, Some("xterm")));
    assert!(supports_ansi_with(false, Some("xterm")));
    assert!(!supports_ansi_with(false, Some("dumb")));
    assert!(!supports_ansi_with(false, None));
}

#[test]
fn inputs() {
    assert_eq!(query_of(&vec!["good".to_string(), "morning".to_string()]), "good morning");
    assert_eq!(query_of(&vec![]), "");
    assert!(matches!(input_mode("x", true), InputMode::Arguments));
    assert!(matches!(input_mode("", true), InputMode::Pipe));
    assert!(matches!(input_mode("", false), InputMode::Interactive));
    assert_eq!(piped_query("  word \n"), Some("word".to_string()));
    assert_eq!(piped_query(" \n"), None);
    assert_eq!(prompt_query(""), None);
    assert_eq!(prompt_query(" a b "), Some("a b".to_string()));
    assert_eq!(prompt_query("  "), Some("".to_string()));
    assert_eq!(prompt(false), "[rdict]# ");
    assert_eq!(prompt(true), "\x1b[32m[rdict]\x1b[39m# ");
    assert!(matches!(output_format(true, true), Format::Json));
    assert!(matches!(output_format(false, true), Format::Markdown { colored: true }));
}

#[test]
fn layout() {
    assert_eq!(frame_output("a\nb", false, "w"), "\n  a\n  b\n");
    assert_eq!(
        frame_output("a", true, "w"),
        "\n  a\n\n  \x1b[90m[ w ] From cache\x1b[39m\n"
    );
    assert_eq!(frame_output("a\r\nb\n", false, "w"), "\n  a\n  b\n");
    assert!(!needs_pager(4, "a\nb\nc"));
    assert!(needs_pager(6, "a\nb\nc"));
    assert!(!needs_pager(7, "a\nb\nc"));
}
