use rdict_core::gui::{update, Message, State, Task, TranslationState};
use rdict_core::parse::{ToEnglish, TranslationData};
use rdict_core::rdict::FetchedResult;

#[test]
fn editing_and_submitting() {
    let mut s = State::new();
    assert!(matches!(update(&mut s, Message::ContentChanged("  ".to_string())), Task::Idle));
    assert_eq!(s.text_input_content, "  ");
    assert!(matches!(update(&mut s, Message::Submit), Task::Idle));
    assert!(matches!(s.translation_result, TranslationState::Empty));
    update(&mut s, Message::ContentChanged(" hello ".to_string()));
    match update(&mut s, Message::Submit) {
        Task::Lookup(t) => assert_eq!(t, " hello "),
        Task::Idle => panic!("expected a lookup"),
    }
    assert!(matches!(s.translation_result, TranslationState::Loading));
}

#[test]
fn showing_results() {
    let mut s = State::new();
    update(&mut s, Message::TranslationError("boom".to_string()));
    assert!(matches!(s.translation_result, TranslationState::Error(ref e) if e == "boom"));
    let data = TranslationData::ToEnglish(ToEnglish { input_text: "好".to_string(), meanings: vec!["good".to_string()], examples: vec![] });
    update(&mut s, Message::TranslationResult(FetchedResult { data, is_cached: true }));
    assert!(matches!(s.translation_result, TranslationState::Translation(ref r) if r.is_cached));
}
