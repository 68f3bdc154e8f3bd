use rdict_core::is_cjk;

#[test]
fn test_cjk_with_cjk_only() {
    assert!(is_cjk("你好"), "Expected CJK: {:?}", "你好");
}

#[test]
fn test_cjk_ascii_only() {
    assert!(!is_cjk("hello"), "Expected non-CJK: {:?}", "hello");
}

#[test]
fn test_cjk_mixed_input() {
    assert!(is_cjk("hello你好"), "Expected CJK: {:?}", "hello你好");
}

#[test]
fn cjk_block_bounds() {
    assert!(is_cjk("\u{4E00}"));
    assert!(is_cjk("\u{9FFF}"));
    assert!(!is_cjk("\u{4DFF}"));
    assert!(!is_cjk("\u{A000}"));
    assert!(!is_cjk(""));
    // Hiragana is outside the block.
    assert!(!is_cjk("こんにちは"));
}
