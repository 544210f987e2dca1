use smithy_server::anchor::{anchors, contains, replace_anchor, AnchorError};

#[test]
fn updates_empty() {
    let mut text = "this is the start".to_string();
    assert!(replace_anchor(&mut text, &anchors("foo"), "hello!").unwrap());
    assert_eq!(
        text,
        "this is the start\n<!-- anchor_start:foo -->hello!<!-- anchor_end:foo -->"
    );
}

#[test]
fn updates_existing() {
    let mut text =
        "this is the start\n<!-- anchor_start:foo -->hello!<!-- anchor_end:foo -->".to_string();
    assert!(replace_anchor(&mut text, &anchors("foo"), "goodbye!").unwrap());
    assert_eq!(
        text,
        "this is the start\n<!-- anchor_start:foo -->goodbye!<!-- anchor_end:foo -->"
    );

    // no replacement should return false
    assert_eq!(
        replace_anchor(&mut text, &anchors("foo"), "goodbye!").unwrap(),
        false
    )
}

#[test]
fn anchor_markers() {
    let (start, end) = anchors("bar");
    assert_eq!(start, "<!-- anchor_start:bar -->");
    assert_eq!(end, "<!-- anchor_end:bar -->");
}

#[test]
fn end_without_start_is_refused() {
    let before = "intro\n<!-- anchor_end:foo -->".to_string();
    let mut text = before.clone();
    let err = replace_anchor(&mut text, &anchors("foo"), "x").unwrap_err();
    assert!(matches!(err, AnchorError::EndWithoutStart));
    assert_eq!(err.message(), "found end anchor but no start anchor");
    assert_eq!(text, before);
}

#[test]
fn start_without_end_is_refused() {
    let before = "intro\n<!-- anchor_start:foo -->old".to_string();
    let mut text = before.clone();
    let err = replace_anchor(&mut text, &anchors("foo"), "x").unwrap_err();
    assert_eq!(
        err.message(),
        "expected matching end anchor <!-- anchor_end:foo -->"
    );
    assert_eq!(text, before);
}

#[test]
fn only_the_named_anchor_is_replaced() {
    let mut text = "a<!-- anchor_start:x -->1<!-- anchor_end:x -->b<!-- anchor_start:y -->2<!-- anchor_end:y -->c"
        .to_string();
    assert!(replace_anchor(&mut text, &anchors("y"), "two").unwrap());
    assert_eq!(
        text,
        "a<!-- anchor_start:x -->1<!-- anchor_end:x -->b<!-- anchor_start:y -->two<!-- anchor_end:y -->c"
    );
}

#[test]
fn non_ascii_text_is_handled_by_character() {
    let mut text = "é<!-- anchor_start:ü -->ö<!-- anchor_end:ü -->ß".to_string();
    assert!(replace_anchor(&mut text, &anchors("ü"), "ñ").unwrap());
    assert_eq!(text, "é<!-- anchor_start:ü -->ñ<!-- anchor_end:ü -->ß");
}

#[test]
fn contains_finds_substrings() {
    assert!(contains("hello world", "o w"));
    assert!(contains("abc", ""));
    assert!(!contains("abc", "abcd"));
    assert!(!contains("", "a"));
}
