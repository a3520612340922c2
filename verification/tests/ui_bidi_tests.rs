use aether::bidi::{
    bidi, is_hebrew_char, is_hebrew_punct, process_bidi_text, reverse_hebrew_segment, BiDiEngine,
    LayoutDirection, TextAlignment,
};

#[test]
fn test_bidi_hebrew_detection_and_alignment() {
    assert_eq!(
        BiDiEngine::detect_text_direction("שיר חדש"),
        LayoutDirection::Rtl
    );
    assert_eq!(
        BiDiEngine::detect_text_direction("New Song 2024"),
        LayoutDirection::Ltr
    );

    let engine = BiDiEngine::new(LayoutDirection::Rtl);
    assert_eq!(
        engine.resolve_alignment(TextAlignment::Start),
        TextAlignment::End
    );
}

#[test]
fn detection_uses_first_strong_character() {
    assert_eq!(BiDiEngine::detect_text_direction(""), LayoutDirection::Ltr);
    assert_eq!(BiDiEngine::detect_text_direction("123 !?"), LayoutDirection::Ltr);
    assert_eq!(BiDiEngine::detect_text_direction("12 שלום"), LayoutDirection::Rtl);
    assert_eq!(BiDiEngine::detect_text_direction("Abc שלום"), LayoutDirection::Ltr);
    assert_eq!(BiDiEngine::detect_text_direction("مرحبا"), LayoutDirection::Rtl);
}

#[test]
fn alignment_in_both_directions() {
    let rtl = BiDiEngine::default();
    assert!(rtl.is_rtl());
    assert_eq!(rtl.direction(), LayoutDirection::Rtl);
    assert_eq!(rtl.resolve_alignment(TextAlignment::End), TextAlignment::Start);
    assert_eq!(rtl.resolve_alignment(TextAlignment::Center), TextAlignment::Center);
    let ltr = BiDiEngine::new(LayoutDirection::Ltr);
    assert!(!ltr.is_rtl());
    assert_eq!(ltr.resolve_alignment(TextAlignment::Start), TextAlignment::Start);
    // resolving twice gives the alignment back
    let once = rtl.resolve_alignment(TextAlignment::Start);
    assert_eq!(rtl.resolve_alignment(once), TextAlignment::Start);
}

#[test]
fn text_without_hebrew_is_unchanged() {
    assert_eq!(process_bidi_text("Hello (world) 2024"), "Hello (world) 2024");
    assert_eq!(process_bidi_text(""), "");
}

#[test]
fn hebrew_runs_are_reversed_in_place() {
    assert_eq!(process_bidi_text("שלום"), "םולש");
    assert_eq!(process_bidi_text("abc שלום def"), "abc  םולשdef");
    // punctuation after a Hebrew letter joins the run and moves with it
    assert_eq!(process_bidi_text("שלום, x"), " ,םולשx");
    assert_eq!(bidi("אב"), "בא");
}

#[test]
fn brackets_are_mirrored_inside_hebrew_runs() {
    assert_eq!(reverse_hebrew_segment("(אב)"), "(בא)");
    assert_eq!(reverse_hebrew_segment("[<{"), "}>]");
    assert_eq!(process_bidi_text("א(ב)"), "(ב)א");
}

#[test]
fn bidi_keeps_character_count() {
    for s in ["שיר חדש בעברית", "Mixed טקסט (here)", "אבג!?", "x"] {
        assert_eq!(process_bidi_text(s).chars().count(), s.chars().count());
    }
}

#[test]
fn engine_processes_only_in_rtl() {
    let rtl = BiDiEngine::new(LayoutDirection::Rtl);
    let ltr = BiDiEngine::new(LayoutDirection::Ltr);
    assert_eq!(rtl.process("אב"), "בא");
    assert_eq!(ltr.process("אב"), "אב");
}

#[test]
fn character_classes() {
    assert!(is_hebrew_char('א'));
    assert!(is_hebrew_char('\u{0590}'));
    assert!(is_hebrew_char('\u{05FF}'));
    assert!(!is_hebrew_char('\u{0600}'));
    assert!(!is_hebrew_char('a'));
    assert!(is_hebrew_punct(' '));
    assert!(is_hebrew_punct(')'));
    assert!(!is_hebrew_punct('['));
}

#[test]
fn direction_from_given_classes() {
    assert_eq!(
        BiDiEngine::direction_with_classes("12 abc", &vec![false, false, false, true, true, true]),
        LayoutDirection::Ltr
    );
    assert_eq!(
        BiDiEngine::direction_with_classes("1 שלום", &vec![false, false, true, true, true, true]),
        LayoutDirection::Rtl
    );
    assert_eq!(BiDiEngine::direction_with_classes("123", &vec![false, false, false]), LayoutDirection::Ltr);
}
