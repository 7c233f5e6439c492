use agda_detector::classify::{classify_text, get_reaction, normalize, Classification, Symbol};

#[test]
fn repeated_representative_matches_fire() {
    assert_eq!(classify_text("喔喔"), Classification::Match(Symbol::Fire));
}

#[test]
fn mixed_equivalence_class_still_fire() {
    // Both characters normalize to the representative before comparison.
    assert_eq!(classify_text("喔哦"), Classification::Match(Symbol::Fire));
    assert_eq!(classify_text("哦喔"), Classification::Match(Symbol::Fire));
    assert_eq!(classify_text("哦哦"), Classification::Match(Symbol::Fire));
}

#[test]
fn repeated_ascii_is_empty_match() {
    assert_eq!(classify_text("aa"), Classification::EmptyMatch);
}

#[test]
fn differing_characters_are_empty_match() {
    assert_eq!(classify_text("喔b"), Classification::EmptyMatch);
}

#[test]
fn single_character_is_empty_match() {
    assert_eq!(classify_text("喔"), Classification::EmptyMatch);
}

#[test]
fn missing_text_is_no_opinion() {
    assert_eq!(get_reaction(None), Classification::NoOpinion);
}

#[test]
fn other_repeated_non_ascii_matches_think() {
    assert_eq!(classify_text("啊啊"), Classification::Match(Symbol::Think));
}

#[test]
fn whitespace_is_stripped_before_detection() {
    assert_eq!(classify_text(" 喔 喔 后面无关"), Classification::Match(Symbol::Fire));
    assert_eq!(classify_text("\u{3000}哦\t喔"), Classification::Match(Symbol::Fire));
    assert_eq!(classify_text("  "), Classification::EmptyMatch);
    assert_eq!(classify_text(""), Classification::EmptyMatch);
}

#[test]
fn trailing_content_is_irrelevant() {
    assert_eq!(classify_text("喔喔喔喔喔"), Classification::Match(Symbol::Fire));
    assert_eq!(classify_text("喔喔 hello"), Classification::Match(Symbol::Fire));
    assert_eq!(classify_text("a喔喔"), Classification::EmptyMatch);
}

#[test]
fn normalize_strips_and_canonicalizes() {
    assert_eq!(normalize(" 哦 x喔\n"), vec!['喔', 'x', '喔']);
    assert_eq!(normalize(""), Vec::<char>::new());
}

#[test]
fn classification_is_deterministic() {
    let a = classify_text("哦 喔随便");
    let b = classify_text("哦 喔随便");
    assert_eq!(a, b);
}

#[test]
fn symbols_render_to_emoji() {
    assert_eq!(Symbol::Fire.emoji(), "🔥");
    assert_eq!(Symbol::Think.emoji(), "🤔");
}
