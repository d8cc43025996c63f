use judgeapp::sections::looks_like_section_title;

#[test]
fn section_titles_capitalise_long_words_only() {
    assert!(looks_like_section_title("Tournament Basics"));
    assert!(looks_like_section_title("Big dog"));
    assert!(looks_like_section_title("Rules of the Game"));
    assert!(!looks_like_section_title("Each player draws their starting hand"));
    assert!(!looks_like_section_title("A B C D E F"));
    assert!(!looks_like_section_title("Players draws"));
    assert!(!looks_like_section_title(""));
}

#[test]
fn white_space_agrees_with_std_on_every_char() {
    for u in 0u32..=0x10FFFF {
        if let Some(c) = char::from_u32(u) {
            assert_eq!(judgeapp::text::is_whitespace(c), c.is_whitespace(), "U+{:04X}", u);
        }
    }
}
