use unimarkup::lexer::TokenKind as LexKind;
use unimarkup::tokenize::kind::InlineTokenKind;

#[test]
fn inline_kind_text_of_keywords() {
    assert_eq!(InlineTokenKind::Bold.as_str(), "**");
    assert_eq!(InlineTokenKind::BoldItalic.as_str(), "***");
    assert_eq!(InlineTokenKind::Math.as_str(), "$$");
    assert_eq!(InlineTokenKind::Comment.as_str(), ";;");
    assert_eq!(InlineTokenKind::EscapedNewline.as_str(), "\n");
    assert_eq!(InlineTokenKind::Digit(7).as_str(), "7");
    assert_eq!(InlineTokenKind::Eoi.as_str(), "");
    assert_eq!(InlineTokenKind::MediaInsert.as_str(), "!!");
}

#[test]
fn inline_kind_len_counts_bytes() {
    assert_eq!(InlineTokenKind::Italic.len(), 1);
    assert_eq!(InlineTokenKind::UnderlineSubscript.len(), 3);
    assert_eq!(InlineTokenKind::Overline.len(), 3);
    assert_eq!(InlineTokenKind::Eoi.len(), 0);
}

#[test]
fn inline_kind_default_is_plain() {
    assert_eq!(InlineTokenKind::default(), InlineTokenKind::Plain);
}

#[test]
fn inline_kind_predicates() {
    assert!(InlineTokenKind::Plain.is_not_keyword());
    assert!(InlineTokenKind::Bold.is_keyword());
    assert!(InlineTokenKind::Comment.is_keyword());
    assert!(InlineTokenKind::OpenBrace.is_open_parenthesis());
    assert!(!InlineTokenKind::OpenBrace.is_close_parenthesis());
    assert!(InlineTokenKind::CloseBracket.is_parenthesis());
    assert!(InlineTokenKind::Eoi.is_space());
    assert!(!InlineTokenKind::EscapedWhitespace.is_space());
    assert!(InlineTokenKind::DoubleQuote.is_format_keyword());
    assert!(!InlineTokenKind::Cite.is_format_keyword());
    assert!(InlineTokenKind::Cite.is_scoped_format_keyword());
    assert!(!InlineTokenKind::Bold.is_scoped_format_keyword());
}

#[test]
fn lexer_kind_to_inline_kind() {
    assert_eq!(InlineTokenKind::from(LexKind::Star(1)), InlineTokenKind::Italic);
    assert_eq!(InlineTokenKind::from(LexKind::Star(2)), InlineTokenKind::Bold);
    assert_eq!(InlineTokenKind::from(LexKind::Star(3)), InlineTokenKind::BoldItalic);
    assert_eq!(InlineTokenKind::from(LexKind::Star(4)), InlineTokenKind::Plain);
    assert_eq!(InlineTokenKind::from(LexKind::Underline(3)), InlineTokenKind::UnderlineSubscript);
    assert_eq!(InlineTokenKind::from(LexKind::Pipe(1)), InlineTokenKind::Plain);
    assert_eq!(InlineTokenKind::from(LexKind::Semicolon(2)), InlineTokenKind::Comment);
    assert_eq!(InlineTokenKind::from(LexKind::ExclamationMark(2)), InlineTokenKind::MediaInsert);
    assert_eq!(InlineTokenKind::from(LexKind::Lt(5)), InlineTokenKind::Lt(5));
    assert_eq!(InlineTokenKind::from(LexKind::Blankline), InlineTokenKind::Eoi);
    assert_eq!(InlineTokenKind::from(LexKind::Hash(2)), InlineTokenKind::Plain);
}

#[test]
fn inline_kind_to_lexer_kind_and_back() {
    assert_eq!(LexKind::from(InlineTokenKind::Bold), LexKind::Star(2));
    assert_eq!(LexKind::from(InlineTokenKind::Cite), LexKind::Ampersand(2));
    assert_eq!(LexKind::from(InlineTokenKind::SingleDot), LexKind::Dot(1));
    for k in [
        InlineTokenKind::Bold,
        InlineTokenKind::Subscript,
        InlineTokenKind::Overline,
        InlineTokenKind::Comment,
        InlineTokenKind::Digit(3),
        InlineTokenKind::Gt(2),
        InlineTokenKind::Eoi,
    ] {
        assert_eq!(InlineTokenKind::from(LexKind::from(k)), k);
    }
    assert_eq!(
        InlineTokenKind::from(LexKind::from(InlineTokenKind::SingleDot)),
        InlineTokenKind::Dot
    );
}

#[test]
fn implicit_substitutions_pass_through() {
    let kind = unimarkup::lexer::ImplicitSubstitutionKind { id: 3 };
    let lexed = unimarkup::lexer::TokenKind::ImplicitSubstitution(kind);
    let inline = InlineTokenKind::from(lexed);
    assert_eq!(inline, InlineTokenKind::ImplicitSubstitution(kind));
    assert_eq!(unimarkup::lexer::TokenKind::from(inline), lexed);
    assert!(inline.is_not_keyword());
    assert!(!inline.is_keyword());
    assert!(!inline.is_space());
}
