use unimarkup::{try_tokenize, AsSingleTokenKind, InlineError, Newline, Position, SingleTokenKind, Token, TokenKind, Tokenizer};

fn joined_contents(input: &str) -> String {
    input.tokenize().unwrap().iter().map(|t| t.content.as_str()).collect::<Vec<_>>().join("")
}

#[test]
fn tokens_hold_the_input_without_escaping_backslashes() {
    assert_eq!(joined_contents("a\\*b* **c***"), "a*b* **c***");
    assert_eq!(joined_contents("]x [y] `z`"), "x [y] `z`");
    assert_eq!(joined_contents("***a* b**"), "***a* b**");
    assert_eq!(joined_contents("line\nnext\\\\"), "line\nnext\\");
}

#[test]
fn first_token_starts_at_the_offset() {
    let offset = Position { line: 3, column: 7 };
    let tokens = "*bold* text".tokenize_with_offset(offset).unwrap();
    assert_eq!(tokens[0].position, offset);
    let plain = "*bold* text".tokenize().unwrap();
    assert_eq!(plain[0].position, Position::default());
    assert_eq!(plain.len(), tokens.len());
}

#[test]
fn empty_input_has_no_tokens() {
    assert!("".tokenize().unwrap().is_empty());
}

#[test]
fn unclosed_text_group_is_a_closing_violation() {
    assert_eq!("[abc".tokenize(), Err(InlineError::ClosingViolation));
    assert_eq!("a [b *c*".tokenize(), Err(InlineError::ClosingViolation));
    assert!("[abc]".tokenize().is_ok());
}

#[test]
fn token_length_counts_graphemes() {
    let t = Token {
        kind: TokenKind::Plain,
        content: "a\u{310}b".to_string(),
        position: Position::default(),
    };
    assert_eq!(t.length(), 2);
    let nl = Token { kind: TokenKind::NewLine, content: "\n".to_string(), position: Position::default() };
    assert_eq!(nl.length(), 0);
    assert!(nl.is_space_or_newline());
    let close = Token {
        kind: TokenKind::TextGroupClose,
        content: "]".to_string(),
        position: Position::default(),
    };
    assert!(close.closes_scope());
    assert!(!close.is_space_or_newline());
}

#[test]
fn single_token_kinds() {
    assert_eq!("*".as_single_token_kind(), SingleTokenKind::Asterisk);
    assert_eq!("\\".as_single_token_kind(), SingleTokenKind::Backslash);
    assert_eq!("`".as_single_token_kind(), SingleTokenKind::Accent);
    assert_eq!("[".as_single_token_kind(), SingleTokenKind::LeftSquareBracket);
    assert_eq!("]".as_single_token_kind(), SingleTokenKind::RightSquareBracket);
    assert_eq!("\r\n".as_single_token_kind(), SingleTokenKind::Newline);
    assert_eq!("\t".as_single_token_kind(), SingleTokenKind::Space);
    assert_eq!("\u{3000}".as_single_token_kind(), SingleTokenKind::Space);
    assert_eq!("x".as_single_token_kind(), SingleTokenKind::Plain);
    assert!("\r".is_newline());
    assert!(!" ".is_newline());
    assert!("\n".to_string().is_newline());
}

#[test]
fn token_kind_texts() {
    assert_eq!(TokenKind::BoldOpen.as_str(), "**");
    assert_eq!(TokenKind::BoldItalicClose.as_str(), "***");
    assert_eq!(TokenKind::VerbatimOpen.as_str(), "`");
    assert_eq!(TokenKind::VerbatimClose.as_str(), "`");
    assert_eq!(TokenKind::EmojiOpen.as_str(), "::");
    assert_eq!(TokenKind::TextGroupClose.as_str(), "]");
    assert_eq!(TokenKind::EscapedGrapheme.as_str(), "\\");
    assert_eq!(TokenKind::Plain.as_str(), "");
    assert_eq!(TokenKind::default(), TokenKind::Plain);
    assert!(TokenKind::Space.is_space_or_newline());
}

#[test]
fn input_without_text_group_always_tokenizes() {
    assert!("a ] b *c".tokenize().is_ok());
    assert!("\\[not a group".tokenize().is_ok());
    assert!("***".tokenize().is_ok());
}

#[test]
fn try_tokenize_refuses_stuck_inputs() {
    let origin = Position::default();
    assert!(try_tokenize("*`*`", origin).is_none());
    let ok = try_tokenize("*bold* text", origin).unwrap().unwrap();
    assert_eq!(ok, "*bold* text".tokenize().unwrap());
    assert_eq!(try_tokenize("[open", origin), Some(Err(InlineError::ClosingViolation)));
    let offset = Position { line: 2, column: 5 };
    let shifted = try_tokenize("a *b*", offset).unwrap().unwrap();
    assert_eq!(shifted[0].position, offset);
    assert_eq!(try_tokenize("", origin), Some(Ok(vec![])));
}

#[test]
fn whole_input_is_kept_without_backslashes() {
    for input in ["***a* b**", "x [y] `z`", "a\nb", "ä́ ** b", "[*a*]"] {
        let tokens = input.tokenize().unwrap();
        let joined: String = tokens.iter().map(|t| t.content.as_str()).collect();
        if !input.contains('\\') {
            assert_eq!(joined, input);
        }
    }
}

#[test]
fn offset_shifts_positions() {
    let input = "a *b*\nc **d**";
    let plain = input.tokenize().unwrap();
    let offset = Position { line: 3, column: 7 };
    let moved = input.tokenize_with_offset(offset).unwrap();
    assert_eq!(plain.len(), moved.len());
    for (p, m) in plain.iter().zip(moved.iter()) {
        assert_eq!(m.kind, p.kind);
        assert_eq!(m.content, p.content);
        assert_eq!(m.position.line, p.position.line + 3);
        let column = if p.position.line == 0 { p.position.column + 7 } else { p.position.column };
        assert_eq!(m.position.column, column);
    }
}

#[test]
fn closing_drops_openers_after_the_matched_one() {
    let tokens = "*a **b*".tokenize().unwrap();
    let kinds: Vec<TokenKind> = tokens.iter().map(|t| t.kind).collect();
    assert_eq!(
        kinds,
        vec![TokenKind::ItalicOpen, TokenKind::Plain, TokenKind::Space, TokenKind::Plain, TokenKind::ItalicClose]
    );
    assert_eq!(tokens[3].content, "**b");
}

#[test]
fn each_asterisk_adds_its_text() {
    for input in ["*", "**", "***", "****", "a*", "a **", "*** *"] {
        let joined: String = input.tokenize().unwrap().iter().map(|t| t.content.as_str()).collect();
        assert_eq!(joined, input);
    }
}

#[test]
fn no_token_is_empty() {
    for input in ["***a* b**", "x [y] `z`", "a\\*b", "\\\\", "] *a", "**b* c*", "[*a*] \n x"] {
        for token in input.tokenize().unwrap() {
            assert!(!token.content.is_empty(), "empty token in {input:?}");
        }
    }
}
