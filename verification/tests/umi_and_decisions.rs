use unimarkup::lexer::TokenKind;
use unimarkup::parser::bullet_list::{
    entry_has_body, entry_heading_ends, entry_start, starts_next_entry, starts_sub_entry, BulletListEntryKeyword,
};
use unimarkup::parser::heading::{heading_id, heading_level, HeadingLevel};
use unimarkup::parser::verbatim::{opening_ticks, verbatim_end, verbatim_header};
use unimarkup::Position;
use unimarkup::render::context::{Context, CITATION_ERROR};
use unimarkup::render::highlight::highlight_content;
use unimarkup::render::log_id::UmiParserError;
use unimarkup::render::umi::{read_blocks, read_row, UmiBlock, UmiRow};

fn row(position: u8, kind: &str, properties: &str, depth: u8, content: &str, attributes: &str) -> UmiRow {
    UmiRow::new(
        position,
        format!("id-{position}"),
        kind.to_string(),
        properties.to_string(),
        depth,
        content.to_string(),
        attributes.to_string(),
    )
}

#[test]
fn umi_heading_row() {
    let rows = vec![row(0, "Heading", "{\"level\":\"2\"}", 0, "Title", "")];
    match read_row(&rows, 0) {
        Ok(UmiBlock::Heading { id, level, content, attributes }) => {
            assert_eq!(id, "id-0");
            assert_eq!(level, HeadingLevel::Level2);
            assert_eq!(content, "Title");
            assert_eq!(attributes, None);
        }
        other => panic!("unexpected {other:?}"),
    }
    let hashes = vec![row(0, "Heading", "{\"level\":\"###\"}", 0, "T", "{x}")];
    match read_row(&hashes, 0) {
        Ok(UmiBlock::Heading { level, attributes, .. }) => {
            assert_eq!(level, HeadingLevel::Level3);
            assert_eq!(attributes, Some("{x}".to_string()));
        }
        other => panic!("unexpected {other:?}"),
    }
}

#[test]
fn umi_heading_errors() {
    let missing = vec![row(4, "Heading", "{}", 0, "T", "")];
    assert_eq!(read_row(&missing, 0).unwrap_err(), UmiParserError::MissingProperty("level".to_string(), 4));
    let invalid = vec![row(5, "Heading", "{\"level\":\"7\"}", 0, "T", "")];
    assert_eq!(read_row(&invalid, 0).unwrap_err(), UmiParserError::InvalidPropertyValue("level".to_string(), 5));
    let not_json = vec![row(6, "Heading", "level=1", 0, "T", "")];
    assert_eq!(read_row(&not_json, 0).unwrap_err(), UmiParserError::MissingProperty("level".to_string(), 6));
    let unknown = vec![row(7, "Table", "{}", 0, "T", "")];
    assert_eq!(read_row(&unknown, 0).unwrap_err(), UmiParserError::UnknownKind(7));
}

#[test]
fn umi_verbatim_row() {
    let rows = vec![row(
        1,
        "VerbatimBlock",
        "{\"implicit_closed\":\"true\",\"tick_len\":\"+4\",\"data_lang\":\"rust\"}",
        0,
        "fn x",
        "",
    )];
    match read_row(&rows, 0) {
        Ok(UmiBlock::VerbatimBlock { content, data_lang, attributes, implicit_closed, tick_len }) => {
            assert_eq!(content, "fn x");
            assert_eq!(data_lang, Some("rust".to_string()));
            assert_eq!(attributes, None);
            assert!(implicit_closed);
            assert_eq!(tick_len, 4);
        }
        other => panic!("unexpected {other:?}"),
    }
    let odd = vec![row(1, "VerbatimBlock", "{\"implicit_closed\":\"yes\",\"tick_len\":\"x\"}", 0, "", "")];
    match read_row(&odd, 0) {
        Ok(UmiBlock::VerbatimBlock { data_lang, implicit_closed, tick_len, .. }) => {
            assert_eq!(data_lang, None);
            assert!(!implicit_closed);
            assert_eq!(tick_len, 0);
        }
        other => panic!("unexpected {other:?}"),
    }
    let no_ticks = vec![row(2, "VerbatimBlock", "{\"implicit_closed\":\"false\"}", 0, "", "")];
    assert_eq!(read_row(&no_ticks, 0).unwrap_err(), UmiParserError::MissingProperty("tick_len".to_string(), 2));
}

#[test]
fn umi_bullet_list_rows() {
    let rows = vec![
        row(0, "BulletList", "{}", 0, "", ""),
        row(1, "BulletListEntry", "{\"keyword\":\"-\",\"heading\":\"one\"}", 1, "", ""),
        row(2, "Paragraph", "{}", 2, "body", ""),
        row(3, "BulletListEntry", "{\"keyword\":\"*\",\"heading\":\"two\"}", 1, "", ""),
        row(4, "Paragraph", "{}", 0, "after", ""),
    ];
    match read_row(&rows, 0) {
        Ok(UmiBlock::BulletList { entries }) => {
            assert_eq!(entries.len(), 2);
            match &entries[0] {
                UmiBlock::BulletListEntry { keyword, heading, body } => {
                    assert_eq!(*keyword, BulletListEntryKeyword::Minus);
                    assert_eq!(heading, "one");
                    assert_eq!(body.len(), 1);
                    assert!(matches!(&body[0], UmiBlock::Paragraph { content } if content == "body"));
                }
                other => panic!("unexpected {other:?}"),
            }
            assert!(matches!(&entries[1], UmiBlock::BulletListEntry { keyword: BulletListEntryKeyword::Star, .. }));
        }
        other => panic!("unexpected {other:?}"),
    }
    let blocks = read_blocks(&rows).unwrap();
    assert_eq!(blocks.len(), 2);
    assert!(matches!(&blocks[1], UmiBlock::Paragraph { content } if content == "after"));
}

#[test]
fn umi_bullet_list_stops_at_a_child_that_is_no_entry() {
    let rows = vec![
        row(0, "BulletList", "{}", 0, "", ""),
        row(1, "BulletListEntry", "{\"keyword\":\"+\",\"heading\":\"a\"}", 1, "", ""),
        row(2, "Paragraph", "{}", 1, "stray", ""),
        row(3, "BulletListEntry", "{\"keyword\":\"+\",\"heading\":\"b\"}", 1, "", ""),
    ];
    match read_row(&rows, 0) {
        Ok(UmiBlock::BulletList { entries }) => assert_eq!(entries.len(), 1),
        other => panic!("unexpected {other:?}"),
    }
}

#[test]
fn umi_entry_errors() {
    let bad_keyword = vec![row(3, "BulletListEntry", "{\"keyword\":\"#\",\"heading\":\"a\"}", 0, "", "")];
    assert_eq!(
        read_row(&bad_keyword, 0).unwrap_err(),
        UmiParserError::InvalidPropertyValue("keyword".to_string(), 3)
    );
    let no_heading = vec![row(3, "BulletListEntry", "{\"keyword\":\"-\"}", 0, "", "")];
    assert_eq!(read_row(&no_heading, 0).unwrap_err(), UmiParserError::MissingProperty("heading".to_string(), 3));
    let bad_child = vec![
        row(0, "BulletListEntry", "{\"keyword\":\"-\",\"heading\":\"a\"}", 0, "", ""),
        row(9, "Unknown", "{}", 1, "", ""),
    ];
    assert_eq!(read_row(&bad_child, 0).unwrap_err(), UmiParserError::UnknownKind(9));
    assert_eq!(read_blocks(&bad_child).unwrap_err(), UmiParserError::UnknownKind(9));
}

#[test]
fn heading_level_decision() {
    assert_eq!(heading_level(&vec![TokenKind::Hash(3), TokenKind::Space]), Some(HeadingLevel::Level3));
    assert_eq!(heading_level(&vec![TokenKind::Hash(7), TokenKind::Space]), None);
    assert_eq!(heading_level(&vec![TokenKind::Hash(1), TokenKind::Whitespace]), None);
    assert_eq!(heading_level(&vec![TokenKind::Star(1), TokenKind::Space]), None);
    assert_eq!(heading_level(&vec![TokenKind::Hash(1)]), None);
}

#[test]
fn heading_id_decision() {
    assert_eq!(heading_id(false, None, "My Title"), Some("my-title".to_string()));
    assert_eq!(heading_id(true, None, "My Title"), None);
    assert_eq!(heading_id(true, Some(Some("custom".to_string())), "My Title"), Some("custom".to_string()));
    assert_eq!(heading_id(true, Some(None), "A \"q\""), Some("a-q".to_string()));
}

#[test]
fn bullet_list_entry_decisions() {
    let minus = vec![TokenKind::Minus(1), TokenKind::Space];
    assert_eq!(entry_start(&minus), Some(BulletListEntryKeyword::Minus));
    assert_eq!(entry_start(&vec![TokenKind::Minus(2), TokenKind::Space]), None);
    let next = vec![TokenKind::Newline, TokenKind::Plus(1), TokenKind::Space];
    assert!(starts_next_entry(&next));
    assert!(!starts_sub_entry(&next));
    let sub = vec![TokenKind::Newline, TokenKind::Space, TokenKind::Space, TokenKind::Star(1), TokenKind::Space];
    assert!(starts_sub_entry(&sub));
    assert!(!starts_next_entry(&sub));
    assert!(entry_heading_ends(false, false, &sub));
    assert!(entry_heading_ends(true, false, &minus));
    assert!(!entry_heading_ends(false, false, &minus));
    assert!(!entry_has_body(false, &next));
    assert!(entry_has_body(false, &sub));
    assert!(!entry_has_body(true, &sub));
}

#[test]
fn context_falls_back_to_error_markers() {
    let failed = Context::new(2, None, None, None);
    assert_eq!(failed.rendered_citation(0), Some(&CITATION_ERROR.to_string()));
    assert_eq!(failed.rendered_citation(1), Some(&CITATION_ERROR.to_string()));
    assert_eq!(failed.rendered_citation(2), None);
    assert_eq!(failed.footnotes, CITATION_ERROR);
    assert_eq!(failed.bibliography, CITATION_ERROR);
    let ok = Context::new(1, Some(vec!["[1]".to_string()]), Some("notes".to_string()), None);
    assert_eq!(ok.rendered_citation(0), Some(&"[1]".to_string()));
    assert_eq!(ok.footnotes, "notes");
    assert_eq!(ok.bibliography, CITATION_ERROR);
}

#[test]
fn highlighting_empty_content_gives_empty_html() {
    assert_eq!(highlight_content("", "rust"), Some(String::new()));
    let rust = highlight_content("let x = 1;\n", "rust").unwrap();
    assert!(rust.contains("highlighted_"));
    assert!(rust.contains("let"));
    let plain = highlight_content("let x = 1;\n", "plain").unwrap();
    assert_ne!(rust, plain);
    assert_eq!(highlight_content("let x = 1;\n", "no-such-language"), Some(plain.clone()));
    assert_eq!(highlight_content("let x = 1;\n", "PLAIN"), Some(plain));
}

#[test]
fn verbatim_opening_decision() {
    assert_eq!(opening_ticks(TokenKind::Tick(3)), Some(3));
    assert_eq!(opening_ticks(TokenKind::Tick(5)), Some(5));
    assert_eq!(opening_ticks(TokenKind::Tick(2)), None);
    assert_eq!(opening_ticks(TokenKind::Hash(3)), None);
}

fn lexed(tokens: &[(TokenKind, &str)]) -> Vec<(TokenKind, String)> {
    tokens.iter().map(|(k, t)| (*k, t.to_string())).collect()
}

#[test]
fn verbatim_header_decisions() {
    let rust = lexed(&[(TokenKind::Plain, "ru"), (TokenKind::Plain, "st"), (TokenKind::Newline, "\n"), (TokenKind::Plain, "x")]);
    assert_eq!(verbatim_header(&rust), Some(Some("rust".to_string())));
    let none = lexed(&[(TokenKind::Newline, "\n"), (TokenKind::Plain, "x")]);
    assert_eq!(verbatim_header(&none), Some(None));
    let trailing_space = lexed(&[(TokenKind::Plain, "c"), (TokenKind::Whitespace, " "), (TokenKind::Whitespace, " "), (TokenKind::Newline, "\n"), (TokenKind::Plain, "x")]);
    assert_eq!(verbatim_header(&trailing_space), Some(Some("c".to_string())));
    let refused = lexed(&[(TokenKind::Plain, "c"), (TokenKind::Whitespace, " "), (TokenKind::Plain, "more"), (TokenKind::Newline, "\n")]);
    assert_eq!(verbatim_header(&refused), None);
    let later_line = lexed(&[(TokenKind::Plain, "c"), (TokenKind::Whitespace, " "), (TokenKind::Newline, "\n"), (TokenKind::Plain, "code")]);
    assert_eq!(verbatim_header(&later_line), Some(Some("c".to_string())));
    assert_eq!(verbatim_header(&vec![]), Some(None));
}

#[test]
fn verbatim_end_decisions() {
    let start = Position { line: 4, column: 0 };
    let end = Position { line: 4, column: 3 };
    assert_eq!(verbatim_end(false, start, end), (true, end));
    assert_eq!(verbatim_end(true, start, end), (false, start));
}
