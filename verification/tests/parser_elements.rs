use unimarkup::lexer::TokenKind;
use unimarkup::parser::verbatim::VerbatimBlock;
use unimarkup::Position;
use unimarkup::parser::block_parser::{get_parser_fn, BlockParserFn};
use unimarkup::parser::bullet_list::{BulletListEntryKeyword, ConversionError};
use unimarkup::parser::context::{BlockContext, InlineContext, InlineContextFlags};
use unimarkup::parser::heading::{as_id, heading_prefix_sequences, sub_heading_start, AtomicError, HeadingLevel};
use unimarkup::parser::kind::PossibleBlockStart;
use unimarkup::parser::types::{ElementType, ElementTypeParseError, ELEMENT_TYPE_DELIMITER};

#[test]
fn heading_level_from_hashes_and_digits() {
    assert_eq!(HeadingLevel::try_from("###"), Ok(HeadingLevel::Level3));
    assert_eq!(HeadingLevel::try_from("6"), Ok(HeadingLevel::Level6));
    assert_eq!(HeadingLevel::try_from("#######"), Err(AtomicError::InvalidHeadingLvl));
    assert_eq!(HeadingLevel::try_from("7"), Err(AtomicError::InvalidHeadingLvl));
    assert_eq!(HeadingLevel::try_from(""), Err(AtomicError::InvalidHeadingLvl));
}

#[test]
fn heading_level_from_depth() {
    assert_eq!(HeadingLevel::try_from(1usize), Ok(HeadingLevel::Level1));
    assert_eq!(HeadingLevel::try_from(5usize), Ok(HeadingLevel::Level5));
    assert_eq!(HeadingLevel::try_from(0usize), Err(AtomicError::InvalidHeadingLvl));
    assert_eq!(HeadingLevel::try_from(7usize), Err(AtomicError::InvalidHeadingLvl));
}

#[test]
fn heading_level_round_trips() {
    for level in [
        HeadingLevel::Level1,
        HeadingLevel::Level2,
        HeadingLevel::Level3,
        HeadingLevel::Level4,
        HeadingLevel::Level5,
        HeadingLevel::Level6,
    ] {
        assert_eq!(HeadingLevel::try_from(level.as_str()), Ok(level));
        let depth = u8::from(level) as usize;
        assert_eq!(HeadingLevel::try_from(depth), Ok(level));
        assert_eq!(level.as_str().len(), depth);
    }
}

#[test]
fn heading_level_error_message() {
    assert_eq!(AtomicError::InvalidHeadingLvl.message(), "Invalid heading level detected.");
}

#[test]
fn heading_prefixes_of_levels() {
    let (hashes, spaces) = heading_prefix_sequences(2);
    assert_eq!(hashes, vec![TokenKind::Hash(2), TokenKind::Space]);
    assert_eq!(spaces, vec![TokenKind::Space; 3]);
    let (hashes, spaces) = heading_prefix_sequences(9);
    assert_eq!(hashes, vec![TokenKind::Hash(6), TokenKind::Space]);
    assert_eq!(spaces, vec![TokenKind::Space; 7]);
    assert_eq!(
        sub_heading_start(1),
        vec![TokenKind::Newline, TokenKind::Hash(2), TokenKind::Space]
    );
    assert_eq!(
        sub_heading_start(5),
        vec![TokenKind::Newline, TokenKind::Hash(6), TokenKind::Space]
    );
}

#[test]
fn bullet_list_keywords() {
    assert_eq!(BulletListEntryKeyword::try_from(TokenKind::Minus(1)), Ok(BulletListEntryKeyword::Minus));
    assert_eq!(BulletListEntryKeyword::try_from(TokenKind::Plus(1)), Ok(BulletListEntryKeyword::Plus));
    assert_eq!(BulletListEntryKeyword::try_from(TokenKind::Star(1)), Ok(BulletListEntryKeyword::Star));
    assert_eq!(
        BulletListEntryKeyword::try_from(TokenKind::Star(2)),
        Err(ConversionError::CannotConvertSymbol)
    );
    assert_eq!(
        BulletListEntryKeyword::try_from(TokenKind::Hash(1)),
        Err(ConversionError::CannotConvertSymbol)
    );
    assert_eq!(BulletListEntryKeyword::Minus.as_str(), "-");
    assert_eq!(BulletListEntryKeyword::Plus.as_str(), "+");
    assert_eq!(BulletListEntryKeyword::Star.as_str(), "*");
}

#[test]
fn possible_block_starts() {
    assert_eq!(PossibleBlockStart::from(TokenKind::Star(1)), PossibleBlockStart::BulletList);
    assert_eq!(PossibleBlockStart::from(TokenKind::Star(2)), PossibleBlockStart::Paragraph);
    assert_eq!(PossibleBlockStart::from(TokenKind::Hash(3)), PossibleBlockStart::Heading(3));
    assert_eq!(PossibleBlockStart::from(TokenKind::Hash(7)), PossibleBlockStart::Paragraph);
    assert_eq!(PossibleBlockStart::from(TokenKind::Minus(1)), PossibleBlockStart::BulletList);
    assert_eq!(PossibleBlockStart::from(TokenKind::Minus(2)), PossibleBlockStart::Paragraph);
    assert_eq!(PossibleBlockStart::from(TokenKind::Minus(3)), PossibleBlockStart::HorizontalLine);
    assert_eq!(PossibleBlockStart::from(TokenKind::Plus(4)), PossibleBlockStart::Decoration);
    assert_eq!(PossibleBlockStart::from(TokenKind::Tick(3)), PossibleBlockStart::VerbatimBlock);
    assert_eq!(PossibleBlockStart::from(TokenKind::Tick(1)), PossibleBlockStart::Paragraph);
    assert_eq!(PossibleBlockStart::from(TokenKind::Plain), PossibleBlockStart::Paragraph);
    assert_eq!(PossibleBlockStart::default(), PossibleBlockStart::Paragraph);
}

#[test]
fn element_type_names() {
    assert_eq!(ElementType::BulletList.as_str(), "bullet-list");
    assert_eq!(ElementType::Paragraph.to_string(), "paragraph");
    assert_eq!(ElementType::from_name("bullet-list"), Ok(ElementType::BulletList));
    assert_eq!(ElementType::from_name("Bullet-List"), Ok(ElementType::BulletList));
    assert_eq!(ElementType::from_name("HEADING"), Ok(ElementType::Heading));
    assert_eq!(ElementType::from_name("bulletlist"), Err(ElementTypeParseError::VariantNotFound));
    assert_eq!(ELEMENT_TYPE_DELIMITER, '-');
}

#[test]
fn block_and_inline_context() {
    let mut block = BlockContext::default();
    block.flags.logic_only = true;
    block.flags.keep_newline = true;
    let inline = block.inline_context();
    assert!(inline.flags.logic_only);
    assert!(inline.flags.allow_implicits);
    assert!(inline.flags.keep_newline);
    assert!(!inline.flags.keep_whitespaces);
    assert!(inline.citations.is_empty());

    let found = InlineContext {
        flags: InlineContextFlags {
            logic_only: false,
            keep_whitespaces: true,
            keep_newline: false,
            allow_implicits: false,
        },
        citations: vec![vec!["doe2020".to_string()]],
    };
    block.update_from(found);
    assert_eq!(block.citations, vec![vec!["doe2020".to_string()]]);
    assert!(block.flags.logic_only);
    assert!(!block.flags.keep_whitespaces);
}

#[test]
fn heading_ids() {
    assert_eq!(as_id("My Heading \"x\"\\ y"), "my-heading-x-y");
    assert_eq!(as_id("\u{c4}rger\tmit 'Quotes'"), "\u{e4}rger-mit-quotes");
    assert_eq!(as_id(""), "");
}

#[test]
fn parser_functions_per_block_start() {
    let mut context = BlockContext::default();
    assert_eq!(
        get_parser_fn(PossibleBlockStart::Heading(2), &context),
        vec![BlockParserFn::Heading]
    );
    assert_eq!(
        get_parser_fn(PossibleBlockStart::VerbatimBlock, &context),
        vec![BlockParserFn::VerbatimBlock]
    );
    assert_eq!(
        get_parser_fn(PossibleBlockStart::BulletList, &context),
        vec![BlockParserFn::BulletList]
    );
    assert!(get_parser_fn(PossibleBlockStart::Paragraph, &context).is_empty());
    assert!(get_parser_fn(PossibleBlockStart::Table, &context).is_empty());
    context.flags.logic_only = true;
    assert!(get_parser_fn(PossibleBlockStart::Heading(1), &context).is_empty());
}

#[test]
fn verbatim_block_text() {
    let mut block = VerbatimBlock {
        content: "let x = 1;".to_string(),
        data_lang: Some("rust".to_string()),
        attributes: None,
        implicit_closed: false,
        tick_len: 3,
        start: Position { line: 1, column: 0 },
        end: Position { line: 3, column: 3 },
    };
    assert_eq!(block.to_plain_string(), "```rust\nlet x = 1;\n```");
    block.implicit_closed = true;
    block.data_lang = None;
    block.tick_len = 4;
    assert_eq!(block.to_plain_string(), "````\nlet x = 1;\n");
    assert_eq!(block.start(), Position { line: 1, column: 0 });
    assert_eq!(block.end(), Position { line: 3, column: 3 });
}
