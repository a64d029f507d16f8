//! Selecting possible parsers in the main block parser.
use crate::lexer::TokenKind;
use vstd::prelude::*;
use vstd::std_specs::convert::FromSpecImpl;

verus! {

/// The element the following tokens may resolve to.
#[derive(Debug, Clone, Copy, PartialEq, Eq, Structural)]
pub enum PossibleBlockStart {
    /// A heading element with the given number of hashes.
    Heading(usize),
    /// A column block.
    ColumnBlock,
    /// A math block.
    MathBlock,
    /// A render block.
    RenderBlock,
    /// A verbatim block.
    VerbatimBlock,
    /// A table.
    Table,
    /// A bullet list.
    BulletList,
    /// A numbered list; the required `dot` must be checked in the parser function itself.
    Digit,
    /// A quotation block.
    QuotationBlock,
    /// A line block.
    LineBlock,
    /// A media insert.
    MediaInsert,
    /// A render insert.
    RenderInsert,
    /// A verbatim insert.
    VerbatimInsert,
    /// A horizontal line.
    HorizontalLine,
    /// A line break.
    LineBreak,
    /// A block decoration.
    Decoration,
    /// Every token that may not lead to another block element can only lead to a paragraph.
    Paragraph,
    /// A text/field block.
    OpenBracket,
    /// An attribute block.
    OpenBrace,
}

impl Default for PossibleBlockStart {
    fn default() -> (r: Self)
        ensures
            r == PossibleBlockStart::Paragraph,
    {
        PossibleBlockStart::Paragraph
    }
}

/// The block a token of the given kind may start.
pub open spec fn block_start_of(k: TokenKind) -> PossibleBlockStart {
    match k {
        TokenKind::Star(len) => {
            if len == 1 {
                PossibleBlockStart::BulletList
            } else {
                PossibleBlockStart::Paragraph
            }
        },
        TokenKind::Hash(len) => {
            if 0 < len <= 6 {
                PossibleBlockStart::Heading(len)
            } else {
                PossibleBlockStart::Paragraph
            }
        },
        TokenKind::Minus(len) => {
            if len == 1 {
                PossibleBlockStart::BulletList
            } else if len >= 3 {
                PossibleBlockStart::HorizontalLine
            } else {
                PossibleBlockStart::Paragraph
            }
        },
        TokenKind::Plus(len) => {
            if len == 1 {
                PossibleBlockStart::BulletList
            } else if len >= 3 {
                PossibleBlockStart::Decoration
            } else {
                PossibleBlockStart::Paragraph
            }
        },
        TokenKind::Tick(len) => {
            if len >= 3 {
                PossibleBlockStart::VerbatimBlock
            } else {
                PossibleBlockStart::Paragraph
            }
        },
        _ => PossibleBlockStart::Paragraph,
    }
}

impl From<TokenKind> for PossibleBlockStart {
    fn from(value: TokenKind) -> (r: Self)
        ensures
            r == block_start_of(value),
    {
        match value {
            TokenKind::Star(1) => {
                return PossibleBlockStart::BulletList;
            },
            TokenKind::Star(_) => {
                return PossibleBlockStart::Paragraph;
            },
            TokenKind::Hash(len) => {
                if len <= 6 && len > 0 {
                    return PossibleBlockStart::Heading(len);
                }
            },
            TokenKind::Minus(len) => {
                if len == 1 {
                    return PossibleBlockStart::BulletList;
                } else if len >= 3 {
                    return PossibleBlockStart::HorizontalLine;
                }
            },
            TokenKind::Plus(len) => {
                if len == 1 {
                    return PossibleBlockStart::BulletList;
                } else if len >= 3 {
                    return PossibleBlockStart::Decoration;
                }
            },
            TokenKind::Tick(len) => {
                if len >= 3 {
                    return PossibleBlockStart::VerbatimBlock;
                }
            },
            _ => {},
        }
        PossibleBlockStart::Paragraph
    }
}

impl FromSpecImpl<TokenKind> for PossibleBlockStart {
    open spec fn obeys_from_spec() -> bool {
        true
    }

    open spec fn from_spec(value: TokenKind) -> PossibleBlockStart {
        block_start_of(value)
    }
}

} // verus!
