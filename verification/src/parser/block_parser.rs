//! Selecting the element parsers that the main block parser tries at a possible block start.
use crate::parser::context::BlockContext;
use crate::parser::kind::PossibleBlockStart;
use vstd::prelude::*;

verus! {

/// The parser of a Unimarkup block element.
#[derive(Debug, Clone, Copy, PartialEq, Eq, Structural)]
pub enum BlockParserFn {
    /// The parser of headings.
    Heading,
    /// The parser of verbatim blocks.
    VerbatimBlock,
    /// The parser of bullet lists.
    BulletList,
}

/// The element parsers to try at a block start: none in logic-only mode, else the parser of
/// the element that the start may begin, where there is one.
pub open spec fn parsers_for(start: PossibleBlockStart, logic_only: bool) -> Seq<BlockParserFn> {
    if logic_only {
        Seq::empty()
    } else {
        match start {
            PossibleBlockStart::Heading(_) => seq![BlockParserFn::Heading],
            PossibleBlockStart::VerbatimBlock => seq![BlockParserFn::VerbatimBlock],
            PossibleBlockStart::BulletList => seq![BlockParserFn::BulletList],
            _ => Seq::empty(),
        }
    }
}

/// Gets the parser functions that may match, depending on the peeked block start.
pub fn get_parser_fn(start: PossibleBlockStart, context: &BlockContext) -> (r: Vec<BlockParserFn>)
    ensures
        r@ == parsers_for(start, context.flags.logic_only),
{
    if context.flags.logic_only {
        Vec::new()
    } else {
        match start {
            PossibleBlockStart::Heading(_) => vec![BlockParserFn::Heading],
            PossibleBlockStart::ColumnBlock => Vec::new(),
            PossibleBlockStart::MathBlock => Vec::new(),
            PossibleBlockStart::RenderBlock => Vec::new(),
            PossibleBlockStart::VerbatimBlock => vec![BlockParserFn::VerbatimBlock],
            PossibleBlockStart::Table => Vec::new(),
            PossibleBlockStart::BulletList => vec![BlockParserFn::BulletList],
            PossibleBlockStart::Digit => Vec::new(),
            PossibleBlockStart::QuotationBlock => Vec::new(),
            PossibleBlockStart::LineBlock => Vec::new(),
            PossibleBlockStart::MediaInsert => Vec::new(),
            PossibleBlockStart::RenderInsert => Vec::new(),
            PossibleBlockStart::VerbatimInsert => Vec::new(),
            PossibleBlockStart::HorizontalLine => Vec::new(),
            PossibleBlockStart::LineBreak => Vec::new(),
            PossibleBlockStart::Decoration | PossibleBlockStart::Paragraph => Vec::new(),
            PossibleBlockStart::OpenBracket => Vec::new(),
            PossibleBlockStart::OpenBrace => Vec::new(),
        }
    }
}

} // verus!
