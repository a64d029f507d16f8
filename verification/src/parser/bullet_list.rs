//! Keywords of bullet list entries.
use crate::lexer::TokenKind;
use vstd::prelude::*;
use vstd::std_specs::convert::TryFromSpecImpl;

verus! {

/// The keyword used to create a bullet list entry.
#[derive(Debug, Clone, Copy, PartialEq, Eq, Structural)]
pub enum BulletListEntryKeyword {
    /// Minus keyword: `-`
    Minus,
    /// Plus keyword: `+`
    Plus,
    /// Star keyword: `*`
    Star,
}

/// Conversion errors when converting a token kind to a [`BulletListEntryKeyword`].
#[derive(Debug, Clone, Copy, PartialEq, Eq, Structural)]
pub enum ConversionError {
    /// The given token kind could not be converted to a [`BulletListEntryKeyword`].
    CannotConvertSymbol,
}

/// The symbol of each keyword.
pub open spec fn keyword_str(k: BulletListEntryKeyword) -> Seq<char> {
    match k {
        BulletListEntryKeyword::Minus => seq!['-'],
        BulletListEntryKeyword::Plus => seq!['+'],
        BulletListEntryKeyword::Star => seq!['*'],
    }
}

/// The keyword a single `-`, `+` or `*` stands for.
pub open spec fn keyword_of(k: TokenKind) -> Result<BulletListEntryKeyword, ConversionError> {
    match k {
        TokenKind::Minus(1) => Ok(BulletListEntryKeyword::Minus),
        TokenKind::Plus(1) => Ok(BulletListEntryKeyword::Plus),
        TokenKind::Star(1) => Ok(BulletListEntryKeyword::Star),
        _ => Err(ConversionError::CannotConvertSymbol),
    }
}

impl BulletListEntryKeyword {
    /// String representation of the keyword.
    pub fn as_str(&self) -> (r: &'static str)
        ensures
            r@ == keyword_str(*self),
    {
        match self {
            BulletListEntryKeyword::Minus => {
                proof {
                    reveal_strlit("-");
                    assert("-"@ =~= seq!['-']);
                }
                "-"
            },
            BulletListEntryKeyword::Plus => {
                proof {
                    reveal_strlit("+");
                    assert("+"@ =~= seq!['+']);
                }
                "+"
            },
            BulletListEntryKeyword::Star => {
                proof {
                    reveal_strlit("*");
                    assert("*"@ =~= seq!['*']);
                }
                "*"
            },
        }
    }
}

impl TryFrom<TokenKind> for BulletListEntryKeyword {
    type Error = ConversionError;

    fn try_from(value: TokenKind) -> (r: Result<Self, Self::Error>)
        ensures
            r == keyword_of(value),
    {
        match value {
            TokenKind::Minus(1) => Ok(BulletListEntryKeyword::Minus),
            TokenKind::Plus(1) => Ok(BulletListEntryKeyword::Plus),
            TokenKind::Star(1) => Ok(BulletListEntryKeyword::Star),
            _ => Err(ConversionError::CannotConvertSymbol),
        }
    }
}

impl TryFromSpecImpl<TokenKind> for BulletListEntryKeyword {
    open spec fn obeys_try_from_spec() -> bool {
        true
    }

    open spec fn try_from_spec(value: TokenKind) -> Result<Self, ConversionError> {
        keyword_of(value)
    }
}

/// The keyword of the bullet list entry that tokens start: a single `-`, `+` or `*` followed by a
/// space.
pub open spec fn spec_entry_start(kinds: Seq<TokenKind>) -> Option<BulletListEntryKeyword> {
    if kinds.len() >= 2 && kinds[1] == TokenKind::Space {
        match keyword_of(kinds[0]) {
            Ok(k) => Some(k),
            Err(_) => None,
        }
    } else {
        None
    }
}

/// Tokens start the next entry of a list: a newline, then an entry start.
pub open spec fn spec_starts_next_entry(kinds: Seq<TokenKind>) -> bool {
    kinds.len() >= 1 && kinds[0] == TokenKind::Newline && spec_entry_start(kinds.drop_first()) is Some
}

/// Tokens start an entry of a nested list: a newline and the two spaces of an entry's indent,
/// then an entry start.
pub open spec fn spec_starts_sub_entry(kinds: Seq<TokenKind>) -> bool {
    &&& kinds.len() >= 3
    &&& kinds[0] == TokenKind::Newline
    &&& kinds[1] == TokenKind::Space
    &&& kinds[2] == TokenKind::Space
    &&& spec_entry_start(kinds.skip(3)) is Some
}

fn entry_start_at(kinds: &Vec<TokenKind>, i: usize) -> (r: Option<BulletListEntryKeyword>)
    requires
        i <= kinds@.len(),
    ensures
        r == spec_entry_start(kinds@.skip(i as int)),
{
    if kinds.len() - i < 2 || kinds[i + 1] != TokenKind::Space {
        return None;
    }
    match BulletListEntryKeyword::try_from(kinds[i]) {
        Ok(k) => Some(k),
        Err(_) => None,
    }
}

/// The keyword of the bullet list entry that the tokens start, if they start one; a list goes on
/// while its next entry starts.
pub fn entry_start(kinds: &Vec<TokenKind>) -> (r: Option<BulletListEntryKeyword>)
    ensures
        r == spec_entry_start(kinds@),
{
    proof {
        assert(kinds@.skip(0) =~= kinds@);
    }
    entry_start_at(kinds, 0)
}

/// Whether the tokens start the next entry of the same list.
pub fn starts_next_entry(kinds: &Vec<TokenKind>) -> (r: bool)
    ensures
        r == spec_starts_next_entry(kinds@),
{
    if kinds.len() < 1 || kinds[0] != TokenKind::Newline {
        return false;
    }
    proof {
        assert(kinds@.skip(1) =~= kinds@.drop_first());
    }
    entry_start_at(kinds, 1).is_some()
}

/// Whether the tokens start an entry of a nested list.
pub fn starts_sub_entry(kinds: &Vec<TokenKind>) -> (r: bool)
    ensures
        r == spec_starts_sub_entry(kinds@),
{
    if kinds.len() < 3 || kinds[0] != TokenKind::Newline || kinds[1] != TokenKind::Space
        || kinds[2] != TokenKind::Space {
        return false;
    }
    entry_start_at(kinds, 3).is_some()
}

/// Whether the heading of an entry ends before the tokens: at a blank line, at the end of the
/// enclosing block, or where the next entry or a nested entry starts.
pub fn entry_heading_ends(blank_line: bool, outer_end: bool, kinds: &Vec<TokenKind>) -> (r: bool)
    ensures
        r == (blank_line || outer_end || spec_starts_next_entry(kinds@) || spec_starts_sub_entry(kinds@)),
{
    blank_line || outer_end || starts_next_entry(kinds) || starts_sub_entry(kinds)
}

/// Whether an entry whose heading was read (and the blank lines after it skipped) has a body:
/// input is left and it does not start the next entry.
pub fn entry_has_body(end_reached: bool, kinds: &Vec<TokenKind>) -> (r: bool)
    ensures
        r == (!end_reached && !spec_starts_next_entry(kinds@)),
{
    !end_reached && !starts_next_entry(kinds)
}

} // verus!
