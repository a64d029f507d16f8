//! Tokenizes a `&str` input into a flat list of inline tokens,
//! e.g. `*text*` into `[ItalicOpen][Plain][ItalicClose]`.
pub mod asterisk;
pub mod content;
pub mod filled;
pub mod groups;
pub mod laws;
pub mod model;
pub mod run;
pub mod shift;
pub mod state;
pub mod stuck;
pub mod steps;
pub mod tokens;

use self::model::toks;
use self::run::tokenize_until;
use self::state::Tokenized;
use self::steps::{cleanup_loose_open_tokens, try_closing_fixated_token, update_open_map};
use self::tokens::{Position, TokenKind, Tokens};
use crate::text;
use vstd::prelude::*;

verus! {

/// Errors of inline tokenization.
#[derive(Debug, Clone, Copy, PartialEq, Eq, Structural)]
pub enum InlineError {
    /// A text group was opened but never closed.
    ClosingViolation,
}

/// Converts a given input into a list of tokens.
pub trait Tokenizer {
    /// Whether tokenizing this input, with the first token at `offset`, gets stuck: a closing
    /// token meets nothing it could close. Tokenization is not defined on such inputs.
    spec fn stuck_at(&self, offset: Position) -> bool;

    /// Takes an input and converts it into a list of tokens.
    ///
    /// Returns an error if inline constraints are violated.
    fn tokenize(self) -> Result<Tokens, InlineError>
        requires
            !self.stuck_at(Position { line: 0, column: 0 }),
    ;

    /// Takes an input and an offset to convert the input into a list of tokens,
    /// where the first token starts at the given offset.
    ///
    /// Returns an error if inline constraints are violated.
    fn tokenize_with_offset(self, offset: Position) -> Result<Tokens, InlineError>
        requires
            !self.stuck_at(offset),
    ;
}

impl Tokenizer for &str {
    open spec fn stuck_at(&self, offset: Position) -> bool {
        stuck::tokenize_stuck((*self)@, offset)
    }

    fn tokenize(self) -> (r: Result<Tokens, InlineError>)
        ensures
            r matches Ok(v) ==> model::spec_tokenize(self@, Position { line: 0, column: 0 }) == Ok::<
                Seq<tokens::TokenV>,
                InlineError,
            >(toks(v@)),
            r matches Err(e) ==> model::spec_tokenize(self@, Position { line: 0, column: 0 }) == Err::<
                Seq<tokens::TokenV>,
                InlineError,
            >(e),
            r matches Ok(v) ==> (v@.len() > 0 ==> v@[0].position == Position { line: 0, column: 0 }),
            r matches Ok(v) ==> (content::kept_whole(self@) && 4 * self@.len() <= usize::MAX ==> content::contents(
                toks(v@),
            ) == self@),
            text::plain_ascii(self@) ==> text::graphemes_of(self@) == self@.map_values(|c: char| seq![c]),
            r matches Ok(v) ==> filled::filled(toks(v@)),
            r matches Ok(v) ==> ((forall|i: int| 0 <= i < self@.len() ==> self@[i] != '[') ==> groups::no_group_tokens(
                toks(v@),
            )),
    {
        self.tokenize_with_offset(Position::default())
    }

    fn tokenize_with_offset(self, offset: Position) -> (r: Result<Tokens, InlineError>)
        ensures
            r matches Ok(v) ==> model::spec_tokenize(self@, offset) == Ok::<Seq<tokens::TokenV>, InlineError>(
                toks(v@),
            ),
            r matches Err(e) ==> model::spec_tokenize(self@, offset) == Err::<
                Seq<tokens::TokenV>,
                InlineError,
            >(e),
            r matches Ok(v) ==> (v@.len() > 0 ==> v@[0].position == offset),
            r matches Ok(v) ==> (content::kept_whole(self@) && 4 * self@.len() <= usize::MAX ==> content::contents(
                toks(v@),
            ) == self@),
            text::plain_ascii(self@) ==> text::graphemes_of(self@) == self@.map_values(|c: char| seq![c]),
            r matches Ok(v) ==> filled::filled(toks(v@)),
            r matches Ok(v) ==> ((forall|i: int| 0 <= i < self@.len() ==> self@[i] != '[') ==> groups::no_group_tokens(
                toks(v@),
            )),
    {
        proof {
            laws::lemma_first_token_at_offset(self@, offset);
        }
        let (r, _) = tokenize_checked(self, offset);
        r
    }
}

/// Tokenizes an input with the first token at `offset`, and tells whether tokenizing got stuck.
fn tokenize_checked(input: &str, offset: Position) -> (r: (Result<Tokens, InlineError>, bool))
    ensures
        r.1 == stuck::tokenize_stuck(input@, offset),
        r.0 matches Ok(v) ==> model::spec_tokenize(input@, offset) == Ok::<Seq<tokens::TokenV>, InlineError>(
            toks(v@),
        ),
        r.0 matches Err(e) ==> model::spec_tokenize(input@, offset) == Err::<Seq<tokens::TokenV>, InlineError>(e),
        r.0 matches Ok(v) ==> (content::kept_whole(input@) && 4 * input@.len() <= usize::MAX ==> content::contents(
            toks(v@),
        ) == input@),
        text::plain_ascii(input@) ==> text::graphemes_of(input@) == input@.map_values(|c: char| seq![c]),
        r.0 matches Ok(v) ==> filled::filled(toks(v@)),
        r.0 matches Ok(v) ==> ((forall|i: int| 0 <= i < input@.len() ==> input@[i] != '[') ==> groups::no_group_tokens(
            toks(v@),
        )),
{
    let mut tokenized = Tokenized::new(input, offset);
    proof {
        if content::kept_whole(input@) && 4 * input@.len() <= usize::MAX {
            content::lemma_tokens_hold_whole_input(input@, offset);
        }
        filled::lemma_tokens_not_empty(input@, offset);
        if forall|i: int| 0 <= i < input@.len() ==> input@[i] != '[' {
            groups::lemma_no_bracket_graphemes(input@);
            groups::lemma_no_group_tokens_without_brackets(input@, offset);
        }
    }
    let mut stuck = false;
    let res = tokenize_until(&mut tokenized, TokenKind::Eoi, &mut stuck);
    if let Err(e) = res {
        return (Err(e), stuck);
    }
    // EOI is treated as newline
    update_open_map(&mut tokenized, true);
    if stuck::closing_is_stuck(&tokenized) {
        stuck = true;
    }
    try_closing_fixated_token(&mut tokenized, true);
    cleanup_loose_open_tokens(&mut tokenized);
    (Ok(tokenized.tokens), stuck)
}

/// Tokenizes an input with the first token at `offset`, where tokenization is defined on it:
/// `None` where it gets stuck (a closing token meets nothing it could close), else what
/// [`Tokenizer::tokenize_with_offset`] gives.
pub fn try_tokenize(input: &str, offset: Position) -> (r: Option<Result<Tokens, InlineError>>)
    ensures
        r is None <==> stuck::tokenize_stuck(input@, offset),
        r matches Some(Ok(v)) ==> model::spec_tokenize(input@, offset) == Ok::<Seq<tokens::TokenV>, InlineError>(
            toks(v@),
        ),
        r matches Some(Err(e)) ==> model::spec_tokenize(input@, offset) == Err::<Seq<tokens::TokenV>, InlineError>(
            e,
        ),
        r matches Some(Ok(v)) ==> (v@.len() > 0 ==> v@[0].position == offset),
        r matches Some(Ok(v)) ==> (content::kept_whole(input@) && 4 * input@.len() <= usize::MAX
            ==> content::contents(toks(v@)) == input@),
        text::plain_ascii(input@) ==> text::graphemes_of(input@) == input@.map_values(|c: char| seq![c]),
        r matches Some(Ok(v)) ==> filled::filled(toks(v@)),
        r matches Some(Ok(v)) ==> ((forall|i: int| 0 <= i < input@.len() ==> input@[i] != '[')
            ==> groups::no_group_tokens(toks(v@))),
{
    proof {
        laws::lemma_first_token_at_offset(input@, offset);
    }
    let (r, stuck) = tokenize_checked(input, offset);
    if stuck {
        None
    } else {
        Some(r)
    }
}

} // verus!
