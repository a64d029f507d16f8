//! Kinds of the tokens that the Unimarkup lexer produces, as block and inline parsing read them.
//! A kind that repeats a symbol carries the number of repetitions.
use vstd::prelude::*;

verus! {

/// Which implicit substitution a token is: its number among the substitutions the lexer knows.
/// Block and inline parsing only hand it on.
#[derive(Debug, Clone, Copy, PartialEq, Eq, Structural, PartialOrd, Ord, Hash)]
pub struct ImplicitSubstitutionKind {
    pub id: u16,
}

/// The kind of a lexed token.
#[derive(Debug, Clone, Copy, PartialEq, Eq, Structural)]
pub enum TokenKind {
    /// `*` repeated.
    Star(usize),
    /// `#` repeated.
    Hash(usize),
    /// `-` repeated.
    Minus(usize),
    /// `+` repeated.
    Plus(usize),
    /// `_` repeated.
    Underline(usize),
    /// `^` repeated.
    Caret(usize),
    /// `` ` `` repeated.
    Tick(usize),
    /// `‾` repeated.
    Overline(usize),
    /// `|` repeated.
    Pipe(usize),
    /// `~` repeated.
    Tilde(usize),
    /// `"` repeated.
    Quote(usize),
    /// `$` repeated.
    Dollar(usize),
    /// `:` repeated.
    Colon(usize),
    /// `;` repeated.
    Semicolon(usize),
    /// `.` repeated.
    Dot(usize),
    /// `!` repeated.
    ExclamationMark(usize),
    /// `&` repeated.
    Ampersand(usize),
    /// `,` repeated.
    Comma(usize),
    /// `/` repeated.
    ForwardSlash(usize),
    /// `%` repeated.
    Percentage(usize),
    /// `?` repeated.
    QuestionMark(usize),
    /// `@` repeated.
    At(usize),
    /// `=` repeated.
    Eq(usize),
    /// `<` repeated.
    Lt(usize),
    /// `>` repeated.
    Gt(usize),
    /// A single `"`.
    DoubleQuote,
    /// A single `'`.
    SingleQuote,
    /// An ASCII digit.
    Digit(u8),
    /// `(`.
    OpenParenthesis,
    /// `)`.
    CloseParenthesis,
    /// `[`.
    OpenBracket,
    /// `]`.
    CloseBracket,
    /// `{`.
    OpenBrace,
    /// `}`.
    CloseBrace,
    /// A whitespace.
    Whitespace,
    /// A newline.
    Newline,
    /// A blank line.
    Blankline,
    /// End of input.
    Eoi,
    /// An escaped plain grapheme.
    EscapedPlain,
    /// An escaped whitespace.
    EscapedWhitespace,
    /// An escaped newline.
    EscapedNewline,
    /// Plain text.
    Plain,
    /// Terminal punctuation.
    TerminalPunctuation,
    /// A comment, possibly closed implicitly at the line end.
    Comment { implicit_close: bool },
    /// An implicit substitution (e.g. an emoji or an arrow written in plain characters).
    ImplicitSubstitution(ImplicitSubstitutionKind),
    /// A direct URI.
    DirectUri,
    /// Matches any token.
    Any,
    /// Matches any space.
    Space,
    /// Matches digits.
    Digits,
    /// The end of an enclosed block.
    EnclosedBlockEnd,
    /// Possible start of attributes.
    PossibleAttributes,
    /// Possible start of a decorator.
    PossibleDecorator,
}

} // verus!
