//! Tokens of the inline tokenizer: their kinds, contents and positions.
use crate::text::{graphemes_of, split_graphemes, str_eq, trim, trimmed};
use vstd::prelude::*;

verus! {

/// Grapheme position of a token inside the tokenized input.
#[derive(Debug, Clone, Copy, PartialEq, Eq, Structural)]
pub struct Position {
    /// Line number in the given input.
    pub line: usize,
    /// Column in the given input.
    pub column: usize,
}

impl Default for Position {
    fn default() -> (r: Self)
        ensures
            r == (Position { line: 0, column: 0 }),
    {
        Position { line: 0, column: 0 }
    }
}

/// Type representing a list of tokens.
pub type Tokens = Vec<Token>;

/// A token: its kind, its content and the position where it starts.
#[derive(Debug, Clone, PartialEq)]
pub struct Token {
    /// The token kind identifies the token parts of an Unimarkup inline element.
    pub kind: TokenKind,
    /// The content of the token.
    pub content: String,
    /// The starting position of this token inside a given input.
    pub position: Position,
}

/// Mathematical value of a [`Token`]: the content is a sequence of characters.
#[verifier::ext_equal]
pub struct TokenV {
    pub kind: TokenKind,
    pub content: Seq<char>,
    pub position: Position,
}

impl View for Token {
    type V = TokenV;

    open spec fn view(&self) -> TokenV {
        TokenV { kind: self.kind, content: self.content@, position: self.position }
    }
}

/// Number of graphemes a token occupies in the input; a newline occupies none.
pub open spec fn token_len(t: TokenV) -> nat {
    if t.kind == TokenKind::NewLine {
        0
    } else {
        graphemes_of(t.content).len()
    }
}

impl Token {
    /// Returns the content length of a token: the number of Unicode graphemes
    /// inside the content, and `0` for a newline token.
    pub fn length(&self) -> (r: usize)
        ensures
            r == token_len(self@),
    {
        if self.kind == TokenKind::NewLine {
            return 0;
        }
        let gs = split_graphemes(self.content.as_str());
        proof {
            assert(gs@.map_values(|g: String| g@).len() == gs@.len());
        }
        gs.len()
    }

    /// Shows if a token is of kind space or newline.
    pub fn is_space_or_newline(&self) -> (r: bool)
        ensures
            r == self.kind.spec_is_space_or_newline(),
    {
        self.kind.is_space_or_newline()
    }

    /// Shows if a token is closing a scope inside a given input
    /// (closing text groups, closing attribute blocks, ...).
    pub fn closes_scope(&self) -> (r: bool)
        ensures
            r == (self.kind == TokenKind::TextGroupClose),
    {
        self.kind == TokenKind::TextGroupClose
    }
}

/// Special single graphemes understood by Unimarkup.
#[derive(Debug, Clone, Copy, PartialEq, Eq, Structural)]
pub enum SingleTokenKind {
    /// Default kind for all non-special graphemes.
    Plain,
    /// Represents a newline grapheme.
    Newline,
    /// Represents a grapheme that has the Unicode whitespace property and is not a newline.
    Space,
    /// Represents `\`.
    Backslash,
    /// Represents `*`.
    Asterisk,
    /// Represents `` ` ``.
    Accent,
    /// Represents `[`.
    LeftSquareBracket,
    /// Represents `]`.
    RightSquareBracket,
}

/// Tokens that are part of Unimarkup inline elements.
#[derive(Debug, Clone, Copy, PartialEq, Eq, Hash, Structural)]
pub enum TokenKind {
    /// Represents the open part of bold inline formatting.
    BoldOpen,
    /// Represents the closing part of bold inline formatting.
    BoldClose,
    /// Represents the open part of italic inline formatting.
    ItalicOpen,
    /// Represents the closing part of italic inline formatting.
    ItalicClose,
    /// Represents the combined open part of bold and italic inline formatting.
    BoldItalicOpen,
    /// Represents the combined closing part of bold and italic inline formatting.
    BoldItalicClose,
    /// Represents the open part of verbatim inline formatting.
    VerbatimOpen,
    /// Represents the closing part of verbatim inline formatting.
    VerbatimClose,
    /// Represents a plain text part.
    Plain,
    /// Represents the open part of an inline emoji shortcut.
    EmojiOpen,
    /// Represents a grapheme that is escaped by a backslash.
    EscapedGrapheme,
    /// Represents a newline as defined by `is_newline()`.
    NewLine,
    /// Represents a grapheme that has the Unicode whitespace property and is not a newline.
    Space,
    /// Represents the open part of an inline text group.
    TextGroupOpen,
    /// Represents the closing part of an inline text group.
    TextGroupClose,
    /// Represents the end of a given input.
    Eoi,
}

impl Default for TokenKind {
    /// Returns `Plain` as default token.
    fn default() -> (r: Self)
        ensures
            r == TokenKind::Plain,
    {
        TokenKind::Plain
    }
}

/// The string representation of each token kind.
pub open spec fn kind_str(k: TokenKind) -> Seq<char> {
    match k {
        TokenKind::BoldOpen | TokenKind::BoldClose => seq!['*', '*'],
        TokenKind::ItalicOpen | TokenKind::ItalicClose => seq!['*'],
        TokenKind::BoldItalicOpen | TokenKind::BoldItalicClose => seq!['*', '*', '*'],
        TokenKind::VerbatimOpen | TokenKind::VerbatimClose => seq!['`'],
        TokenKind::EmojiOpen => seq![':', ':'],
        TokenKind::TextGroupOpen => seq!['['],
        TokenKind::TextGroupClose => seq![']'],
        TokenKind::Plain | TokenKind::Eoi => Seq::empty(),
        TokenKind::EscapedGrapheme => seq!['\\'],
        TokenKind::NewLine => seq!['\n'],
        TokenKind::Space => seq![' '],
    }
}

impl TokenKind {
    /// Returns the string representation for a token, e.g. `**` for BoldOpen and BoldClose.
    pub fn as_str(&self) -> (r: &'static str)
        ensures
            r@ == kind_str(*self),
    {
        match *self {
            TokenKind::BoldOpen => {
                proof { reveal_strlit("**"); }
                "**"
            },
            TokenKind::BoldClose => {
                proof { reveal_strlit("**"); }
                "**"
            },
            TokenKind::ItalicOpen => {
                proof { reveal_strlit("*"); }
                "*"
            },
            TokenKind::ItalicClose => {
                proof { reveal_strlit("*"); }
                "*"
            },
            TokenKind::BoldItalicOpen => {
                proof { reveal_strlit("***"); }
                "***"
            },
            TokenKind::BoldItalicClose => {
                proof { reveal_strlit("***"); }
                "***"
            },
            TokenKind::VerbatimOpen => {
                proof { reveal_strlit("`"); }
                "`"
            },
            TokenKind::VerbatimClose => {
                proof { reveal_strlit("`"); }
                "`"
            },
            TokenKind::EmojiOpen => {
                proof { reveal_strlit("::"); }
                "::"
            },
            TokenKind::TextGroupOpen => {
                proof { reveal_strlit("["); }
                "["
            },
            TokenKind::TextGroupClose => {
                proof { reveal_strlit("]"); }
                "]"
            },
            TokenKind::Plain => {
                proof { reveal_strlit(""); }
                ""
            },
            TokenKind::EscapedGrapheme => {
                proof { reveal_strlit("\\"); }
                "\\"
            },
            TokenKind::NewLine => {
                proof { reveal_strlit("\n"); }
                "\n"
            },
            TokenKind::Space => {
                proof { reveal_strlit(" "); }
                " "
            },
            TokenKind::Eoi => {
                proof { reveal_strlit(""); }
                ""
            },
        }
    }

    /// Spec: the kind is either a space or a newline.
    pub open spec fn spec_is_space_or_newline(&self) -> bool {
        *self == TokenKind::Space || *self == TokenKind::NewLine
    }

    /// Shows if a token is either a space or newline.
    pub fn is_space_or_newline(&self) -> (r: bool)
        ensures
            r == self.spec_is_space_or_newline(),
    {
        *self == TokenKind::Space || *self == TokenKind::NewLine
    }
}

/// `\n`, `\r\n` and `\r` are each one newline.
pub open spec fn is_newline_str(s: Seq<char>) -> bool {
    s == seq!['\n'] || s == seq!['\r', '\n'] || s == seq!['\r']
}

/// The single token kind of one grapheme.
pub open spec fn single_kind_of(g: Seq<char>) -> SingleTokenKind {
    if g == seq!['*'] {
        SingleTokenKind::Asterisk
    } else if g == seq!['\\'] {
        SingleTokenKind::Backslash
    } else if g == seq!['`'] {
        SingleTokenKind::Accent
    } else if g == seq!['['] {
        SingleTokenKind::LeftSquareBracket
    } else if g == seq![']'] {
        SingleTokenKind::RightSquareBracket
    } else if is_newline_str(g) {
        SingleTokenKind::Newline
    } else if trimmed(g).len() == 0 {
        SingleTokenKind::Space
    } else {
        SingleTokenKind::Plain
    }
}

/// Converts a type into a single token kind.
pub trait AsSingleTokenKind {
    /// Converts the given value into a [`SingleTokenKind`], e.g. `*` into `SingleTokenKind::Asterisk`.
    fn as_single_token_kind(&self) -> SingleTokenKind;
}

impl AsSingleTokenKind for &str {
    fn as_single_token_kind(&self) -> (r: SingleTokenKind)
        ensures
            r == single_kind_of(self@),
    {
        let s: &str = *self;
        proof {
            reveal_strlit("*");
            reveal_strlit("\\");
            reveal_strlit("`");
            reveal_strlit("[");
            reveal_strlit("]");
            assert("*"@ =~= seq!['*']);
            assert("\\"@ =~= seq!['\\']);
            assert("`"@ =~= seq!['`']);
            assert("["@ =~= seq!['[']);
            assert("]"@ =~= seq![']']);
        }
        if str_eq(s, "*") {
            SingleTokenKind::Asterisk
        } else if str_eq(s, "\\") {
            SingleTokenKind::Backslash
        } else if str_eq(s, "`") {
            SingleTokenKind::Accent
        } else if str_eq(s, "[") {
            SingleTokenKind::LeftSquareBracket
        } else if str_eq(s, "]") {
            SingleTokenKind::RightSquareBracket
        } else if s.is_newline() {
            SingleTokenKind::Newline
        } else if trim(s).is_empty() {
            SingleTokenKind::Space
        } else {
            SingleTokenKind::Plain
        }
    }
}

/// Newline detection.
pub trait Newline {
    /// Returns `true` if the value is one newline.
    fn is_newline(&self) -> bool;
}

impl Newline for &str {
    /// Treats `\n`, `\r\n` and `\r` as one newline.
    fn is_newline(&self) -> (r: bool)
        ensures
            r == is_newline_str(self@),
    {
        let s: &str = *self;
        proof {
            reveal_strlit("\n");
            reveal_strlit("\r\n");
            reveal_strlit("\r");
            assert("\n"@ =~= seq!['\n']);
            assert("\r\n"@ =~= seq!['\r', '\n']);
            assert("\r"@ =~= seq!['\r']);
        }
        str_eq(s, "\n") || str_eq(s, "\r\n") || str_eq(s, "\r")
    }
}

impl Newline for String {
    fn is_newline(&self) -> (r: bool)
        ensures
            r == is_newline_str(self@),
    {
        self.as_str().is_newline()
    }
}

} // verus!
