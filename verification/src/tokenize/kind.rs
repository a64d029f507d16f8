//! The kinds of tokens that inline parsing works on, and their conversion from and to
//! the kinds of the lexer.
use crate::lexer::{ImplicitSubstitutionKind, TokenKind};
use vstd::prelude::*;
use vstd::std_specs::convert::FromSpecImpl;
use vstd::utf8::encode_utf8;

verus! {

/// The kind of a token found in a Unimarkup document, as inline parsing sees it.
#[derive(Debug, Clone, Copy, PartialEq, Eq, Structural, PartialOrd, Ord, Hash)]
pub enum InlineTokenKind {
    /// Bold delimiter token (`**`).
    Bold,
    /// Italic delimiter token (`*`).
    Italic,
    /// Ambiguous token, might be bold, italic, or both (`***`).
    BoldItalic,
    /// Underline delimiter token (`__`).
    Underline,
    /// Subscript delimiter token (`_`).
    Subscript,
    /// Ambiguous token, might be underline, subscript, or both (`___`).
    UnderlineSubscript,
    /// Superscript delimiter token (`^`).
    Superscript,
    /// Overline delimiter token (`‾`).
    Overline,
    /// Strikethrough delimiter token (`~~`).
    Strikethrough,
    /// Highlight delimiter token (`||`).
    Highlight,
    /// Verbatim delimiter token (`` ` ``).
    Verbatim,
    /// Math delimiter token (`$$`).
    Math,
    /// Single dot token (`.`).
    Dot,
    /// Citation delimiter token (`&&`).
    Cite,
    /// Single comma token (`,`).
    Comma,
    /// Open parenthesis token (`(`).
    OpenParenthesis,
    /// Close parenthesis token (`)`).
    CloseParenthesis,
    /// Open bracket token (`[`).
    OpenBracket,
    /// Close bracket token (`]`).
    CloseBracket,
    /// Open brace token (`{`).
    OpenBrace,
    /// Close brace token (`}`).
    CloseBrace,
    /// Double colon for substitution (`::`).
    NamedSubstitution,
    /// A single dot for dot-notation (e.g. `&&cite-id.title`).
    SingleDot,
    /// Double quote literal (`"`).
    DoubleQuote,
    /// Single quote literal (`'`).
    SingleQuote,
    /// An ASCII digit.
    Digit(u8),
    /// One or more `<`.
    Lt(usize),
    /// One or more `>`.
    Gt(usize),
    /// Possible start of a media insert (`[!!alt text](url)`).
    MediaInsert,
    /// End of line: a regular newline token.
    Newline,
    /// Escaped newline token.
    EscapedNewline,
    /// Any single whitespace token.
    Whitespace,
    /// Escaped whitespace token.
    EscapedWhitespace,
    /// Simple textual token.
    Plain,
    /// Escaped textual token.
    EscapedPlain,
    /// End of input marker.
    Eoi,
    /// A Unimarkup comment.
    Comment,
    /// Implicit substitution (e.g. emojis and arrows).
    ImplicitSubstitution(ImplicitSubstitutionKind),
    /// Matches any token.
    Any,
    /// Matches any space.
    Space,
    /// Matches digits.
    Digits,
    /// Possible start of attributes.
    PossibleAttributes,
}

impl Default for InlineTokenKind {
    /// A simple textual token.
    fn default() -> (r: Self)
        ensures
            r == InlineTokenKind::Plain,
    {
        InlineTokenKind::Plain
    }
}

pub const ITALIC_KEYWORD_LEN: usize = 1;
pub const BOLD_KEYWORD_LEN: usize = 2;
pub const BOLDITALIC_KEYWORD_LEN: usize = 3;
pub const SUBSCRIPT_KEYWORD_LEN: usize = 1;
pub const UNDERLINE_KEYWORD_LEN: usize = 2;
pub const UNDERLINESUBSCRIPT_KEYWORD_LEN: usize = 3;
pub const STRIKETHROUGH_KEYWORD_LEN: usize = 2;
pub const HIGHLIGHT_KEYWORD_LEN: usize = 2;
pub const MATH_KEYWORD_LEN: usize = 2;
pub const NAMED_SUBSTITUTION_KEYWORD_LEN: usize = 2;
pub const SUPERSCRIPT_KEYWORD_LEN: usize = 1;
pub const VERBATIM_KEYWORD_LEN: usize = 1;
pub const OVERLINE_KEYWORD_LEN: usize = 1;
pub const INLINE_INSERT_KEYWORD_LEN: usize = 2;
pub const DOT_KEYWORD_LEN: usize = 1;
pub const CITE_KEYWORD_LEN: usize = 2;
pub const COMMA_KEYWORD_LEN: usize = 1;
/// Number of `;` that start a Unimarkup comment (`;;`).
pub const COMMENT_KEYWORD_LEN: usize = 2;

/// The text of a digit.
pub open spec fn digit_text(d: u8) -> Option<Seq<char>> {
    match d {
        0 => Some(seq!['0']),
        1 => Some(seq!['1']),
        2 => Some(seq!['2']),
        3 => Some(seq!['3']),
        4 => Some(seq!['4']),
        5 => Some(seq!['5']),
        6 => Some(seq!['6']),
        7 => Some(seq!['7']),
        8 => Some(seq!['8']),
        9 => Some(seq!['9']),
        _ => None,
    }
}

/// The textual representation of a kind; `None` where the kind has none.
pub open spec fn inline_kind_text(k: InlineTokenKind) -> Option<Seq<char>> {
    match k {
        InlineTokenKind::Bold => Some(seq!['*', '*']),
        InlineTokenKind::BoldItalic => Some(seq!['*', '*', '*']),
        InlineTokenKind::Italic => Some(seq!['*']),
        InlineTokenKind::Newline | InlineTokenKind::EscapedNewline => Some(seq!['\n']),
        InlineTokenKind::Whitespace => Some(seq![' ']),
        InlineTokenKind::Underline => Some(seq!['_', '_']),
        InlineTokenKind::Subscript => Some(seq!['_']),
        InlineTokenKind::Superscript => Some(seq!['^']),
        InlineTokenKind::UnderlineSubscript => Some(seq!['_', '_', '_']),
        InlineTokenKind::Highlight => Some(seq!['|', '|']),
        InlineTokenKind::Overline => Some(seq!['‾']),
        InlineTokenKind::Strikethrough => Some(seq!['~', '~']),
        InlineTokenKind::Verbatim => Some(seq!['`']),
        InlineTokenKind::Math => Some(seq!['$', '$']),
        InlineTokenKind::Dot | InlineTokenKind::SingleDot => Some(seq!['.']),
        InlineTokenKind::Cite => Some(seq!['&', '&']),
        InlineTokenKind::Comma => Some(seq![',']),
        InlineTokenKind::OpenParenthesis => Some(seq!['(']),
        InlineTokenKind::CloseParenthesis => Some(seq![')']),
        InlineTokenKind::OpenBracket => Some(seq!['[']),
        InlineTokenKind::CloseBracket => Some(seq![']']),
        InlineTokenKind::OpenBrace => Some(seq!['{']),
        InlineTokenKind::CloseBrace => Some(seq!['}']),
        InlineTokenKind::NamedSubstitution => Some(seq![':', ':']),
        InlineTokenKind::Comment => Some(seq![';', ';']),
        InlineTokenKind::DoubleQuote => Some(seq!['"']),
        InlineTokenKind::SingleQuote => Some(seq!['\'']),
        InlineTokenKind::Digit(d) => digit_text(d),
        InlineTokenKind::MediaInsert => Some(seq!['!', '!']),
        InlineTokenKind::Eoi => Some(Seq::empty()),
        InlineTokenKind::Plain
        | InlineTokenKind::Lt(_)
        | InlineTokenKind::Gt(_)
        | InlineTokenKind::EscapedPlain
        | InlineTokenKind::EscapedWhitespace
        | InlineTokenKind::ImplicitSubstitution(_)
        | InlineTokenKind::Any
        | InlineTokenKind::Space
        | InlineTokenKind::Digits
        | InlineTokenKind::PossibleAttributes => None,
    }
}

} // verus!

verus! {

impl InlineTokenKind {
    /// Returns the textual representation of the kind.
    pub fn as_str(&self) -> (r: &'static str)
        requires
            inline_kind_text(*self) is Some,
        ensures
            r@ == inline_kind_text(*self)->0,
    {
        match *self {
            InlineTokenKind::Bold => {
                proof { reveal_strlit("**"); }
                "**"
            },
            InlineTokenKind::BoldItalic => {
                proof { reveal_strlit("***"); }
                "***"
            },
            InlineTokenKind::Italic => {
                proof { reveal_strlit("*"); }
                "*"
            },
            InlineTokenKind::Newline => {
                proof { reveal_strlit("\n"); }
                "\n"
            },
            InlineTokenKind::EscapedNewline => {
                proof { reveal_strlit("\n"); }
                "\n"
            },
            InlineTokenKind::Whitespace => {
                proof { reveal_strlit(" "); }
                " "
            },
            InlineTokenKind::Underline => {
                proof { reveal_strlit("__"); }
                "__"
            },
            InlineTokenKind::Subscript => {
                proof { reveal_strlit("_"); }
                "_"
            },
            InlineTokenKind::Superscript => {
                proof { reveal_strlit("^"); }
                "^"
            },
            InlineTokenKind::UnderlineSubscript => {
                proof { reveal_strlit("___"); }
                "___"
            },
            InlineTokenKind::Highlight => {
                proof { reveal_strlit("||"); }
                "||"
            },
            InlineTokenKind::Overline => {
                proof { reveal_strlit("‾"); }
                "‾"
            },
            InlineTokenKind::Strikethrough => {
                proof { reveal_strlit("~~"); }
                "~~"
            },
            InlineTokenKind::Verbatim => {
                proof { reveal_strlit("`"); }
                "`"
            },
            InlineTokenKind::Math => {
                proof { reveal_strlit("$$"); }
                "$$"
            },
            InlineTokenKind::Dot => {
                proof { reveal_strlit("."); }
                "."
            },
            InlineTokenKind::Cite => {
                proof { reveal_strlit("&&"); }
                "&&"
            },
            InlineTokenKind::Comma => {
                proof { reveal_strlit(","); }
                ","
            },
            InlineTokenKind::OpenParenthesis => {
                proof { reveal_strlit("("); }
                "("
            },
            InlineTokenKind::CloseParenthesis => {
                proof { reveal_strlit(")"); }
                ")"
            },
            InlineTokenKind::OpenBracket => {
                proof { reveal_strlit("["); }
                "["
            },
            InlineTokenKind::CloseBracket => {
                proof { reveal_strlit("]"); }
                "]"
            },
            InlineTokenKind::OpenBrace => {
                proof { reveal_strlit("{"); }
                "{"
            },
            InlineTokenKind::CloseBrace => {
                proof { reveal_strlit("}"); }
                "}"
            },
            InlineTokenKind::NamedSubstitution => {
                proof { reveal_strlit("::"); }
                "::"
            },
            InlineTokenKind::Comment => {
                proof { reveal_strlit(";;"); }
                ";;"
            },
            InlineTokenKind::SingleDot => {
                proof { reveal_strlit("."); }
                "."
            },
            InlineTokenKind::DoubleQuote => {
                proof { reveal_strlit("\""); }
                "\""
            },
            InlineTokenKind::SingleQuote => {
                proof { reveal_strlit("'"); }
                "'"
            },
            InlineTokenKind::MediaInsert => {
                proof { reveal_strlit("!!"); }
                "!!"
            },
            InlineTokenKind::Eoi => {
                proof { reveal_strlit(""); }
                ""
            },
            InlineTokenKind::Digit(digit) => Self::digit_str(digit),
            _ => {
                proof { reveal_strlit(""); }
                ""
            },
        }
    }

    fn digit_str(digit: u8) -> (r: &'static str)
        requires
            digit <= 9,
        ensures
            r@ == digit_text(digit)->0,
    {
        match digit {
            0 => {
                proof { reveal_strlit("0"); }
                "0"
            },
            1 => {
                proof { reveal_strlit("1"); }
                "1"
            },
            2 => {
                proof { reveal_strlit("2"); }
                "2"
            },
            3 => {
                proof { reveal_strlit("3"); }
                "3"
            },
            4 => {
                proof { reveal_strlit("4"); }
                "4"
            },
            5 => {
                proof { reveal_strlit("5"); }
                "5"
            },
            6 => {
                proof { reveal_strlit("6"); }
                "6"
            },
            7 => {
                proof { reveal_strlit("7"); }
                "7"
            },
            8 => {
                proof { reveal_strlit("8"); }
                "8"
            },
            _ => {
                proof { reveal_strlit("9"); }
                "9"
            },
        }
    }
}

} // verus!

verus! {

/// A kind that is text rather than a keyword.
pub open spec fn spec_is_not_keyword(k: InlineTokenKind) -> bool {
    matches!(
        k,
        InlineTokenKind::Newline
            | InlineTokenKind::Whitespace
            | InlineTokenKind::Plain
            | InlineTokenKind::Eoi
            | InlineTokenKind::ImplicitSubstitution(_)
            | InlineTokenKind::EscapedNewline
            | InlineTokenKind::EscapedWhitespace
            | InlineTokenKind::EscapedPlain
    )
}

/// An opening parenthesis, bracket or brace.
pub open spec fn spec_is_open_parenthesis(k: InlineTokenKind) -> bool {
    matches!(
        k,
        InlineTokenKind::OpenParenthesis | InlineTokenKind::OpenBracket | InlineTokenKind::OpenBrace
    )
}

/// A closing parenthesis, bracket or brace.
pub open spec fn spec_is_close_parenthesis(k: InlineTokenKind) -> bool {
    matches!(
        k,
        InlineTokenKind::CloseParenthesis | InlineTokenKind::CloseBracket | InlineTokenKind::CloseBrace
    )
}

/// A keyword that opens or closes a format.
pub open spec fn spec_is_format_keyword(k: InlineTokenKind) -> bool {
    matches!(
        k,
        InlineTokenKind::Bold
            | InlineTokenKind::Italic
            | InlineTokenKind::BoldItalic
            | InlineTokenKind::Underline
            | InlineTokenKind::Subscript
            | InlineTokenKind::UnderlineSubscript
            | InlineTokenKind::Superscript
            | InlineTokenKind::Strikethrough
            | InlineTokenKind::DoubleQuote
            | InlineTokenKind::Overline
            | InlineTokenKind::Verbatim
            | InlineTokenKind::Highlight
            | InlineTokenKind::Math
            | InlineTokenKind::NamedSubstitution
    )
}

/// A keyword whose content is scoped: nothing inside it is formatted.
pub open spec fn spec_is_scoped_format_keyword(k: InlineTokenKind) -> bool {
    matches!(
        k,
        InlineTokenKind::Verbatim
            | InlineTokenKind::Math
            | InlineTokenKind::NamedSubstitution
            | InlineTokenKind::Comment
            | InlineTokenKind::Cite
    )
}

/// No character takes more than four bytes in UTF-8.
proof fn lemma_encoded_len_bound(chars: Seq<char>)
    ensures
        encode_utf8(chars).len() <= 4 * chars.len(),
    decreases chars.len(),
{
    if chars.len() > 0 {
        lemma_encoded_len_bound(chars.drop_first());
    }
}

impl InlineTokenKind {
    /// Returns the length in bytes that this kind occupies in the original Unimarkup text.
    #[allow(clippy::len_without_is_empty)]
    pub fn len(&self) -> (r: usize)
        requires
            inline_kind_text(*self) is Some,
        ensures
            r == encode_utf8(inline_kind_text(*self)->0).len(),
    {
        proof {
            lemma_encoded_len_bound(inline_kind_text(*self)->0);
        }
        self.as_str().len()
    }

    pub fn is_not_keyword(&self) -> (r: bool)
        ensures
            r == spec_is_not_keyword(*self),
    {
        matches!(
            self,
            InlineTokenKind::Newline
                | InlineTokenKind::Whitespace
                | InlineTokenKind::Plain
                | InlineTokenKind::Eoi
                | InlineTokenKind::ImplicitSubstitution(_)
                | InlineTokenKind::EscapedNewline
                | InlineTokenKind::EscapedWhitespace
                | InlineTokenKind::EscapedPlain
        )
    }

    pub fn is_keyword(&self) -> (r: bool)
        ensures
            r == !spec_is_not_keyword(*self),
    {
        !self.is_not_keyword()
    }

    pub fn is_open_parenthesis(&self) -> (r: bool)
        ensures
            r == spec_is_open_parenthesis(*self),
    {
        matches!(
            self,
            InlineTokenKind::OpenParenthesis
                | InlineTokenKind::OpenBracket
                | InlineTokenKind::OpenBrace
        )
    }

    pub fn is_close_parenthesis(&self) -> (r: bool)
        ensures
            r == spec_is_close_parenthesis(*self),
    {
        matches!(
            self,
            InlineTokenKind::CloseParenthesis
                | InlineTokenKind::CloseBracket
                | InlineTokenKind::CloseBrace
        )
    }

    pub fn is_parenthesis(&self) -> (r: bool)
        ensures
            r == (spec_is_open_parenthesis(*self) || spec_is_close_parenthesis(*self)),
    {
        self.is_open_parenthesis() || self.is_close_parenthesis()
    }

    pub fn is_space(&self) -> (r: bool)
        ensures
            r == matches!(
                *self,
                InlineTokenKind::Newline | InlineTokenKind::Whitespace | InlineTokenKind::Eoi
            ),
    {
        matches!(
            self,
            InlineTokenKind::Newline | InlineTokenKind::Whitespace | InlineTokenKind::Eoi
        )
    }

    pub fn is_format_keyword(&self) -> (r: bool)
        ensures
            r == spec_is_format_keyword(*self),
    {
        matches!(
            self,
            InlineTokenKind::Bold
                | InlineTokenKind::Italic
                | InlineTokenKind::BoldItalic
                | InlineTokenKind::Underline
                | InlineTokenKind::Subscript
                | InlineTokenKind::UnderlineSubscript
                | InlineTokenKind::Superscript
                | InlineTokenKind::Strikethrough
                | InlineTokenKind::DoubleQuote
                | InlineTokenKind::Overline
                | InlineTokenKind::Verbatim
                | InlineTokenKind::Highlight
                | InlineTokenKind::Math
                | InlineTokenKind::NamedSubstitution
        )
    }

    pub fn is_scoped_format_keyword(&self) -> (r: bool)
        ensures
            r == spec_is_scoped_format_keyword(*self),
    {
        matches!(
            self,
            InlineTokenKind::Verbatim
                | InlineTokenKind::Math
                | InlineTokenKind::NamedSubstitution
                | InlineTokenKind::Comment
                | InlineTokenKind::Cite
        )
    }
}

} // verus!

verus! {

/// The inline kind of a lexed token: a symbol repeated as often as an inline keyword
/// needs becomes that keyword, any other repetition is plain text.
pub open spec fn inline_kind_of(value: TokenKind) -> InlineTokenKind {
    match value {
        TokenKind::Star(len) => if len == ITALIC_KEYWORD_LEN {
            InlineTokenKind::Italic
        } else if len == BOLD_KEYWORD_LEN {
            InlineTokenKind::Bold
        } else if len == BOLDITALIC_KEYWORD_LEN {
            InlineTokenKind::BoldItalic
        } else {
            InlineTokenKind::Plain
        },
        TokenKind::Underline(len) => if len == SUBSCRIPT_KEYWORD_LEN {
            InlineTokenKind::Subscript
        } else if len == UNDERLINE_KEYWORD_LEN {
            InlineTokenKind::Underline
        } else if len == UNDERLINESUBSCRIPT_KEYWORD_LEN {
            InlineTokenKind::UnderlineSubscript
        } else {
            InlineTokenKind::Plain
        },
        TokenKind::Pipe(len) => keyword_or_plain(len, HIGHLIGHT_KEYWORD_LEN, InlineTokenKind::Highlight),
        TokenKind::Tilde(len) => keyword_or_plain(len, STRIKETHROUGH_KEYWORD_LEN, InlineTokenKind::Strikethrough),
        TokenKind::Dollar(len) => keyword_or_plain(len, MATH_KEYWORD_LEN, InlineTokenKind::Math),
        TokenKind::Colon(len) => keyword_or_plain(len, NAMED_SUBSTITUTION_KEYWORD_LEN, InlineTokenKind::NamedSubstitution),
        TokenKind::Caret(len) => keyword_or_plain(len, SUPERSCRIPT_KEYWORD_LEN, InlineTokenKind::Superscript),
        TokenKind::Tick(len) => keyword_or_plain(len, VERBATIM_KEYWORD_LEN, InlineTokenKind::Verbatim),
        TokenKind::Overline(len) => keyword_or_plain(len, OVERLINE_KEYWORD_LEN, InlineTokenKind::Overline),
        TokenKind::Semicolon(len) => keyword_or_plain(len, COMMENT_KEYWORD_LEN, InlineTokenKind::Comment),
        TokenKind::Dot(len) => keyword_or_plain(len, DOT_KEYWORD_LEN, InlineTokenKind::Dot),
        TokenKind::ExclamationMark(len) => keyword_or_plain(len, INLINE_INSERT_KEYWORD_LEN, InlineTokenKind::MediaInsert),
        TokenKind::Ampersand(len) => keyword_or_plain(len, CITE_KEYWORD_LEN, InlineTokenKind::Cite),
        TokenKind::Comma(len) => keyword_or_plain(len, COMMA_KEYWORD_LEN, InlineTokenKind::Comma),
        TokenKind::Lt(len) => InlineTokenKind::Lt(len),
        TokenKind::Gt(len) => InlineTokenKind::Gt(len),
        TokenKind::DoubleQuote => InlineTokenKind::DoubleQuote,
        TokenKind::SingleQuote => InlineTokenKind::SingleQuote,
        TokenKind::Digit(digit) => InlineTokenKind::Digit(digit),
        TokenKind::OpenParenthesis => InlineTokenKind::OpenParenthesis,
        TokenKind::CloseParenthesis => InlineTokenKind::CloseParenthesis,
        TokenKind::OpenBracket => InlineTokenKind::OpenBracket,
        TokenKind::CloseBracket => InlineTokenKind::CloseBracket,
        TokenKind::OpenBrace => InlineTokenKind::OpenBrace,
        TokenKind::CloseBrace => InlineTokenKind::CloseBrace,
        TokenKind::Whitespace => InlineTokenKind::Whitespace,
        TokenKind::Newline => InlineTokenKind::Newline,
        TokenKind::Eoi | TokenKind::Blankline => InlineTokenKind::Eoi,
        TokenKind::EscapedPlain => InlineTokenKind::EscapedPlain,
        TokenKind::EscapedWhitespace => InlineTokenKind::EscapedWhitespace,
        TokenKind::EscapedNewline => InlineTokenKind::EscapedNewline,
        TokenKind::Comment { .. } => InlineTokenKind::Comment,
        TokenKind::ImplicitSubstitution(impl_subst) => InlineTokenKind::ImplicitSubstitution(impl_subst),
        TokenKind::Any => InlineTokenKind::Any,
        TokenKind::Space => InlineTokenKind::Space,
        TokenKind::Digits => InlineTokenKind::Digits,
        TokenKind::PossibleAttributes => InlineTokenKind::PossibleAttributes,
        TokenKind::Plain
        | TokenKind::Hash(_)
        | TokenKind::Minus(_)
        | TokenKind::Plus(_)
        | TokenKind::Quote(_)
        | TokenKind::ForwardSlash(_)
        | TokenKind::Percentage(_)
        | TokenKind::QuestionMark(_)
        | TokenKind::At(_)
        | TokenKind::Eq(_)
        | TokenKind::DirectUri
        | TokenKind::EnclosedBlockEnd
        | TokenKind::PossibleDecorator
        | TokenKind::TerminalPunctuation => InlineTokenKind::Plain,
    }
}

/// The keyword where a symbol is repeated exactly as often as it needs, else plain text.
pub open spec fn keyword_or_plain(len: usize, keyword_len: usize, keyword: InlineTokenKind) -> InlineTokenKind {
    if len == keyword_len {
        keyword
    } else {
        InlineTokenKind::Plain
    }
}

/// The lexer kind an inline kind is written with.
pub open spec fn token_kind_of(value: InlineTokenKind) -> TokenKind {
    match value {
        InlineTokenKind::Bold => TokenKind::Star(BOLD_KEYWORD_LEN),
        InlineTokenKind::Italic => TokenKind::Star(ITALIC_KEYWORD_LEN),
        InlineTokenKind::BoldItalic => TokenKind::Star(BOLDITALIC_KEYWORD_LEN),
        InlineTokenKind::Underline => TokenKind::Underline(UNDERLINE_KEYWORD_LEN),
        InlineTokenKind::Subscript => TokenKind::Underline(SUBSCRIPT_KEYWORD_LEN),
        InlineTokenKind::UnderlineSubscript => TokenKind::Underline(UNDERLINESUBSCRIPT_KEYWORD_LEN),
        InlineTokenKind::Superscript => TokenKind::Caret(SUPERSCRIPT_KEYWORD_LEN),
        InlineTokenKind::Overline => TokenKind::Overline(OVERLINE_KEYWORD_LEN),
        InlineTokenKind::Strikethrough => TokenKind::Tilde(STRIKETHROUGH_KEYWORD_LEN),
        InlineTokenKind::Highlight => TokenKind::Pipe(HIGHLIGHT_KEYWORD_LEN),
        InlineTokenKind::Verbatim => TokenKind::Tick(VERBATIM_KEYWORD_LEN),
        InlineTokenKind::DoubleQuote => TokenKind::DoubleQuote,
        InlineTokenKind::SingleQuote => TokenKind::SingleQuote,
        InlineTokenKind::Math => TokenKind::Dollar(MATH_KEYWORD_LEN),
        InlineTokenKind::Dot => TokenKind::Dot(DOT_KEYWORD_LEN),
        InlineTokenKind::Cite => TokenKind::Ampersand(CITE_KEYWORD_LEN),
        InlineTokenKind::Comma => TokenKind::Comma(COMMA_KEYWORD_LEN),
        InlineTokenKind::OpenParenthesis => TokenKind::OpenParenthesis,
        InlineTokenKind::CloseParenthesis => TokenKind::CloseParenthesis,
        InlineTokenKind::OpenBracket => TokenKind::OpenBracket,
        InlineTokenKind::CloseBracket => TokenKind::CloseBracket,
        InlineTokenKind::OpenBrace => TokenKind::OpenBrace,
        InlineTokenKind::CloseBrace => TokenKind::CloseBrace,
        InlineTokenKind::NamedSubstitution => TokenKind::Colon(NAMED_SUBSTITUTION_KEYWORD_LEN),
        InlineTokenKind::Newline => TokenKind::Newline,
        InlineTokenKind::EscapedNewline => TokenKind::EscapedNewline,
        InlineTokenKind::Whitespace => TokenKind::Whitespace,
        InlineTokenKind::EscapedWhitespace => TokenKind::EscapedWhitespace,
        InlineTokenKind::Plain => TokenKind::Plain,
        InlineTokenKind::EscapedPlain => TokenKind::EscapedPlain,
        InlineTokenKind::Eoi => TokenKind::Eoi,
        InlineTokenKind::Comment => TokenKind::Semicolon(COMMENT_KEYWORD_LEN),
        InlineTokenKind::ImplicitSubstitution(impl_subst) => TokenKind::ImplicitSubstitution(impl_subst),
        InlineTokenKind::SingleDot => TokenKind::Dot(1),
        InlineTokenKind::Digit(digit) => TokenKind::Digit(digit),
        InlineTokenKind::Lt(len) => TokenKind::Lt(len),
        InlineTokenKind::Gt(len) => TokenKind::Gt(len),
        InlineTokenKind::MediaInsert => TokenKind::ExclamationMark(INLINE_INSERT_KEYWORD_LEN),
        InlineTokenKind::Any => TokenKind::Any,
        InlineTokenKind::Space => TokenKind::Space,
        InlineTokenKind::PossibleAttributes => TokenKind::PossibleAttributes,
        InlineTokenKind::Digits => TokenKind::Digits,
    }
}

} // verus!

verus! {

impl From<TokenKind> for InlineTokenKind {
    fn from(value: TokenKind) -> (r: Self)
        ensures
            r == inline_kind_of(value),
    {
        match value {
            TokenKind::Star(len) => {
                if len == ITALIC_KEYWORD_LEN {
                    InlineTokenKind::Italic
                } else if len == BOLD_KEYWORD_LEN {
                    InlineTokenKind::Bold
                } else if len == BOLDITALIC_KEYWORD_LEN {
                    InlineTokenKind::BoldItalic
                } else {
                    InlineTokenKind::Plain
                }
            },
            TokenKind::Underline(len) => {
                if len == SUBSCRIPT_KEYWORD_LEN {
                    InlineTokenKind::Subscript
                } else if len == UNDERLINE_KEYWORD_LEN {
                    InlineTokenKind::Underline
                } else if len == UNDERLINESUBSCRIPT_KEYWORD_LEN {
                    InlineTokenKind::UnderlineSubscript
                } else {
                    InlineTokenKind::Plain
                }
            },
            TokenKind::Pipe(len) => {
                if len == HIGHLIGHT_KEYWORD_LEN {
                    InlineTokenKind::Highlight
                } else {
                    InlineTokenKind::Plain
                }
            },
            TokenKind::Tilde(len) => {
                if len == STRIKETHROUGH_KEYWORD_LEN {
                    InlineTokenKind::Strikethrough
                } else {
                    InlineTokenKind::Plain
                }
            },
            TokenKind::Dollar(len) => {
                if len == MATH_KEYWORD_LEN {
                    InlineTokenKind::Math
                } else {
                    InlineTokenKind::Plain
                }
            },
            TokenKind::Colon(len) => {
                if len == NAMED_SUBSTITUTION_KEYWORD_LEN {
                    InlineTokenKind::NamedSubstitution
                } else {
                    InlineTokenKind::Plain
                }
            },
            TokenKind::Caret(len) => {
                if len == SUPERSCRIPT_KEYWORD_LEN {
                    InlineTokenKind::Superscript
                } else {
                    InlineTokenKind::Plain
                }
            },
            TokenKind::Tick(len) => {
                if len == VERBATIM_KEYWORD_LEN {
                    InlineTokenKind::Verbatim
                } else {
                    InlineTokenKind::Plain
                }
            },
            TokenKind::Overline(len) => {
                if len == OVERLINE_KEYWORD_LEN {
                    InlineTokenKind::Overline
                } else {
                    InlineTokenKind::Plain
                }
            },
            TokenKind::Semicolon(len) => {
                if len == COMMENT_KEYWORD_LEN {
                    InlineTokenKind::Comment
                } else {
                    InlineTokenKind::Plain
                }
            },
            TokenKind::Dot(len) => {
                if len == DOT_KEYWORD_LEN {
                    InlineTokenKind::Dot
                } else {
                    InlineTokenKind::Plain
                }
            },
            TokenKind::ExclamationMark(len) => {
                if len == INLINE_INSERT_KEYWORD_LEN {
                    InlineTokenKind::MediaInsert
                } else {
                    InlineTokenKind::Plain
                }
            },
            TokenKind::Ampersand(len) => {
                if len == CITE_KEYWORD_LEN {
                    InlineTokenKind::Cite
                } else {
                    InlineTokenKind::Plain
                }
            },
            TokenKind::Comma(len) => {
                if len == COMMA_KEYWORD_LEN {
                    InlineTokenKind::Comma
                } else {
                    InlineTokenKind::Plain
                }
            },
            TokenKind::Lt(len) => InlineTokenKind::Lt(len),
            TokenKind::Gt(len) => InlineTokenKind::Gt(len),
            TokenKind::DoubleQuote => InlineTokenKind::DoubleQuote,
            TokenKind::SingleQuote => InlineTokenKind::SingleQuote,
            TokenKind::Digit(digit) => InlineTokenKind::Digit(digit),
            TokenKind::OpenParenthesis => InlineTokenKind::OpenParenthesis,
            TokenKind::CloseParenthesis => InlineTokenKind::CloseParenthesis,
            TokenKind::OpenBracket => InlineTokenKind::OpenBracket,
            TokenKind::CloseBracket => InlineTokenKind::CloseBracket,
            TokenKind::OpenBrace => InlineTokenKind::OpenBrace,
            TokenKind::CloseBrace => InlineTokenKind::CloseBrace,
            TokenKind::Whitespace => InlineTokenKind::Whitespace,
            TokenKind::Newline => InlineTokenKind::Newline,
            // A blank line is not allowed in inlines: it ends them.
            TokenKind::Eoi | TokenKind::Blankline => InlineTokenKind::Eoi,
            TokenKind::EscapedPlain => InlineTokenKind::EscapedPlain,
            TokenKind::EscapedWhitespace => InlineTokenKind::EscapedWhitespace,
            TokenKind::EscapedNewline => InlineTokenKind::EscapedNewline,
            TokenKind::Comment { .. } => InlineTokenKind::Comment,
            TokenKind::ImplicitSubstitution(impl_subst) => InlineTokenKind::ImplicitSubstitution(impl_subst),
            TokenKind::Any => InlineTokenKind::Any,
            TokenKind::Space => InlineTokenKind::Space,
            TokenKind::Digits => InlineTokenKind::Digits,
            TokenKind::PossibleAttributes => InlineTokenKind::PossibleAttributes,
            TokenKind::Plain
            | TokenKind::Hash(_)
            | TokenKind::Minus(_)
            | TokenKind::Plus(_)
            | TokenKind::Quote(_)
            | TokenKind::ForwardSlash(_)
            | TokenKind::Percentage(_)
            | TokenKind::QuestionMark(_)
            | TokenKind::At(_)
            | TokenKind::Eq(_)
            | TokenKind::DirectUri
            | TokenKind::EnclosedBlockEnd
            | TokenKind::PossibleDecorator
            | TokenKind::TerminalPunctuation => InlineTokenKind::Plain,
        }
    }
}

impl FromSpecImpl<TokenKind> for InlineTokenKind {
    open spec fn obeys_from_spec() -> bool {
        true
    }

    open spec fn from_spec(value: TokenKind) -> InlineTokenKind {
        inline_kind_of(value)
    }
}

impl From<InlineTokenKind> for TokenKind {
    fn from(value: InlineTokenKind) -> (r: Self)
        ensures
            r == token_kind_of(value),
    {
        match value {
            InlineTokenKind::Bold => TokenKind::Star(BOLD_KEYWORD_LEN),
            InlineTokenKind::Italic => TokenKind::Star(ITALIC_KEYWORD_LEN),
            InlineTokenKind::BoldItalic => TokenKind::Star(BOLDITALIC_KEYWORD_LEN),
            InlineTokenKind::Underline => TokenKind::Underline(UNDERLINE_KEYWORD_LEN),
            InlineTokenKind::Subscript => TokenKind::Underline(SUBSCRIPT_KEYWORD_LEN),
            InlineTokenKind::UnderlineSubscript => {
                TokenKind::Underline(UNDERLINESUBSCRIPT_KEYWORD_LEN)
            },
            InlineTokenKind::Superscript => TokenKind::Caret(SUPERSCRIPT_KEYWORD_LEN),
            InlineTokenKind::Overline => TokenKind::Overline(OVERLINE_KEYWORD_LEN),
            InlineTokenKind::Strikethrough => TokenKind::Tilde(STRIKETHROUGH_KEYWORD_LEN),
            InlineTokenKind::Highlight => TokenKind::Pipe(HIGHLIGHT_KEYWORD_LEN),
            InlineTokenKind::Verbatim => TokenKind::Tick(VERBATIM_KEYWORD_LEN),
            InlineTokenKind::DoubleQuote => TokenKind::DoubleQuote,
            InlineTokenKind::SingleQuote => TokenKind::SingleQuote,
            InlineTokenKind::Math => TokenKind::Dollar(MATH_KEYWORD_LEN),
            InlineTokenKind::Dot => TokenKind::Dot(DOT_KEYWORD_LEN),
            InlineTokenKind::Cite => TokenKind::Ampersand(CITE_KEYWORD_LEN),
            InlineTokenKind::Comma => TokenKind::Comma(COMMA_KEYWORD_LEN),
            InlineTokenKind::OpenParenthesis => TokenKind::OpenParenthesis,
            InlineTokenKind::CloseParenthesis => TokenKind::CloseParenthesis,
            InlineTokenKind::OpenBracket => TokenKind::OpenBracket,
            InlineTokenKind::CloseBracket => TokenKind::CloseBracket,
            InlineTokenKind::OpenBrace => TokenKind::OpenBrace,
            InlineTokenKind::CloseBrace => TokenKind::CloseBrace,
            InlineTokenKind::NamedSubstitution => TokenKind::Colon(NAMED_SUBSTITUTION_KEYWORD_LEN),
            InlineTokenKind::Newline => TokenKind::Newline,
            InlineTokenKind::EscapedNewline => TokenKind::EscapedNewline,
            InlineTokenKind::Whitespace => TokenKind::Whitespace,
            InlineTokenKind::EscapedWhitespace => TokenKind::EscapedWhitespace,
            InlineTokenKind::Plain => TokenKind::Plain,
            InlineTokenKind::EscapedPlain => TokenKind::EscapedPlain,
            InlineTokenKind::Eoi => TokenKind::Eoi,
            InlineTokenKind::Comment => TokenKind::Semicolon(COMMENT_KEYWORD_LEN),
            InlineTokenKind::ImplicitSubstitution(impl_subst) => TokenKind::ImplicitSubstitution(impl_subst),
            InlineTokenKind::SingleDot => TokenKind::Dot(1),
            InlineTokenKind::Digit(digit) => TokenKind::Digit(digit),
            InlineTokenKind::Lt(len) => TokenKind::Lt(len),
            InlineTokenKind::Gt(len) => TokenKind::Gt(len),
            InlineTokenKind::MediaInsert => TokenKind::ExclamationMark(INLINE_INSERT_KEYWORD_LEN),
            InlineTokenKind::Any => TokenKind::Any,
            InlineTokenKind::Space => TokenKind::Space,
            InlineTokenKind::PossibleAttributes => TokenKind::PossibleAttributes,
            InlineTokenKind::Digits => TokenKind::Digits,
        }
    }
}

impl FromSpecImpl<InlineTokenKind> for TokenKind {
    open spec fn obeys_from_spec() -> bool {
        true
    }

    open spec fn from_spec(value: InlineTokenKind) -> TokenKind {
        token_kind_of(value)
    }
}

/// Writing an inline kind as a lexer kind and reading it back gives the same kind,
/// for every kind but the dot of dot-notation, which is read back as an ordinary dot.
pub proof fn lemma_inline_kind_round_trip(k: InlineTokenKind)
    ensures
        k != InlineTokenKind::SingleDot ==> inline_kind_of(token_kind_of(k)) == k,
        k == InlineTokenKind::SingleDot ==> inline_kind_of(token_kind_of(k)) == InlineTokenKind::Dot,
{
}

/// A symbol written `n` times.
pub open spec fn run_of(c: char, n: usize) -> Seq<char> {
    Seq::new(n as nat, |i: int| c)
}

/// The text a lexed token of this kind stands for, where the kind fixes it: a symbol repeated as
/// often as the kind counts, or the one symbol of the kind.
pub open spec fn lexed_text(k: TokenKind) -> Option<Seq<char>> {
    match k {
        TokenKind::Star(n) => Some(run_of('*', n)),
        TokenKind::Hash(n) => Some(run_of('#', n)),
        TokenKind::Minus(n) => Some(run_of('-', n)),
        TokenKind::Plus(n) => Some(run_of('+', n)),
        TokenKind::Underline(n) => Some(run_of('_', n)),
        TokenKind::Caret(n) => Some(run_of('^', n)),
        TokenKind::Tick(n) => Some(run_of('`', n)),
        TokenKind::Overline(n) => Some(run_of('‾', n)),
        TokenKind::Pipe(n) => Some(run_of('|', n)),
        TokenKind::Tilde(n) => Some(run_of('~', n)),
        TokenKind::Quote(n) => Some(run_of('"', n)),
        TokenKind::Dollar(n) => Some(run_of('$', n)),
        TokenKind::Colon(n) => Some(run_of(':', n)),
        TokenKind::Semicolon(n) => Some(run_of(';', n)),
        TokenKind::Dot(n) => Some(run_of('.', n)),
        TokenKind::ExclamationMark(n) => Some(run_of('!', n)),
        TokenKind::Ampersand(n) => Some(run_of('&', n)),
        TokenKind::Comma(n) => Some(run_of(',', n)),
        TokenKind::ForwardSlash(n) => Some(run_of('/', n)),
        TokenKind::Percentage(n) => Some(run_of('%', n)),
        TokenKind::QuestionMark(n) => Some(run_of('?', n)),
        TokenKind::At(n) => Some(run_of('@', n)),
        TokenKind::Eq(n) => Some(run_of('=', n)),
        TokenKind::Lt(n) => Some(run_of('<', n)),
        TokenKind::Gt(n) => Some(run_of('>', n)),
        TokenKind::DoubleQuote => Some(seq!['"']),
        TokenKind::SingleQuote => Some(seq!['\'']),
        TokenKind::Digit(d) => digit_text(d),
        TokenKind::OpenParenthesis => Some(seq!['(']),
        TokenKind::CloseParenthesis => Some(seq![')']),
        TokenKind::OpenBracket => Some(seq!['[']),
        TokenKind::CloseBracket => Some(seq![']']),
        TokenKind::OpenBrace => Some(seq!['{']),
        TokenKind::CloseBrace => Some(seq!['}']),
        _ => None,
    }
}

proof fn lemma_runs(c: char)
    ensures
        run_of(c, 1) == seq![c],
        run_of(c, 2) == seq![c, c],
        run_of(c, 3) == seq![c, c, c],
{
    assert(run_of(c, 1) =~= seq![c]);
    assert(run_of(c, 2) =~= seq![c, c]);
    assert(run_of(c, 3) =~= seq![c, c, c]);
}

/// A lexed symbol run becomes the keyword written with that run, and a keyword is written with
/// the lexed run of its own text: where a kind of the lexer fixes its text and becomes a keyword
/// with a text, the keyword's text is that text; and the lexer kind a keyword is written with
/// stands for the keyword's text.
pub proof fn lemma_keywords_keep_their_text(k: TokenKind, ik: InlineTokenKind)
    ensures
        lexed_text(k) is Some && !spec_is_not_keyword(inline_kind_of(k)) && inline_kind_text(inline_kind_of(k)) is Some
            ==> inline_kind_text(inline_kind_of(k)) == lexed_text(k),
        !spec_is_not_keyword(ik) && inline_kind_text(ik) is Some ==> lexed_text(token_kind_of(ik)) == inline_kind_text(ik),
{
    lemma_runs('*');
    lemma_runs('_');
    lemma_runs('^');
    lemma_runs('`');
    lemma_runs('‾');
    lemma_runs('|');
    lemma_runs('~');
    lemma_runs('$');
    lemma_runs(':');
    lemma_runs(';');
    lemma_runs('.');
    lemma_runs('!');
    lemma_runs('&');
    lemma_runs(',');
}

} // verus!
