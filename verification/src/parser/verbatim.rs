//! Verbatim blocks: content between three or more backticks, kept as it is.
use crate::lexer::TokenKind;
use crate::tokenize::kind::{inline_kind_of, InlineTokenKind};
use crate::tokenizer::tokens::Position;
use vstd::prelude::*;
use vstd::string::StringExecFns;

verus! {

/// A Unimarkup verbatim block element.
#[derive(Debug)]
pub struct VerbatimBlock {
    /// The content of the verbatim block.
    pub content: String,
    /// The language used to highlight the content.
    pub data_lang: Option<String>,
    /// Attributes of the verbatim block.
    pub attributes: Option<String>,
    /// Marks that this verbatim block was implicitly closed.
    pub implicit_closed: bool,
    /// The number of backticks this verbatim block was created with.
    pub tick_len: usize,
    /// The start of this block in the Unimarkup input.
    pub start: Position,
    /// The end of this block in the Unimarkup input.
    pub end: Position,
}

/// `n` backticks.
pub open spec fn ticks(n: nat) -> Seq<char> {
    Seq::new(n, |i: int| '`')
}

/// The Unimarkup text of a verbatim block: the opening backticks with the language, the
/// content on lines of its own, and the closing backticks unless the block was closed
/// implicitly.
pub open spec fn verbatim_text(
    tick_len: nat,
    data_lang: Option<Seq<char>>,
    content: Seq<char>,
    implicit_closed: bool,
) -> Seq<char> {
    ticks(tick_len) + match data_lang {
        Some(l) => l,
        None => Seq::empty(),
    } + seq!['\n'] + content + seq!['\n'] + if implicit_closed {
        Seq::empty()
    } else {
        ticks(tick_len)
    }
}

impl VerbatimBlock {
    /// The block as Unimarkup text.
    pub fn to_plain_string(&self) -> (r: String)
        ensures
            r@ == verbatim_text(
                self.tick_len as nat,
                match self.data_lang {
                    Some(l) => Some(l@),
                    None => None,
                },
                self.content@,
                self.implicit_closed,
            ),
    {
        proof {
            reveal_strlit("\n");
            assert("\n"@ =~= seq!['\n']);
            assert(ticks(0) =~= Seq::<char>::empty());
        }
        let mut t = String::new();
        let mut i: usize = 0;
        while i < self.tick_len
            invariant
                i <= self.tick_len,
                t@ == ticks(i as nat),
            decreases self.tick_len - i,
        {
            proof {
                reveal_strlit("`");
                assert("`"@ =~= seq!['`']);
            }
            t.append("`");
            assert(t@ =~= ticks((i + 1) as nat));
            i = i + 1;
        }
        let mut s = String::new();
        s.append(t.as_str());
        match &self.data_lang {
            Some(l) => s.append(l.as_str()),
            None => {},
        }
        s.append("\n");
        s.append(self.content.as_str());
        s.append("\n");
        if !self.implicit_closed {
            s.append(t.as_str());
        }
        s
    }

    /// The start of this block in the Unimarkup input.
    pub fn start(&self) -> (r: Position)
        ensures
            r == self.start,
    {
        self.start
    }

    /// The end of this block in the Unimarkup input.
    pub fn end(&self) -> (r: Position)
        ensures
            r == self.end,
    {
        self.end
    }
}

/// The number of backticks that open a verbatim block, where the token opens one: a run of at
/// least three backticks.
pub open spec fn spec_opening_ticks(kind: TokenKind) -> Option<usize> {
    match kind {
        TokenKind::Tick(n) => if n >= 3 {
            Some(n)
        } else {
            None
        },
        _ => None,
    }
}

/// Decides whether the first token of a block opens a verbatim block, and with how many
/// backticks; the block closes at a line of as many backticks.
pub fn opening_ticks(kind: TokenKind) -> (r: Option<usize>)
    ensures
        r == spec_opening_ticks(kind),
{
    match kind {
        TokenKind::Tick(n) => if n >= 3 {
            Some(n)
        } else {
            None
        },
        _ => None,
    }
}

/// A lexed token is a space where its inline kind is: a whitespace, a newline, or the end of
/// input (which a blank line also is, inside a line).
pub open spec fn spec_is_space_token(k: TokenKind) -> bool {
    matches!(inline_kind_of(k), InlineTokenKind::Newline | InlineTokenKind::Whitespace | InlineTokenKind::Eoi)
}

/// A token that ends a line: a newline or a blank line.
pub open spec fn is_line_end(k: TokenKind) -> bool {
    k == TokenKind::Newline || k == TokenKind::Blankline
}

fn is_space_token(k: TokenKind) -> (r: bool)
    ensures
        r == spec_is_space_token(k),
{
    InlineTokenKind::from(k).is_space()
}

/// The kinds of lexed tokens.
pub open spec fn kinds_of(ts: Seq<(TokenKind, String)>) -> Seq<TokenKind> {
    ts.map_values(|t: (TokenKind, String)| t.0)
}

/// The index of the first space at or after `j`, or the end.
pub open spec fn first_space_from(ks: Seq<TokenKind>, j: int) -> int
    decreases ks.len() - j,
{
    if j >= ks.len() {
        ks.len() as int
    } else if spec_is_space_token(ks[j]) {
        j
    } else {
        first_space_from(ks, j + 1)
    }
}

/// The texts of tokens `a` to `b`, joined.
pub open spec fn texts_between(ts: Seq<(TokenKind, String)>, a: int, b: int) -> Seq<char>
    decreases b - a,
{
    if b <= a {
        Seq::empty()
    } else {
        texts_between(ts, a, b - 1) + ts[b - 1].1@
    }
}

/// The data language of a verbatim block, given the tokens after its opening backticks: the
/// text of the tokens up to the first space, if there is any.
pub open spec fn spec_data_lang(ts: Seq<(TokenKind, String)>) -> Option<Seq<char>> {
    let i = first_space_from(kinds_of(ts), 0);
    if i == 0 {
        None
    } else {
        Some(texts_between(ts, 0, i))
    }
}

/// Whether text that is not space follows the data language on the opening line: the space
/// that ends the data language does not end the line, and a token before the line's end after
/// it is no space.
pub open spec fn text_after_lang(ks: Seq<TokenKind>) -> bool {
    let i = first_space_from(ks, 0);
    &&& i < ks.len()
    &&& !is_line_end(ks[i])
    &&& exists|j: int|
        i < j < ks.len() && !spec_is_space_token(#[trigger] ks[j]) && forall|m: int| i < m < j ==> !is_line_end(ks[m])
}

proof fn lemma_first_space_from(ks: Seq<TokenKind>, j: int)
    requires
        0 <= j <= ks.len(),
    ensures
        j <= first_space_from(ks, j) <= ks.len(),
        forall|m: int| j <= m < first_space_from(ks, j) ==> !spec_is_space_token(#[trigger] ks[m]),
        first_space_from(ks, j) < ks.len() ==> spec_is_space_token(ks[first_space_from(ks, j)]),
    decreases ks.len() - j,
{
    if j < ks.len() && !spec_is_space_token(ks[j]) {
        lemma_first_space_from(ks, j + 1);
    }
}

/// Reads the opening line of a verbatim block, given the tokens after its opening backticks:
/// `None` where text that is not space follows the data language on that line (then the
/// block is no verbatim block), else its data language, if it has one.
pub fn verbatim_header(tokens: &Vec<(TokenKind, String)>) -> (r: Option<Option<String>>)
    ensures
        match r {
            None => text_after_lang(kinds_of(tokens@)),
            Some(lang) => !text_after_lang(kinds_of(tokens@)) && match lang {
                Some(l) => spec_data_lang(tokens@) == Some(l@),
                None => spec_data_lang(tokens@) is None,
            },
        },
{
    let ghost ks = kinds_of(tokens@);
    let n = tokens.len();
    let mut lang = String::new();
    let mut i: usize = 0;
    proof {
        lemma_first_space_from(ks, 0);
    }
    while i < n && !is_space_token(tokens[i].0)
        invariant
            n == tokens@.len(),
            ks == kinds_of(tokens@),
            i <= n,
            first_space_from(ks, i as int) == first_space_from(ks, 0),
            lang@ == texts_between(tokens@, 0, i as int),
        decreases n - i,
    {
        lang.append(tokens[i].1.as_str());
        i = i + 1;
    }
    assert(first_space_from(ks, i as int) == i);
    let data_lang = if i == 0 {
        None
    } else {
        Some(lang)
    };
    if i >= n || tokens[i].0 == TokenKind::Newline || tokens[i].0 == TokenKind::Blankline {
        return Some(data_lang);
    }
    let mut j: usize = i + 1;
    while j < n && tokens[j].0 != TokenKind::Newline && tokens[j].0 != TokenKind::Blankline
        invariant
            n == tokens@.len(),
            ks == kinds_of(tokens@),
            i < j <= n,
            first_space_from(ks, 0) == i,
            !is_line_end(ks[i as int]),
            forall|m: int| i < m < j ==> !is_line_end(#[trigger] ks[m]) && spec_is_space_token(ks[m]),
        decreases n - j,
    {
        if !is_space_token(tokens[j].0) {
            assert(!spec_is_space_token(ks[j as int]));
            assert(text_after_lang(ks));
            return None;
        }
        j = j + 1;
    }
    proof {
        if text_after_lang(ks) {
            let w = choose|w: int|
                i < w < ks.len() && !spec_is_space_token(#[trigger] ks[w]) && forall|m: int| i < m < w ==> !is_line_end(ks[m]);
            if w < j {
                assert(spec_is_space_token(ks[w]));
            } else {
                assert(j < n);
                assert(is_line_end(ks[j as int]));
                if w > j {
                    assert(!is_line_end(ks[j as int]));
                } else {
                    assert(is_line_end(ks[w]));
                }
            }
        }
    }
    Some(data_lang)
}

/// Where a verbatim block ends and whether it closed implicitly, given whether its content
/// reached the end of the enclosing input and the start and end of the last token read: an
/// implicitly closed block ends after that token, a closed one at its start (a blank line or
/// what follows the block).
pub fn verbatim_end(end_reached: bool, prev_start: Position, prev_end: Position) -> (r: (bool, Position))
    ensures
        r.0 == !end_reached,
        r.1 == (if !end_reached {
            prev_end
        } else {
            prev_start
        }),
{
    let implicit_closed = !end_reached;
    if implicit_closed {
        (true, prev_end)
    } else {
        (false, prev_start)
    }
}

} // verus!
