//! The executable tokenization state and its elementary steps.
use super::model;
use super::model::{toks, TokState, NUM_KINDS};
use super::tokens::{Token, TokenKind};
use crate::text::{flatten, graphemes_of, plain_ascii, split_graphemes};
use std::collections::HashMap;
use vstd::prelude::*;
use vstd::string::StringExecFns;

verus! {

broadcast use {model::group_toks, vstd::std_specs::hash::group_hash_axioms};

/// Internal structure to keep track of the tokenization process.
pub struct Tokenized {
    /// Graphemes of the input.
    pub graphemes: Vec<String>,
    /// Index of the next grapheme to handle.
    pub next: usize,
    /// List of tokens that were tokenized so far.
    pub tokens: Vec<Token>,
    /// Per token kind (by its slot), the index of the open token of that kind that was not yet
    /// closed.
    pub open_tokens: HashMap<usize, usize>,
    /// The position inside the input of the current token being tokenized.
    pub cur_pos: super::tokens::Position,
    /// Flag indicating that a grapheme must be escaped.
    pub escape_active: bool,
}

impl View for Tokenized {
    type V = TokState;

    open spec fn view(&self) -> TokState {
        TokState {
            graphemes: self.graphemes@.map_values(|g: String| g@),
            next: self.next as int,
            tokens: toks(self.tokens@),
            open: table_of(self.open_tokens@),
            cur: self.cur_pos,
            escape: self.escape_active,
        }
    }
}

impl Tokenized {
    pub open spec fn wf(&self) -> bool {
        &&& self.next <= self.graphemes@.len()
    }

    /// The state before tokenizing `content` with the first token at `offset`.
    pub fn new(content: &str, offset: super::tokens::Position) -> (r: Self)
        ensures
            r.wf(),
            r@ == model::initial(content@, offset),
            flatten(graphemes_of(content@)) == content@,
            forall|i: int| 0 <= i < graphemes_of(content@).len() ==> #[trigger] graphemes_of(content@)[i].len() > 0,
            plain_ascii(content@) ==> graphemes_of(content@) == content@.map_values(|c: char| seq![c]),
    {
        let graphemes = split_graphemes(content);
        let open_tokens = no_open_map();
        let r = Tokenized {
            graphemes,
            next: 0,
            tokens: Vec::new(),
            open_tokens,
            cur_pos: offset,
            escape_active: false,
        };
        assert(r@.tokens =~= Seq::<super::tokens::TokenV>::empty());
        assert forall|i: int| 0 <= i < graphemes_of(content@).len() implies #[trigger] graphemes_of(content@)[i].len() > 0 by {
            assert(graphemes_of(content@)[i] == r.graphemes@[i]@);
        }
        r
    }
}

/// The table of open tokens that a map from slots to token indices gives.
pub open spec fn table_of(m: Map<usize, usize>) -> Seq<Option<usize>> {
    Seq::new(
        NUM_KINDS as nat,
        |i: int|
            if m.contains_key(i as usize) {
                Some(m[i as usize])
            } else {
                None
            },
    )
}

/// A map without open tokens.
pub fn no_open_map() -> (r: HashMap<usize, usize>)
    ensures
        table_of(r@) == model::no_open(),
{
    let r: HashMap<usize, usize> = HashMap::new();
    assert(table_of(r@) =~= model::no_open());
    r
}

/// The table of open tokens that a map holds.
pub fn table(m: &HashMap<usize, usize>) -> (r: Vec<Option<usize>>)
    ensures
        r@ == table_of(m@),
        r@.len() == NUM_KINDS,
{
    let mut v: Vec<Option<usize>> = Vec::new();
    let mut i: usize = 0;
    while i < NUM_KINDS
        invariant
            i <= NUM_KINDS,
            v@.len() == i,
            forall|j: int| 0 <= j < i ==> #[trigger] v@[j] == table_of(m@)[j],
        decreases NUM_KINDS - i,
    {
        let e = match m.get(&i) {
            Some(x) => Some(*x),
            None => None,
        };
        v.push(e);
        i = i + 1;
    }
    assert(v@ =~= table_of(m@));
    v
}

/// A map that holds a table of open tokens.
pub fn map_of(t: &Vec<Option<usize>>) -> (r: HashMap<usize, usize>)
    requires
        t@.len() == NUM_KINDS,
    ensures
        table_of(r@) == t@,
{
    let mut m: HashMap<usize, usize> = HashMap::new();
    let mut i: usize = 0;
    while i < NUM_KINDS
        invariant
            t@.len() == NUM_KINDS,
            i <= NUM_KINDS,
            forall|j: usize| #[trigger] m@.contains_key(j) ==> j < i,
            forall|j: int| 0 <= j < i ==> #[trigger] table_of(m@)[j] == t@[j],
        decreases NUM_KINDS - i,
    {
        let ghost before = m@;
        assert(!before.contains_key(i));
        if let Some(x) = t[i] {
            m.insert(i, x);
        }
        assert forall|j: int| 0 <= j <= i implies #[trigger] table_of(m@)[j] == t@[j] by {
            if j < i {
                assert(table_of(before)[j] == t@[j]);
                assert(m@.contains_key(j as usize) == before.contains_key(j as usize));
            }
        }
        i = i + 1;
    }
    assert(table_of(m@) =~= t@);
    m
}

/// A table without open tokens.
pub fn no_open_tokens() -> (r: Vec<Option<usize>>)
    ensures
        r@ == model::no_open(),
{
    let mut v: Vec<Option<usize>> = Vec::new();
    let mut i: usize = 0;
    while i < NUM_KINDS
        invariant
            i <= NUM_KINDS,
            v@.len() == i,
            forall|j: int| 0 <= j < i ==> v@[j] is None,
        decreases NUM_KINDS - i,
    {
        v.push(None);
        i = i + 1;
    }
    assert(v@ =~= model::no_open());
    v
}

/// The slot of a token kind in the table of open tokens.
pub fn slot(k: TokenKind) -> (r: usize)
    ensures
        r == model::code(k),
        r < NUM_KINDS,
{
    match k {
        TokenKind::BoldOpen => 0,
        TokenKind::BoldClose => 1,
        TokenKind::ItalicOpen => 2,
        TokenKind::ItalicClose => 3,
        TokenKind::BoldItalicOpen => 4,
        TokenKind::BoldItalicClose => 5,
        TokenKind::VerbatimOpen => 6,
        TokenKind::VerbatimClose => 7,
        TokenKind::Plain => 8,
        TokenKind::EmojiOpen => 9,
        TokenKind::EscapedGrapheme => 10,
        TokenKind::NewLine => 11,
        TokenKind::Space => 12,
        TokenKind::TextGroupOpen => 13,
        TokenKind::TextGroupClose => 14,
        TokenKind::Eoi => 15,
    }
}

/// Creates a token whose content is a copy of `content`.
pub fn new_token(kind: TokenKind, content: &str, position: super::tokens::Position) -> (r: Token)
    ensures
        r@ == model::tok(kind, content@, position),
{
    Token { kind, content: content.to_owned(), position }
}

/// Creates a token whose content is the string representation of `shape`.
pub fn keyword_token(kind: TokenKind, shape: TokenKind, position: super::tokens::Position) -> (r: Token)
    ensures
        r@ == model::tok(kind, super::tokens::kind_str(shape), position),
{
    new_token(kind, shape.as_str(), position)
}

impl Tokenized {
    /// The open token index of a kind, if one is open.
    pub fn open_index(&self, k: TokenKind) -> (r: Option<usize>)
        requires
            self.wf(),
        ensures
            r == self@.open[model::code(k)],
    {
        match self.open_tokens.get(&slot(k)) {
            Some(x) => Some(*x),
            None => None,
        }
    }

    pub fn is_open(&self, k: TokenKind) -> (r: bool)
        requires
            self.wf(),
        ensures
            r == model::is_open(self@, k),
    {
        self.open_tokens.contains_key(&slot(k))
    }

    pub fn set_open(&mut self, k: TokenKind, v: Option<usize>)
        requires
            old(self).wf(),
        ensures
            final(self).wf(),
            final(self)@ == model::with_open(old(self)@, model::set_open(old(self)@.open, k, v)),
    {
        let c = slot(k);
        match v {
            Some(x) => {
                self.open_tokens.insert(c, x);
            },
            None => {
                self.open_tokens.remove(&c);
            },
        }
        assert(table_of(self.open_tokens@) =~= model::set_open(table_of(old(self).open_tokens@), k, v));
    }

    /// Advances the column by the length of `t`.
    pub fn advance(&mut self, t: &Token)
        ensures
            final(self)@ == model::advance(old(self)@, t@),
            final(self).wf() == old(self).wf(),
    {
        let l = t.length();
        self.cur_pos.column = self.cur_pos.column.saturating_add(l);
    }

    /// Advances the column past the last token, if there is one.
    pub fn bump(&mut self)
        ensures
            final(self)@ == model::bump(old(self)@),
            final(self).wf() == old(self).wf(),
    {
        let n = self.tokens.len();
        if n > 0 {
            let l = self.tokens[n - 1].length();
            self.cur_pos.column = self.cur_pos.column.saturating_add(l);
        }
    }

    pub fn push_token(&mut self, t: Token)
        ensures
            final(self)@ == model::push_tok(old(self)@, t@),
            final(self).wf() == old(self).wf(),
    {
        self.tokens.push(t);
    }

    /// Appends text to the content of the last token.
    pub fn append_last(&mut self, c: &str)
        requires
            old(self).tokens@.len() > 0,
        ensures
            final(self)@ == model::with_tokens(old(self)@, model::append_last(old(self)@.tokens, c@)),
            final(self).wf() == old(self).wf(),
    {
        let mut last = self.tokens.pop().unwrap();
        last.content.append(c);
        self.tokens.push(last);
        assert(self@.tokens =~= model::append_last(old(self)@.tokens, c@));
    }

    /// Removes and returns the last token.
    pub fn pop_token(&mut self) -> (r: Option<Token>)
        ensures
            old(self)@.tokens.len() == 0 ==> r is None && final(self)@ == old(self)@,
            old(self)@.tokens.len() > 0 ==> r is Some && r->0@ == old(self)@.tokens.last()
                && final(self)@ == model::with_tokens(old(self)@, old(self)@.tokens.drop_last()),
            final(self).wf() == old(self).wf(),
    {
        let r = self.tokens.pop();
        proof {
            if old(self)@.tokens.len() == 0 {
                assert(self@ =~= old(self)@);
            }
        }
        r
    }

    /// Whether the last token is of the given kind.
    pub fn last_is(&self, k: TokenKind) -> (r: bool)
        ensures
            r == (self@.tokens.len() > 0 && self@.tokens.last().kind == k),
    {
        let n = self.tokens.len();
        n > 0 && self.tokens[n - 1].kind == k
    }

    /// Whether the last token is a space or newline.
    pub fn preceded_by_space(&self) -> (r: bool)
        ensures
            r == model::preceded_by_space(self@),
    {
        let n = self.tokens.len();
        n > 0 && self.tokens[n - 1].is_space_or_newline()
    }
}

} // verus!
