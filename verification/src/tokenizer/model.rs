//! The tokenization process as mathematical functions over a tokenization state.
//!
//! Every step of the executable tokenizer is stated here as a function from state to state;
//! the executable functions are proved to compute exactly these functions.
use super::tokens::{Token, kind_str, single_kind_of, token_len, Position, SingleTokenKind, TokenKind, TokenV};
use super::InlineError;
use crate::text::graphemes_of;
use vstd::prelude::*;

verus! {

/// Number of token kinds; the table of open tokens has one slot per kind.
pub const NUM_KINDS: usize = 16;

/// The slot of each token kind in the table of open tokens.
pub open spec fn code(k: TokenKind) -> int {
    match k {
        TokenKind::BoldOpen => 0,
        TokenKind::BoldClose => 1,
        TokenKind::ItalicOpen => 2,
        TokenKind::ItalicClose => 3,
        TokenKind::BoldItalicOpen => 4,
        TokenKind::BoldItalicClose => 5,
        TokenKind::VerbatimOpen => 6,
        TokenKind::VerbatimClose => 7,
        TokenKind::Plain => 8,
        TokenKind::EmojiOpen => 9,
        TokenKind::EscapedGrapheme => 10,
        TokenKind::NewLine => 11,
        TokenKind::Space => 12,
        TokenKind::TextGroupOpen => 13,
        TokenKind::TextGroupClose => 14,
        TokenKind::Eoi => 15,
    }
}

/// The values of a sequence of tokens.
pub open spec fn toks(v: Seq<Token>) -> Seq<TokenV> {
    v.map_values(|t: Token| t@)
}

pub broadcast proof fn lemma_toks_push(v: Seq<Token>, t: Token)
    ensures
        #[trigger] toks(v.push(t)) == toks(v).push(t@),
{
    assert(toks(v.push(t)) =~= toks(v).push(t@));
}

pub broadcast proof fn lemma_toks_drop_last(v: Seq<Token>)
    requires
        v.len() > 0,
    ensures
        #[trigger] toks(v.drop_last()) == toks(v).drop_last(),
{
    assert(toks(v.drop_last()) =~= toks(v).drop_last());
}

pub broadcast proof fn lemma_toks_insert(v: Seq<Token>, i: int, t: Token)
    requires
        0 <= i <= v.len(),
    ensures
        #[trigger] toks(v.insert(i, t)) == toks(v).insert(i, t@),
{
    assert(toks(v.insert(i, t)) =~= toks(v).insert(i, t@));
}

pub broadcast proof fn lemma_toks_remove(v: Seq<Token>, i: int)
    requires
        0 <= i < v.len(),
    ensures
        #[trigger] toks(v.remove(i)) == toks(v).remove(i),
{
    assert(toks(v.remove(i)) =~= toks(v).remove(i));
}

pub broadcast proof fn lemma_toks_update(v: Seq<Token>, i: int, t: Token)
    requires
        0 <= i < v.len(),
    ensures
        #[trigger] toks(v.update(i, t)) == toks(v).update(i, t@),
{
    assert(toks(v.update(i, t)) =~= toks(v).update(i, t@));
}

pub broadcast group group_toks {
    lemma_toks_push,
    lemma_toks_drop_last,
    lemma_toks_insert,
    lemma_toks_remove,
    lemma_toks_update,
}

/// State of a tokenization: the graphemes of the input and how far they are consumed,
/// the tokens so far, the table of open tokens (per kind, the index of the open token),
/// the position of the current token and whether the next grapheme is escaped.
#[verifier::ext_equal]
pub struct TokState {
    pub graphemes: Seq<Seq<char>>,
    pub next: int,
    pub tokens: Seq<TokenV>,
    pub open: Seq<Option<usize>>,
    pub cur: Position,
    pub escape: bool,
}

/// Number of graphemes not yet consumed.
pub open spec fn rem(s: TokState) -> int {
    s.graphemes.len() - s.next
}

/// A table without open tokens.
pub open spec fn no_open() -> Seq<Option<usize>> {
    Seq::new(NUM_KINDS as nat, |i: int| None)
}

pub open spec fn is_open(s: TokState, k: TokenKind) -> bool {
    s.open[code(k)] is Some
}

pub open spec fn open_at(s: TokState, k: TokenKind) -> usize {
    s.open[code(k)]->0
}

pub open spec fn set_open(open: Seq<Option<usize>>, k: TokenKind, v: Option<usize>) -> Seq<
    Option<usize>,
> {
    open.update(code(k), v)
}

pub open spec fn with_tokens(s: TokState, ts: Seq<TokenV>) -> TokState {
    TokState { graphemes: s.graphemes, next: s.next, tokens: ts, open: s.open, cur: s.cur, escape: s.escape }
}

pub open spec fn with_open(s: TokState, o: Seq<Option<usize>>) -> TokState {
    TokState { graphemes: s.graphemes, next: s.next, tokens: s.tokens, open: o, cur: s.cur, escape: s.escape }
}

pub open spec fn with_cur(s: TokState, p: Position) -> TokState {
    TokState { graphemes: s.graphemes, next: s.next, tokens: s.tokens, open: s.open, cur: p, escape: s.escape }
}

pub open spec fn with_escape(s: TokState, e: bool) -> TokState {
    TokState { graphemes: s.graphemes, next: s.next, tokens: s.tokens, open: s.open, cur: s.cur, escape: e }
}

pub open spec fn with_next(s: TokState, n: int) -> TokState {
    TokState { graphemes: s.graphemes, next: n, tokens: s.tokens, open: s.open, cur: s.cur, escape: s.escape }
}

/// Column addition that stops at `usize::MAX`.
pub open spec fn sat_add(a: usize, b: int) -> usize {
    if a + b > usize::MAX {
        usize::MAX
    } else {
        (a + b) as usize
    }
}

pub open spec fn tok(kind: TokenKind, content: Seq<char>, position: Position) -> TokenV {
    TokenV { kind, content, position }
}

pub open spec fn with_kind(t: TokenV, k: TokenKind) -> TokenV {
    TokenV { kind: k, content: t.content, position: t.position }
}

pub open spec fn with_content(t: TokenV, c: Seq<char>) -> TokenV {
    TokenV { kind: t.kind, content: c, position: t.position }
}

/// Appends text to the content of the last token.
pub open spec fn append_last(ts: Seq<TokenV>, c: Seq<char>) -> Seq<TokenV> {
    ts.update(ts.len() - 1, with_content(ts.last(), ts.last().content + c))
}

pub open spec fn push_tok(s: TokState, t: TokenV) -> TokState {
    with_tokens(s, s.tokens.push(t))
}

/// Advances the column by the length of the given token.
pub open spec fn advance(s: TokState, t: TokenV) -> TokState {
    with_cur(s, Position { line: s.cur.line, column: sat_add(s.cur.column, token_len(t) as int) })
}

/// Advances the column past the last token, if there is one.
pub open spec fn bump(s: TokState) -> TokState {
    if s.tokens.len() > 0 {
        advance(s, s.tokens.last())
    } else {
        s
    }
}

/// A plain or space grapheme: extends a last token of the same kind, or starts a new one.
pub open spec fn update_run(s: TokState, g: Seq<char>, kind: TokenKind) -> TokState {
    if s.tokens.len() > 0 {
        if s.tokens.last().kind == kind {
            with_tokens(s, append_last(s.tokens, g))
        } else {
            let s1 = advance(s, s.tokens.last());
            push_tok(s1, tok(kind, g, s1.cur))
        }
    } else {
        push_tok(s, tok(kind, g, s.cur))
    }
}

/// An escaped grapheme becomes a token of its own; the column skips the backslash too.
pub open spec fn update_escaped(s: TokState, g: Seq<char>) -> TokState {
    let s1 = bump(s);
    let s2 = push_tok(s1, tok(TokenKind::EscapedGrapheme, g, s1.cur));
    with_cur(s2, Position { line: s2.cur.line, column: sat_add(s2.cur.column, 1) })
}

/// A newline token, after which the next line starts at column 0.
pub open spec fn update_newline(s: TokState, g: Seq<char>) -> TokState {
    let s1 = bump(s);
    let s2 = push_tok(s1, tok(TokenKind::NewLine, g, s1.cur));
    with_cur(s2, Position { line: sat_add(s2.cur.line, 1), column: 0 })
}

/// A backtick opens verbatim, or closes it when verbatim is open.
pub open spec fn update_accent(s: TokState, g: Seq<char>) -> TokState {
    let s1 = bump(s);
    let kind = if is_open(s1, TokenKind::VerbatimOpen) {
        TokenKind::VerbatimClose
    } else {
        TokenKind::VerbatimOpen
    };
    push_tok(s1, tok(kind, g, s1.cur))
}

/// A `]` closes an open text group, else it is plain text.
pub open spec fn try_closing_text_group(s: TokState, g: Seq<char>) -> TokState {
    if is_open(s, TokenKind::TextGroupOpen) {
        let s1 = bump(with_open(s, set_open(s.open, TokenKind::TextGroupOpen, None)));
        push_tok(s1, tok(TokenKind::TextGroupClose, g, s1.cur))
    } else if s.tokens.len() > 0 {
        let s1 = advance(s, s.tokens.last());
        if s1.tokens.last().kind == TokenKind::Plain {
            with_tokens(s1, append_last(s1.tokens, g))
        } else {
            push_tok(s1, tok(TokenKind::Plain, g, s1.cur))
        }
    } else {
        s
    }
}

/// Turns the token at `index` into plain text, merged with plain neighbours.
pub open spec fn plain_merge(ts: Seq<TokenV>, index: int) -> Seq<TokenV> {
    if index < 0 || index >= ts.len() {
        ts
    } else {
        let token = with_kind(ts[index], TokenKind::Plain);
        let ts1 = ts.remove(index);
        let merged_next = index < ts1.len() && ts1[index].kind == TokenKind::Plain;
        let token2 = if merged_next {
            with_content(token, token.content + ts1[index].content)
        } else {
            token
        };
        let ts2 = if merged_next {
            ts1.remove(index)
        } else {
            ts1
        };
        if index > 0 && ts2[index - 1].kind == TokenKind::Plain {
            ts2.update(index - 1, with_content(ts2[index - 1], ts2[index - 1].content + token2.content))
        } else {
            ts2.insert(index, token2)
        }
    }
}

/// Among the slots `0..n`, the one holding the largest index not below `lower`
/// (the first such slot on a tie).
pub open spec fn best_slot(open: Seq<Option<usize>>, lower: usize, n: int) -> Option<int>
    decreases n,
{
    if n <= 0 {
        None
    } else {
        let b = best_slot(open, lower, n - 1);
        match open[n - 1] {
            Some(v) => {
                if v >= lower {
                    match b {
                        Some(j) => {
                            if open[j]->0 >= v {
                                Some(j)
                            } else {
                                Some(n - 1)
                            }
                        },
                        None => Some(n - 1),
                    }
                } else {
                    b
                }
            },
            None => b,
        }
    }
}

pub proof fn lemma_best_slot(open: Seq<Option<usize>>, lower: usize, n: int)
    requires
        n <= open.len(),
    ensures
        best_slot(open, lower, n) matches Some(j) ==> 0 <= j < n && open[j] is Some && open[j]->0 >= lower,
    decreases n,
{
    if n > 0 {
        lemma_best_slot(open, lower, n - 1);
    }
}

/// Turns every open token at an index not below `lower` into plain text,
/// from the largest index down.
pub open spec fn merge_from(ts: Seq<TokenV>, open: Seq<Option<usize>>, lower: usize, fuel: nat) -> Seq<
    TokenV,
>
    decreases fuel,
{
    if fuel == 0 {
        ts
    } else {
        match best_slot(open, lower, open.len() as int) {
            Some(j) => merge_from(plain_merge(ts, open[j]->0 as int), open.update(j, None), lower, (fuel - 1) as nat),
            None => ts,
        }
    }
}

/// Removes all remaining open tokens by turning them into plain text.
#[verifier::opaque]
pub open spec fn cleanup(s: TokState) -> TokState {
    with_tokens(s, merge_from(s.tokens, s.open, 0, NUM_KINDS as nat))
}

/// Registers the last token in the table of open tokens, if it is an open token;
/// an open token that may not open (before a space, or a second one of its kind) becomes plain.
#[verifier::opaque]
pub open spec fn update_open_map(s: TokState, next_is_space: bool) -> TokState {
    if s.tokens.len() == 0 {
        s
    } else {
        let prev = s.tokens.last();
        let ts = s.tokens.drop_last();
        let k = prev.kind;
        let vacant = s.open[code(k)] is None;
        let formatting = k == TokenKind::BoldOpen || k == TokenKind::ItalicOpen || k
            == TokenKind::BoldItalicOpen || k == TokenKind::EmojiOpen;
        let enclosing = k == TokenKind::VerbatimOpen || k == TokenKind::TextGroupOpen;
        let registers = vacant && ((formatting && !next_is_space) || enclosing);
        let pk = if !vacant || (formatting && next_is_space) {
            TokenKind::Plain
        } else {
            k
        };
        let open = if registers {
            set_open(s.open, k, Some(ts.len() as usize))
        } else {
            s.open
        };
        let ts2 = if ts.len() > 0 && ts.last().kind == TokenKind::Plain && pk == TokenKind::Plain {
            append_last(ts, prev.content)
        } else {
            ts.push(with_kind(prev, pk))
        };
        with_open(with_tokens(s, ts2), open)
    }
}

/// The table after a closing token: entries below the open index stay, all others are
/// replaced by `upd`.
pub open spec fn keep_below(open: Seq<Option<usize>>, open_index: usize, upd: Seq<Option<usize>>) -> Seq<
    Option<usize>,
> {
    Seq::new(
        open.len(),
        |i: int|
            if open[i] is Some && open[i]->0 < open_index {
                open[i]
            } else {
                upd[i]
            },
    )
}

/// Completes a closing token: pushes it back, turns dangling open tokens after the matching
/// open token into plain text, and keeps only the open tokens before it.
pub open spec fn finish_close(
    s: TokState,
    ts: Seq<TokenV>,
    last: TokenV,
    open: Seq<Option<usize>>,
    open_index: usize,
    upd: Seq<Option<usize>>,
) -> TokState {
    with_open(
        with_tokens(s, merge_from(ts.push(last), open, open_index, NUM_KINDS as nat)),
        keep_below(open, open_index, upd),
    )
}

/// Splits an ambiguous `***` open token at `idx` after one of its halves was closed:
/// the token becomes `outer` and `inner` is inserted right after it.
pub open spec fn split_open(ts: Seq<TokenV>, idx: int, outer: TokenKind, inner: TokenKind) -> Seq<
    TokenV,
> {
    let ot = ts[idx];
    let ot2 = tok(outer, kind_str(outer), ot.position);
    let np = Position { line: ot2.position.line, column: sat_add(ot2.position.column, token_len(ot2) as int) };
    ts.update(idx, ot2).insert(idx + 1, tok(inner, kind_str(inner), np))
}

/// Closes the formatting that the last (now fixed) token closes.
#[verifier::opaque]
pub open spec fn try_closing_fixated(s: TokState, next_is_space: bool) -> TokState {
    if s.tokens.len() == 0 {
        s
    } else {
        let last = s.tokens.last();
        let ts = s.tokens.drop_last();
        let bio = TokenKind::BoldItalicOpen;
        match last.kind {
            TokenKind::BoldClose => {
                if is_open(s, TokenKind::BoldOpen) {
                    finish_close(s, ts, last, set_open(s.open, TokenKind::BoldOpen, None), open_at(s, TokenKind::BoldOpen), no_open())
                } else if is_open(s, bio) && (open_at(s, bio) as int) < ts.len() {
                    let idx = open_at(s, bio);
                    finish_close(
                        s,
                        split_open(ts, idx as int, TokenKind::ItalicOpen, TokenKind::BoldOpen),
                        last,
                        set_open(s.open, bio, None),
                        idx,
                        set_open(no_open(), TokenKind::ItalicOpen, Some(idx)),
                    )
                } else {
                    s
                }
            },
            TokenKind::ItalicClose => {
                if is_open(s, TokenKind::ItalicOpen) {
                    finish_close(s, ts, last, set_open(s.open, TokenKind::ItalicOpen, None), open_at(s, TokenKind::ItalicOpen), no_open())
                } else if is_open(s, bio) {
                    let idx = open_at(s, bio);
                    if (idx as int) < ts.len() {
                        finish_close(
                            s,
                            split_open(ts, idx as int, TokenKind::BoldOpen, TokenKind::ItalicOpen),
                            last,
                            set_open(s.open, bio, None),
                            idx,
                            set_open(no_open(), TokenKind::BoldOpen, Some(idx)),
                        )
                    } else {
                        s
                    }
                } else if next_is_space {
                    if ts.len() > 0 && ts.last().kind == TokenKind::Plain {
                        with_tokens(s, append_last(ts, last.content))
                    } else {
                        with_tokens(s, ts.push(with_kind(last, TokenKind::Plain)))
                    }
                } else {
                    with_open(
                        with_tokens(s, ts.push(with_kind(last, TokenKind::ItalicOpen))),
                        set_open(s.open, TokenKind::ItalicOpen, Some(ts.len() as usize)),
                    )
                }
            },
            TokenKind::BoldItalicClose => {
                if is_open(s, bio) {
                    finish_close(s, ts, last, set_open(s.open, bio, None), open_at(s, bio), no_open())
                } else if is_open(s, TokenKind::BoldOpen) && is_open(s, TokenKind::ItalicOpen) {
                    let b = open_at(s, TokenKind::BoldOpen);
                    let i = open_at(s, TokenKind::ItalicOpen);
                    let m = if b < i {
                        b
                    } else {
                        i
                    };
                    finish_close(
                        s,
                        ts,
                        last,
                        set_open(set_open(s.open, TokenKind::BoldOpen, None), TokenKind::ItalicOpen, None),
                        m,
                        no_open(),
                    )
                } else {
                    s
                }
            },
            TokenKind::VerbatimClose => {
                if is_open(s, TokenKind::VerbatimOpen) {
                    finish_close(s, ts, last, set_open(s.open, TokenKind::VerbatimOpen, None), open_at(s, TokenKind::VerbatimOpen), no_open())
                } else {
                    s
                }
            },
            _ => s,
        }
    }
}


/// Whether the token just before the current one is a space or newline.
pub open spec fn preceded_by_space(s: TokState) -> bool {
    s.tokens.len() > 0 && s.tokens.last().kind.spec_is_space_or_newline()
}

/// `*` after `*`: the pair becomes bold (open, or close when bold is open).
pub open spec fn asterisk_after_italic_open(s0: TokState, last: TokenV, g: Seq<char>) -> TokState {
    let k = if is_open(s0, TokenKind::BoldOpen) {
        if preceded_by_space(s0) {
            TokenKind::Plain
        } else {
            TokenKind::BoldClose
        }
    } else {
        TokenKind::BoldOpen
    };
    push_tok(s0, tok(k, last.content + g, last.position))
}

/// `*` after `**`.
pub open spec fn asterisk_after_bold_open(s0: TokState, last: TokenV, g: Seq<char>) -> TokState {
    if is_open(s0, TokenKind::ItalicOpen) {
        if preceded_by_space(s0) {
            let l1 = tok(TokenKind::Plain, kind_str(TokenKind::ItalicOpen), last.position);
            let s1 = push_tok(advance(s0, l1), l1);
            let ic = tok(TokenKind::ItalicClose, kind_str(TokenKind::ItalicClose), s1.cur);
            let s2 = push_tok(advance(s1, ic), ic);
            push_tok(s2, tok(TokenKind::ItalicOpen, kind_str(TokenKind::ItalicClose), s2.cur))
        } else {
            let l1 = tok(TokenKind::ItalicClose, kind_str(TokenKind::ItalicClose), last.position);
            let s1 = push_tok(advance(s0, l1), l1);
            push_tok(s1, tok(TokenKind::BoldOpen, kind_str(TokenKind::BoldOpen), s1.cur))
        }
    } else {
        push_tok(s0, tok(TokenKind::BoldItalicOpen, last.content + g, last.position))
    }
}

/// `*` after `***`: the leftmost `*` becomes plain, the other three close or open.
pub open spec fn asterisk_after_bold_italic_open(s0: TokState, last: TokenV) -> TokState {
    let l1 = tok(TokenKind::Plain, kind_str(TokenKind::ItalicOpen), last.position);
    let s1 = advance(s0, l1);
    if (is_open(s1, TokenKind::ItalicOpen) && is_open(s1, TokenKind::BoldOpen)) || is_open(
        s1,
        TokenKind::BoldItalicOpen,
    ) {
        push_tok(
            push_tok(s1, l1),
            tok(TokenKind::BoldItalicClose, kind_str(TokenKind::BoldItalicClose), s1.cur),
        )
    } else if is_open(s1, TokenKind::ItalicOpen) {
        push_tok(
            push_tok(
                push_tok(s1, l1),
                tok(TokenKind::ItalicClose, kind_str(TokenKind::ItalicClose), s1.cur),
            ),
            tok(TokenKind::BoldOpen, kind_str(TokenKind::BoldOpen), s1.cur),
        )
    } else if is_open(s1, TokenKind::BoldOpen) {
        let s2 = push_tok(s1, l1);
        let bc = tok(TokenKind::BoldClose, kind_str(TokenKind::BoldClose), s2.cur);
        let s3 = push_tok(advance(s2, bc), bc);
        push_tok(s3, tok(TokenKind::ItalicOpen, kind_str(TokenKind::ItalicOpen), s3.cur))
    } else {
        let s2 = if s1.tokens.len() > 0 && s1.tokens.last().kind == TokenKind::Plain {
            with_tokens(s1, append_last(s1.tokens, l1.content))
        } else {
            push_tok(s1, l1)
        };
        push_tok(s2, tok(TokenKind::BoldItalicOpen, kind_str(TokenKind::BoldItalicOpen), s2.cur))
    }
}

/// `*` after a closing `*`: it becomes bold.
pub open spec fn asterisk_after_italic_close(s0: TokState, last: TokenV, g: Seq<char>) -> TokState {
    let k = if is_open(s0, TokenKind::BoldItalicOpen) || is_open(s0, TokenKind::BoldOpen) {
        TokenKind::BoldClose
    } else {
        TokenKind::BoldOpen
    };
    push_tok(s0, tok(k, last.content + g, last.position))
}

/// `*` after a closing `**`.
pub open spec fn asterisk_after_bold_close(s0: TokState, last: TokenV, g: Seq<char>) -> TokState {
    if is_open(s0, TokenKind::BoldItalicOpen) {
        push_tok(s0, tok(TokenKind::BoldItalicClose, last.content + g, last.position))
    } else if is_open(s0, TokenKind::ItalicOpen) {
        let ii = open_at(s0, TokenKind::ItalicOpen);
        let bi = if is_open(s0, TokenKind::BoldOpen) {
            open_at(s0, TokenKind::BoldOpen)
        } else {
            0
        };
        if ii < bi {
            let l1 = tok(TokenKind::BoldClose, kind_str(TokenKind::BoldClose), last.position);
            let s1 = push_tok(advance(s0, l1), l1);
            push_tok(s1, tok(TokenKind::ItalicClose, kind_str(TokenKind::ItalicClose), s1.cur))
        } else {
            let l1 = tok(TokenKind::ItalicClose, kind_str(TokenKind::ItalicClose), last.position);
            let s1 = push_tok(advance(s0, l1), l1);
            push_tok(s1, tok(TokenKind::BoldClose, kind_str(TokenKind::BoldClose), s1.cur))
        }
    } else {
        let s1 = push_tok(advance(s0, last), last);
        push_tok(s1, tok(TokenKind::ItalicOpen, g, s1.cur))
    }
}

/// `*` after any other token: opens italic, or closes it when a formatting is open
/// and no space precedes.
pub open spec fn asterisk_after_other(s0: TokState, last: TokenV, g: Seq<char>) -> TokState {
    let s1 = advance(s0, last);
    let k = if is_open(s1, TokenKind::ItalicOpen) || is_open(s1, TokenKind::BoldOpen) || is_open(
        s1,
        TokenKind::BoldItalicOpen,
    ) {
        if last.kind.spec_is_space_or_newline() {
            TokenKind::ItalicOpen
        } else {
            TokenKind::ItalicClose
        }
    } else {
        TokenKind::ItalicOpen
    };
    push_tok(push_tok(s1, last), tok(k, g, s1.cur))
}

/// Handles bold, italic and any combination of them.
#[verifier::opaque]
pub open spec fn update_asterisk(s: TokState, g: Seq<char>) -> TokState {
    if s.tokens.len() == 0 {
        push_tok(s, tok(TokenKind::ItalicOpen, g, s.cur))
    } else {
        let last = s.tokens.last();
        let s0 = with_tokens(s, s.tokens.drop_last());
        if last.kind == TokenKind::ItalicOpen {
            asterisk_after_italic_open(s0, last, g)
        } else if last.kind == TokenKind::BoldOpen {
            asterisk_after_bold_open(s0, last, g)
        } else if last.kind == TokenKind::BoldItalicOpen {
            asterisk_after_bold_italic_open(s0, last)
        } else if last.kind == TokenKind::ItalicClose {
            asterisk_after_italic_close(s0, last, g)
        } else if last.kind == TokenKind::BoldClose {
            asterisk_after_bold_close(s0, last, g)
        } else if last.kind == TokenKind::BoldItalicClose {
            let s1 = push_tok(advance(s0, last), last);
            push_tok(s1, tok(TokenKind::ItalicOpen, g, s1.cur))
        } else {
            asterisk_after_other(s0, last, g)
        }
    }
}

/// Fixes the last token once a new token was added: registers or closes what it opens or closes.
pub open spec fn fixate(s2: TokState, prev_len: int) -> TokState {
    if s2.tokens.len() != prev_len && s2.tokens.len() > 0 {
        let last = s2.tokens.last();
        let s3 = with_tokens(s2, s2.tokens.drop_last());
        let sp = last.kind.spec_is_space_or_newline();
        let s4 = if last.kind != TokenKind::TextGroupClose {
            try_closing_fixated(update_open_map(s3, sp), sp)
        } else {
            s3
        };
        push_tok(s4, last)
    } else {
        s2
    }
}

/// Handles one grapheme.
pub open spec fn update_tokens(s: TokState, g: Seq<char>) -> Result<TokState, InlineError>
    decreases 3 * rem(s) + 4,
{
    if rem(s) < 0 {
        Ok(s)
    } else if s.escape {
        Ok(with_escape(update_escaped(s, g), false))
    } else {
        match single_kind_of(g) {
            SingleTokenKind::Plain => Ok(update_run(s, g, TokenKind::Plain)),
            SingleTokenKind::Newline => Ok(update_newline(s, g)),
            SingleTokenKind::Space => Ok(update_run(s, g, TokenKind::Space)),
            SingleTokenKind::Backslash => Ok(with_escape(s, true)),
            SingleTokenKind::Asterisk => Ok(update_asterisk(s, g)),
            SingleTokenKind::Accent => Ok(update_accent(s, g)),
            SingleTokenKind::LeftSquareBracket => open_text_group(s, g),
            SingleTokenKind::RightSquareBracket => Ok(try_closing_text_group(s, g)),
        }
    }
}

/// A `[` opens a text group, which is tokenized up to its closing `]` with no formatting
/// crossing its borders.
pub open spec fn open_text_group(s: TokState, g: Seq<char>) -> Result<TokState, InlineError>
    decreases 3 * rem(s) + 3,
{
    if rem(s) < 0 {
        Ok(s)
    } else {
        let s3 = try_closing_fixated(update_open_map(bump(s), false), false);
        let outer = s3.open;
        let s5 = TokState {
            graphemes: s.graphemes,
            next: s.next,
            tokens: s3.tokens.push(tok(TokenKind::TextGroupOpen, g, s3.cur)),
            open: no_open(),
            cur: s3.cur,
            escape: s3.escape,
        };
        match until(s5, TokenKind::TextGroupClose, s5.tokens.len() as int) {
            Err(e) => Err(e),
            Ok(r) => {
                if r.tokens.len() == 0 {
                    Ok(with_open(r, outer))
                } else {
                    let closing = r.tokens.last();
                    let r3 = cleanup(try_closing_fixated(with_tokens(r, r.tokens.drop_last()), true));
                    Ok(with_open(push_tok(r3, closing), outer))
                }
            },
        }
    }
}

/// Tokenizes graphemes until a token of the given kind was fixed, or the input ends.
/// A scope that must close (any kind but `Eoi`) and did not is an error.
pub open spec fn until(s: TokState, kind: TokenKind, prev_len: int) -> Result<TokState, InlineError>
    decreases 3 * rem(s) + 2,
{
    if s.next < 0 || s.next >= s.graphemes.len() {
        if s.tokens.len() > 0 && kind != TokenKind::Eoi && s.tokens.last().kind != kind {
            Err(InlineError::ClosingViolation)
        } else {
            Ok(s)
        }
    } else {
        let g = s.graphemes[s.next];
        let s1 = with_next(s, s.next + 1);
        match update_tokens(s1, g) {
            Err(e) => Err(e),
            Ok(s2) => {
                let s5 = fixate(s2, prev_len);
                if s2.tokens.len() != prev_len && s2.tokens.len() > 0 && s2.tokens.last().kind == kind {
                    Ok(s5)
                } else if 0 <= rem(s5) < rem(s) {
                    until(s5, kind, s5.tokens.len() as int)
                } else {
                    Ok(s5)
                }
            },
        }
    }
}

/// The state before tokenizing `input` with the first token at `offset`.
pub open spec fn initial(input: Seq<char>, offset: Position) -> TokState {
    TokState { graphemes: graphemes_of(input), next: 0, tokens: Seq::empty(), open: no_open(), cur: offset, escape: false }
}

/// The tokens of `input` when the first token starts at `offset`, or the violated constraint.
pub open spec fn spec_tokenize(input: Seq<char>, offset: Position) -> Result<Seq<TokenV>, InlineError> {
    match until(initial(input, offset), TokenKind::Eoi, 0) {
        Err(e) => Err(e),
        Ok(s) => Ok(cleanup(try_closing_fixated(update_open_map(s, true), true)).tokens),
    }
}

} // verus!
