//! The inputs on which tokenization gets stuck: a closing token is fixed while the table of
//! open tokens holds nothing it could close, or an asterisk finds a closing bold with an open
//! italic but no open bold. Tokenization is not defined on them.
use super::model::{
    bump, initial, is_open, no_open, open_at, rem, tok, until, update_open_map, update_tokens,
    with_next, with_tokens, TokState,
};
use super::state::Tokenized;
use super::tokens::{single_kind_of, Position, SingleTokenKind, TokenKind};
use vstd::prelude::*;

verus! {

/// Whether closing the last token of `s` finds nothing to close that it needs.
pub open spec fn closing_stuck(s: TokState) -> bool {
    if s.tokens.len() == 0 {
        false
    } else {
        let last = s.tokens.last();
        let ts_len = s.tokens.len() - 1;
        let bio = TokenKind::BoldItalicOpen;
        match last.kind {
            TokenKind::BoldClose => !is_open(s, TokenKind::BoldOpen) && !(is_open(s, bio) && (open_at(s, bio) as int) < ts_len),
            TokenKind::ItalicClose => !is_open(s, TokenKind::ItalicOpen) && is_open(s, bio) && (open_at(s, bio) as int) >= ts_len,
            TokenKind::BoldItalicClose => !is_open(s, bio) && !(is_open(s, TokenKind::BoldOpen) && is_open(
                s,
                TokenKind::ItalicOpen,
            )),
            TokenKind::VerbatimClose => !is_open(s, TokenKind::VerbatimOpen),
            _ => false,
        }
    }
}

/// Whether an asterisk after the last token of `s` gets stuck: after a closing bold with an
/// open italic but no open bold or bold-italic, or after an opening bold (italic) with an open
/// italic (bold) but no token before it.
pub open spec fn asterisk_stuck(s: TokState) -> bool {
    if s.tokens.len() == 0 {
        false
    } else {
        let last = s.tokens.last();
        let s0 = with_tokens(s, s.tokens.drop_last());
        ||| (last.kind == TokenKind::BoldClose && !is_open(s0, TokenKind::BoldItalicOpen) && is_open(
            s0,
            TokenKind::ItalicOpen,
        ) && !is_open(s0, TokenKind::BoldOpen))
        ||| (last.kind == TokenKind::BoldOpen && is_open(s0, TokenKind::ItalicOpen) && s0.tokens.len()
            == 0)
        ||| (last.kind == TokenKind::ItalicOpen && is_open(s0, TokenKind::BoldOpen) && s0.tokens.len()
            == 0)
    }
}

/// Whether fixing the token before the newest one gets stuck.
pub open spec fn fixate_stuck(s2: TokState, prev_len: int) -> bool {
    if s2.tokens.len() != prev_len && s2.tokens.len() > 0 {
        let last = s2.tokens.last();
        let s3 = with_tokens(s2, s2.tokens.drop_last());
        let sp = last.kind.spec_is_space_or_newline();
        last.kind != TokenKind::TextGroupClose && closing_stuck(update_open_map(s3, sp))
    } else {
        false
    }
}

/// Whether reading one grapheme gets stuck.
pub open spec fn update_stuck(s: TokState, g: Seq<char>) -> bool
    decreases 3 * rem(s) + 4,
{
    if rem(s) < 0 || s.escape {
        false
    } else {
        match single_kind_of(g) {
            SingleTokenKind::Asterisk => asterisk_stuck(s),
            SingleTokenKind::LeftSquareBracket => group_stuck(s, g),
            _ => false,
        }
    }
}

/// Whether reading a text group gets stuck.
pub open spec fn group_stuck(s: TokState, g: Seq<char>) -> bool
    decreases 3 * rem(s) + 3,
{
    if rem(s) < 0 {
        false
    } else {
        let s2 = update_open_map(bump(s), false);
        let s3 = super::model::try_closing_fixated(s2, false);
        let s5 = TokState {
            graphemes: s.graphemes,
            next: s.next,
            tokens: s3.tokens.push(tok(TokenKind::TextGroupOpen, g, s3.cur)),
            open: no_open(),
            cur: s3.cur,
            escape: s3.escape,
        };
        ||| closing_stuck(s2)
        ||| until_stuck(s5, TokenKind::TextGroupClose, s5.tokens.len() as int)
        ||| match until(s5, TokenKind::TextGroupClose, s5.tokens.len() as int) {
            Ok(r) => r.tokens.len() > 0 && closing_stuck(with_tokens(r, r.tokens.drop_last())),
            Err(_) => false,
        }
    }
}

/// Whether tokenizing up to a token of the given kind gets stuck.
pub open spec fn until_stuck(s: TokState, kind: TokenKind, prev_len: int) -> bool
    decreases 3 * rem(s) + 2,
{
    if s.next < 0 || s.next >= s.graphemes.len() {
        false
    } else {
        let g = s.graphemes[s.next];
        let s1 = with_next(s, s.next + 1);
        ||| update_stuck(s1, g)
        ||| match update_tokens(s1, g) {
            Err(_) => false,
            Ok(s2) => {
                let s5 = super::model::fixate(s2, prev_len);
                ||| fixate_stuck(s2, prev_len)
                ||| (!(s2.tokens.len() != prev_len && s2.tokens.len() > 0 && s2.tokens.last().kind == kind)
                    && 0 <= rem(s5) < rem(s) && until_stuck(s5, kind, s5.tokens.len() as int))
            },
        }
    }
}

/// Whether tokenizing `input` with the first token at `offset` gets stuck.
pub open spec fn tokenize_stuck(input: Seq<char>, offset: Position) -> bool {
    let s0 = initial(input, offset);
    ||| until_stuck(s0, TokenKind::Eoi, 0)
    ||| match until(s0, TokenKind::Eoi, 0) {
        Ok(s) => closing_stuck(update_open_map(s, true)),
        Err(_) => false,
    }
}

broadcast use super::model::group_toks;

/// Whether closing the last token of the state finds nothing to close that it needs.
pub fn closing_is_stuck(t: &Tokenized) -> (r: bool)
    requires
        t.wf(),
    ensures
        r == closing_stuck(t@),
{
    let n = t.tokens.len();
    if n == 0 {
        return false;
    }
    let bio = TokenKind::BoldItalicOpen;
    match t.tokens[n - 1].kind {
        TokenKind::BoldClose => {
            let split = match t.open_index(bio) {
                Some(i) => i < n - 1,
                None => false,
            };
            !t.is_open(TokenKind::BoldOpen) && !split
        },
        TokenKind::ItalicClose => {
            let too_late = match t.open_index(bio) {
                Some(i) => i >= n - 1,
                None => false,
            };
            !t.is_open(TokenKind::ItalicOpen) && too_late
        },
        TokenKind::BoldItalicClose => !t.is_open(bio) && !(t.is_open(TokenKind::BoldOpen) && t.is_open(
            TokenKind::ItalicOpen,
        )),
        TokenKind::VerbatimClose => !t.is_open(TokenKind::VerbatimOpen),
        _ => false,
    }
}

/// Whether an asterisk after the last token of the state gets stuck.
pub fn asterisk_is_stuck(t: &Tokenized) -> (r: bool)
    requires
        t.wf(),
    ensures
        r == asterisk_stuck(t@),
{
    let n = t.tokens.len();
    if n == 0 {
        return false;
    }
    let k = t.tokens[n - 1].kind;
    let bio = TokenKind::BoldItalicOpen;
    let bold = t.is_open(TokenKind::BoldOpen);
    let italic = t.is_open(TokenKind::ItalicOpen);
    proof {
        let s0 = with_tokens(t@, t@.tokens.drop_last());
        assert(s0.open == t@.open);
    }
    (k == TokenKind::BoldClose && !t.is_open(bio) && italic && !bold) || (k == TokenKind::BoldOpen && italic
        && n == 1) || (k == TokenKind::ItalicOpen && bold && n == 1)
}

} // verus!
