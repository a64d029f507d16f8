//! Tokenization of `*`: bold, italic and any combination of them.
use super::model;
use super::state::{keyword_token, new_token, Tokenized};
use super::tokens::{Token, TokenKind};
use vstd::prelude::*;
use vstd::string::StringExecFns;

verus! {

broadcast use model::group_toks;

/// `*` after `*`.
fn after_italic_open(t: &mut Tokenized, mut last: Token, g: &str)
    requires
        old(t).wf(),
    ensures
        final(t)@ == model::asterisk_after_italic_open(old(t)@, last@, g@),
        final(t).wf(),
{
    last.content.append(g);
    if t.is_open(TokenKind::BoldOpen) {
        if t.preceded_by_space() {
            // Close after space is not allowed
            last.kind = TokenKind::Plain;
        } else {
            last.kind = TokenKind::BoldClose;
        }
    } else {
        last.kind = TokenKind::BoldOpen;
    }
    t.push_token(last);
}

/// `*` after `**`.
fn after_bold_open(t: &mut Tokenized, mut last: Token, g: &str)
    requires
        old(t).wf(),
    ensures
        final(t)@ == model::asterisk_after_bold_open(old(t)@, last@, g@),
        final(t).wf(),
{
    if t.is_open(TokenKind::ItalicOpen) {
        // Handles cases like `*italic***bold**`
        if t.preceded_by_space() {
            // `*before ***after*` = `[io]before *[ic][io]after[ic]`
            let l1 = keyword_token(TokenKind::Plain, TokenKind::ItalicOpen, last.position);
            t.advance(&l1);
            t.push_token(l1);
            let ic = keyword_token(TokenKind::ItalicClose, TokenKind::ItalicClose, t.cur_pos);
            t.advance(&ic);
            t.push_token(ic);
            let io = keyword_token(TokenKind::ItalicOpen, TokenKind::ItalicClose, t.cur_pos);
            t.push_token(io);
        } else {
            let l1 = keyword_token(TokenKind::ItalicClose, TokenKind::ItalicClose, last.position);
            t.advance(&l1);
            t.push_token(l1);
            let bo = keyword_token(TokenKind::BoldOpen, TokenKind::BoldOpen, t.cur_pos);
            t.push_token(bo);
        }
    } else {
        last.kind = TokenKind::BoldItalicOpen;
        last.content.append(g);
        t.push_token(last);
    }
}

/// `*` after `***`: the leftmost `*` becomes plain; if no italic, bold or bold-italic open
/// token is present, the remaining `***` open again, otherwise they close.
fn after_bold_italic_open(t: &mut Tokenized, last: Token)
    requires
        old(t).wf(),
    ensures
        final(t)@ == model::asterisk_after_bold_italic_open(old(t)@, last@),
        final(t).wf(),
{
    let l1 = keyword_token(TokenKind::Plain, TokenKind::ItalicOpen, last.position);
    t.advance(&l1);
    let italic = t.is_open(TokenKind::ItalicOpen);
    let bold = t.is_open(TokenKind::BoldOpen);
    if (italic && bold) || t.is_open(TokenKind::BoldItalicOpen) {
        t.push_token(l1);
        let c = keyword_token(TokenKind::BoldItalicClose, TokenKind::BoldItalicClose, t.cur_pos);
        t.push_token(c);
    } else if italic {
        t.push_token(l1);
        let ic = keyword_token(TokenKind::ItalicClose, TokenKind::ItalicClose, t.cur_pos);
        t.push_token(ic);
        let bo = keyword_token(TokenKind::BoldOpen, TokenKind::BoldOpen, t.cur_pos);
        t.push_token(bo);
    } else if bold {
        t.push_token(l1);
        let bc = keyword_token(TokenKind::BoldClose, TokenKind::BoldClose, t.cur_pos);
        t.advance(&bc);
        t.push_token(bc);
        let io = keyword_token(TokenKind::ItalicOpen, TokenKind::ItalicOpen, t.cur_pos);
        t.push_token(io);
    } else {
        if t.last_is(TokenKind::Plain) {
            t.append_last(l1.content.as_str());
        } else {
            t.push_token(l1);
        }
        let o = keyword_token(TokenKind::BoldItalicOpen, TokenKind::BoldItalicOpen, t.cur_pos);
        t.push_token(o);
    }
}

/// `*` after a closing `*`.
fn after_italic_close(t: &mut Tokenized, mut last: Token, g: &str)
    requires
        old(t).wf(),
    ensures
        final(t)@ == model::asterisk_after_italic_close(old(t)@, last@, g@),
        final(t).wf(),
{
    if t.is_open(TokenKind::BoldItalicOpen) || t.is_open(TokenKind::BoldOpen) {
        last.kind = TokenKind::BoldClose;
    } else {
        last.kind = TokenKind::BoldOpen;
    }
    last.content.append(g);
    t.push_token(last);
}

/// `*` after a closing `**`.
fn after_bold_close(t: &mut Tokenized, mut last: Token, g: &str)
    requires
        old(t).wf(),
    ensures
        final(t)@ == model::asterisk_after_bold_close(old(t)@, last@, g@),
        final(t).wf(),
{
    if t.is_open(TokenKind::BoldItalicOpen) {
        last.content.append(g);
        last.kind = TokenKind::BoldItalicClose;
        t.push_token(last);
    } else {
        match t.open_index(TokenKind::ItalicOpen) {
            Some(italic_index) => {
                let bold_index = match t.open_index(TokenKind::BoldOpen) {
                    Some(b) => b,
                    None => 0,
                };
                if italic_index < bold_index {
                    let l1 = keyword_token(TokenKind::BoldClose, TokenKind::BoldClose, last.position);
                    t.advance(&l1);
                    t.push_token(l1);
                    let nt = keyword_token(TokenKind::ItalicClose, TokenKind::ItalicClose, t.cur_pos);
                    t.push_token(nt);
                } else {
                    let l1 = keyword_token(TokenKind::ItalicClose, TokenKind::ItalicClose, last.position);
                    t.advance(&l1);
                    t.push_token(l1);
                    let nt = keyword_token(TokenKind::BoldClose, TokenKind::BoldClose, t.cur_pos);
                    t.push_token(nt);
                }
            },
            None => {
                // `**bold***italic*` -> [bo]bold[bc][io]italic[ic]
                t.advance(&last);
                t.push_token(last);
                let nt = new_token(TokenKind::ItalicOpen, g, t.cur_pos);
                t.push_token(nt);
            },
        }
    }
}

/// `*` after any other token.
fn after_other(t: &mut Tokenized, last: Token, g: &str)
    requires
        old(t).wf(),
    ensures
        final(t)@ == model::asterisk_after_other(old(t)@, last@, g@),
        final(t).wf(),
{
    t.advance(&last);
    let kind = if t.is_open(TokenKind::ItalicOpen) || t.is_open(TokenKind::BoldOpen) || t.is_open(
        TokenKind::BoldItalicOpen,
    ) {
        if last.is_space_or_newline() {
            // Closing not allowed after space
            TokenKind::ItalicOpen
        } else {
            TokenKind::ItalicClose
        }
    } else {
        TokenKind::ItalicOpen
    };
    t.push_token(last);
    let nt = new_token(kind, g, t.cur_pos);
    t.push_token(nt);
}

/// Handles bold, italic and any combination of them.
pub fn update_asterisk(t: &mut Tokenized, g: &str)
    requires
        old(t).wf(),
    ensures
        final(t)@ == model::update_asterisk(old(t)@, g@),
        final(t).wf(),
        final(t)@.graphemes == old(t)@.graphemes,
        final(t)@.next == old(t)@.next,
        final(t)@.escape == old(t)@.escape,
{
    reveal(model::update_asterisk);
    match t.pop_token() {
        Some(last) => {
            let k = last.kind;
            if k == TokenKind::ItalicOpen {
                after_italic_open(t, last, g);
            } else if k == TokenKind::BoldOpen {
                after_bold_open(t, last, g);
            } else if k == TokenKind::BoldItalicOpen {
                after_bold_italic_open(t, last);
            } else if k == TokenKind::ItalicClose {
                after_italic_close(t, last, g);
            } else if k == TokenKind::BoldClose {
                after_bold_close(t, last, g);
            } else if k == TokenKind::BoldItalicClose {
                // `***bold & italic****italic*` -> [bio]bold & italic[bic][io]italic[ic]
                t.advance(&last);
                t.push_token(last);
                let nt = new_token(TokenKind::ItalicOpen, g, t.cur_pos);
                t.push_token(nt);
            } else {
                after_other(t, last, g);
            }
        },
        None => {
            let nt = new_token(TokenKind::ItalicOpen, g, t.cur_pos);
            t.push_token(nt);
        },
    }
}

} // verus!
