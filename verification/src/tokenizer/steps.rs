//! The single-grapheme steps of tokenization and the closing of formattings.
use super::model;
use super::model::{toks, NUM_KINDS};
use super::state::{keyword_token, map_of, new_token, no_open_tokens, table, Tokenized};
use super::tokens::{Position, Token, TokenKind};
use vstd::prelude::*;
use vstd::string::StringExecFns;

verus! {

broadcast use model::group_toks;

/// Handles a plain or space grapheme.
pub fn update_run(t: &mut Tokenized, g: &str, kind: TokenKind)
    ensures
        final(t)@ == model::update_run(old(t)@, g@, kind),
        final(t).wf() == old(t).wf(),
{
    let n = t.tokens.len();
    if n > 0 {
        if t.tokens[n - 1].kind == kind {
            t.append_last(g);
        } else {
            t.bump();
            let nt = new_token(kind, g, t.cur_pos);
            t.push_token(nt);
        }
    } else {
        let nt = new_token(kind, g, t.cur_pos);
        t.push_token(nt);
    }
}

/// Handles escaped graphemes.
pub fn update_escaped(t: &mut Tokenized, g: &str)
    ensures
        final(t)@ == model::update_escaped(old(t)@, g@),
        final(t).wf() == old(t).wf(),
{
    t.bump();
    let nt = new_token(TokenKind::EscapedGrapheme, g, t.cur_pos);
    t.push_token(nt);
    // add backslash length offset for next token start
    t.cur_pos.column = t.cur_pos.column.saturating_add(1);
}

/// Handles newlines.
pub fn update_newline(t: &mut Tokenized, g: &str)
    ensures
        final(t)@ == model::update_newline(old(t)@, g@),
        final(t).wf() == old(t).wf(),
{
    t.bump();
    let nt = new_token(TokenKind::NewLine, g, t.cur_pos);
    t.push_token(nt);
    t.cur_pos.line = t.cur_pos.line.saturating_add(1);
    t.cur_pos.column = 0;
}

/// Handles verbatim tokens.
pub fn update_accent(t: &mut Tokenized, g: &str)
    requires
        old(t).wf(),
    ensures
        final(t)@ == model::update_accent(old(t)@, g@),
        final(t).wf(),
{
    t.bump();
    let kind = if t.is_open(TokenKind::VerbatimOpen) {
        TokenKind::VerbatimClose
    } else {
        TokenKind::VerbatimOpen
    };
    let nt = new_token(kind, g, t.cur_pos);
    t.push_token(nt);
}

/// Closes a text group if possible; otherwise `]` is plain text.
pub fn try_closing_text_group(t: &mut Tokenized, g: &str)
    requires
        old(t).wf(),
    ensures
        final(t)@ == model::try_closing_text_group(old(t)@, g@),
        final(t).wf(),
{
    if t.is_open(TokenKind::TextGroupOpen) {
        t.set_open(TokenKind::TextGroupOpen, None);
        t.bump();
        let nt = new_token(TokenKind::TextGroupClose, g, t.cur_pos);
        t.push_token(nt);
    } else if t.tokens.len() > 0 {
        t.bump();
        if t.last_is(TokenKind::Plain) {
            t.append_last(g);
        } else {
            let nt = new_token(TokenKind::Plain, g, t.cur_pos);
            t.push_token(nt);
        }
    }
}

/// Converts the token at `index` to `Plain` and merges it with the previous and/or next
/// token, if they are also `Plain`.
pub fn try_plain_token_merge(tokens: &mut Vec<Token>, index: usize)
    ensures
        toks(final(tokens)@) == model::plain_merge(toks(old(tokens)@), index as int),
{
    if index >= tokens.len() {
        return;
    }
    let ghost ts = toks(old(tokens)@);
    let mut token = tokens.remove(index);
    token.kind = TokenKind::Plain;
    if index < tokens.len() {
        let next_token = tokens.remove(index);
        if next_token.kind == TokenKind::Plain {
            token.content.append(next_token.content.as_str());
        } else {
            tokens.insert(index, next_token);
            assert(tokens@ =~= old(tokens)@.remove(index as int));
        }
    }
    if index > 0 && tokens[index - 1].kind == TokenKind::Plain {
        let mut prev = tokens.remove(index - 1);
        prev.content.append(token.content.as_str());
        tokens.insert(index - 1, prev);
    } else {
        tokens.insert(index, token);
    }
    proof {
        let ghost m = model::plain_merge(ts, index as int);
        assert(toks(tokens@) =~= m);
    }
}


/// The slot holding the largest open-token index not below `lower` (the first such slot on a tie).
pub fn best_slot(open: &Vec<Option<usize>>, lower: usize) -> (r: Option<usize>)
    requires
        open@.len() == NUM_KINDS,
    ensures
        r matches Some(j) ==> model::best_slot(open@, lower, NUM_KINDS as int) == Some(j as int),
        r is None ==> model::best_slot(open@, lower, NUM_KINDS as int) is None,
{
    let mut b: Option<usize> = None;
    let mut i: usize = 0;
    while i < NUM_KINDS
        invariant
            open@.len() == NUM_KINDS,
            i <= NUM_KINDS,
            b matches Some(j) ==> j < i && model::best_slot(open@, lower, i as int) == Some(j as int)
                && open@[j as int] is Some,
            b is None ==> model::best_slot(open@, lower, i as int) is None,
        decreases NUM_KINDS - i,
    {
        match open[i] {
            Some(v) => {
                if v >= lower {
                    match b {
                        Some(j) => {
                            let bv = open[j].unwrap();
                            if bv < v {
                                b = Some(i);
                            }
                        },
                        None => {
                            b = Some(i);
                        },
                    }
                }
            },
            None => {},
        }
        i = i + 1;
    }
    b
}

/// Turns every open token at an index not below `lower` into plain text, from the largest
/// index down.
pub fn merge_from(tokens: &mut Vec<Token>, open: &Vec<Option<usize>>, lower: usize)
    requires
        open@.len() == NUM_KINDS,
    ensures
        toks(final(tokens)@) == model::merge_from(toks(old(tokens)@), open@, lower, NUM_KINDS as nat),
{
    let mut scratch = open.clone();
    assert(scratch@ =~= open@);
    let mut fuel: usize = NUM_KINDS;
    while fuel > 0
        invariant
            scratch@.len() == NUM_KINDS,
            fuel <= NUM_KINDS,
            model::merge_from(toks(old(tokens)@), open@, lower, NUM_KINDS as nat)
                == model::merge_from(toks(tokens@), scratch@, lower, fuel as nat),
        decreases fuel,
    {
        match best_slot(&scratch, lower) {
            None => {
                fuel = 0;
            },
            Some(j) => {
                proof {
                    model::lemma_best_slot(scratch@, lower, NUM_KINDS as int);
                }
                let idx = scratch[j].unwrap();
                try_plain_token_merge(tokens, idx);
                scratch.set(j, None);
                fuel = fuel - 1;
            },
        }
    }
}

/// Cleans up open tokens: remaining open tokens without matching close token become plain,
/// merged with neighbouring plain tokens.
pub fn cleanup_loose_open_tokens(t: &mut Tokenized)
    requires
        old(t).wf(),
    ensures
        final(t)@ == model::cleanup(old(t)@),
        final(t).wf(),
        final(t)@.graphemes == old(t)@.graphemes,
        final(t)@.next == old(t)@.next,
        final(t)@.escape == old(t)@.escape,
{
    reveal(model::cleanup);
    let open = table(&t.open_tokens);
    merge_from(&mut t.tokens, &open, 0);
}

/// Enters the last fixed token into the table of open tokens, if it is an open token.
/// Open token constraints are enforced: a violating token becomes plain.
pub fn update_open_map(t: &mut Tokenized, next_is_space: bool)
    requires
        old(t).wf(),
    ensures
        final(t)@ == model::update_open_map(old(t)@, next_is_space),
        final(t).wf(),
        final(t)@.graphemes == old(t)@.graphemes,
        final(t)@.next == old(t)@.next,
        final(t)@.escape == old(t)@.escape,
{
    reveal(model::update_open_map);
    let popped = t.pop_token();
    match popped {
        None => {},
        Some(mut prev) => {
            let k = prev.kind;
            let vacant = t.open_index(k).is_none();
            let formatting = k == TokenKind::BoldOpen || k == TokenKind::ItalicOpen || k
                == TokenKind::BoldItalicOpen || k == TokenKind::EmojiOpen;
            let enclosing = k == TokenKind::VerbatimOpen || k == TokenKind::TextGroupOpen;
            if vacant && ((formatting && !next_is_space) || enclosing) {
                let n = t.tokens.len();
                t.set_open(k, Some(n));
            }
            if !vacant || (formatting && next_is_space) {
                prev.kind = TokenKind::Plain;
            }
            if t.last_is(TokenKind::Plain) && prev.kind == TokenKind::Plain {
                t.append_last(prev.content.as_str());
            } else {
                t.push_token(prev);
            }
        },
    }
}

/// The table after a closing token: entries below `open_index` stay, all others come from `upd`.
pub fn keep_below(open: &Vec<Option<usize>>, open_index: usize, upd: &Vec<Option<usize>>) -> (r: Vec<
    Option<usize>,
>)
    requires
        open@.len() == NUM_KINDS,
        upd@.len() == NUM_KINDS,
    ensures
        r@ == model::keep_below(open@, open_index, upd@),
{
    let mut r: Vec<Option<usize>> = Vec::new();
    let mut i: usize = 0;
    while i < NUM_KINDS
        invariant
            open@.len() == NUM_KINDS,
            upd@.len() == NUM_KINDS,
            i <= NUM_KINDS,
            r@.len() == i,
            forall|j: int| 0 <= j < i ==> #[trigger] r@[j] == model::keep_below(open@, open_index, upd@)[j],
        decreases NUM_KINDS - i,
    {
        let e = match open[i] {
            Some(v) => {
                if v < open_index {
                    Some(v)
                } else {
                    upd[i]
                }
            },
            None => upd[i],
        };
        r.push(e);
        i = i + 1;
    }
    assert(r@ =~= model::keep_below(open@, open_index, upd@));
    r
}

/// Completes a closing token (see [`model::finish_close`]); `t.tokens` holds the tokens
/// before the closing token and `t.open_tokens` the table with the matching open token removed.
pub fn finish_close(t: &mut Tokenized, last: Token, open_index: usize, upd: Vec<Option<usize>>)
    requires
        old(t).wf(),
        upd@.len() == NUM_KINDS,
    ensures
        final(t)@ == model::finish_close(
            old(t)@,
            old(t)@.tokens,
            last@,
            old(t)@.open,
            open_index,
            upd@,
        ),
        final(t).wf(),
{
    t.tokens.push(last);
    let open = table(&t.open_tokens);
    merge_from(&mut t.tokens, &open, open_index);
    let kept = keep_below(&open, open_index, &upd);
    t.open_tokens = map_of(&kept);
}

/// Splits an ambiguous `***` open token at `idx` into `outer` followed by `inner`.
pub fn split_open(tokens: &mut Vec<Token>, idx: usize, outer: TokenKind, inner: TokenKind)
    requires
        idx < old(tokens)@.len(),
    ensures
        toks(final(tokens)@) == model::split_open(toks(old(tokens)@), idx as int, outer, inner),
{
    let n = tokens.len();
    let old_token = tokens.remove(idx);
    let ot2 = keyword_token(outer, outer, old_token.position);
    let l = ot2.length();
    let np = Position { line: ot2.position.line, column: ot2.position.column.saturating_add(l) };
    tokens.insert(idx, ot2);
    let it = keyword_token(inner, inner, np);
    tokens.insert(idx + 1, it);
    proof {
        assert(toks(old(tokens)@.remove(idx as int).insert(idx as int, ot2)) =~= toks(old(tokens)@).update(idx as int, ot2@));
    }
}


/// A table whose only entry is `k` at `v`.
pub fn single_open(k: TokenKind, v: usize) -> (r: Vec<Option<usize>>)
    ensures
        r@ == model::set_open(model::no_open(), k, Some(v)),
        r@.len() == NUM_KINDS,
{
    let mut r = no_open_tokens();
    r.set(super::state::slot(k), Some(v));
    r
}

/// Closes the formatting that the last (now fixed) token closes: dangling open tokens between
/// the matching open token and the closing one become plain.
pub fn try_closing_fixated_token(t: &mut Tokenized, next_is_space: bool)
    requires
        old(t).wf(),
    ensures
        final(t)@ == model::try_closing_fixated(old(t)@, next_is_space),
        final(t).wf(),
        final(t)@.graphemes == old(t)@.graphemes,
        final(t)@.next == old(t)@.next,
        final(t)@.escape == old(t)@.escape,
{
    reveal(model::try_closing_fixated);
    let n = t.tokens.len();
    if n == 0 {
        return;
    }
    let kind = t.tokens[n - 1].kind;
    let bio = TokenKind::BoldItalicOpen;
    match kind {
        TokenKind::BoldClose => {
            if let Some(idx) = t.open_index(TokenKind::BoldOpen) {
                if let Some(last) = t.pop_token() {
                    t.set_open(TokenKind::BoldOpen, None);
                    finish_close(t, last, idx, no_open_tokens());
                }
            } else if let Some(idx) = t.open_index(bio) {
                if idx < n - 1 {
                    if let Some(last) = t.pop_token() {
                        t.set_open(bio, None);
                        split_open(&mut t.tokens, idx, TokenKind::ItalicOpen, TokenKind::BoldOpen);
                        finish_close(t, last, idx, single_open(TokenKind::ItalicOpen, idx));
                    }
                }
            }
        },
        TokenKind::ItalicClose => {
            if let Some(idx) = t.open_index(TokenKind::ItalicOpen) {
                if let Some(last) = t.pop_token() {
                    t.set_open(TokenKind::ItalicOpen, None);
                    finish_close(t, last, idx, no_open_tokens());
                }
            } else if let Some(idx) = t.open_index(bio) {
                if idx < n - 1 {
                    if let Some(last) = t.pop_token() {
                        t.set_open(bio, None);
                        split_open(&mut t.tokens, idx, TokenKind::BoldOpen, TokenKind::ItalicOpen);
                        finish_close(t, last, idx, single_open(TokenKind::BoldOpen, idx));
                    }
                }
            } else if let Some(mut last) = t.pop_token() {
                if next_is_space {
                    // ItalicClose kept open for a possible BoldClose, but stayed ItalicClose
                    if t.last_is(TokenKind::Plain) {
                        t.append_last(last.content.as_str());
                    } else {
                        last.kind = TokenKind::Plain;
                        t.push_token(last);
                    }
                } else {
                    last.kind = TokenKind::ItalicOpen;
                    let len = t.tokens.len();
                    t.set_open(TokenKind::ItalicOpen, Some(len));
                    t.push_token(last);
                }
            }
        },
        TokenKind::BoldItalicClose => {
            if let Some(idx) = t.open_index(bio) {
                if let Some(last) = t.pop_token() {
                    t.set_open(bio, None);
                    finish_close(t, last, idx, no_open_tokens());
                }
            } else {
                let b = t.open_index(TokenKind::BoldOpen);
                let i = t.open_index(TokenKind::ItalicOpen);
                if let (Some(bold_index), Some(italic_index)) = (b, i) {
                    if let Some(last) = t.pop_token() {
                        t.set_open(TokenKind::BoldOpen, None);
                        t.set_open(TokenKind::ItalicOpen, None);
                        let m = if bold_index < italic_index {
                            bold_index
                        } else {
                            italic_index
                        };
                        finish_close(t, last, m, no_open_tokens());
                    }
                }
            }
        },
        TokenKind::VerbatimClose => {
            if let Some(idx) = t.open_index(TokenKind::VerbatimOpen) {
                if let Some(last) = t.pop_token() {
                    t.set_open(TokenKind::VerbatimOpen, None);
                    finish_close(t, last, idx, no_open_tokens());
                }
            }
        },
        _ => {},
    }
}

} // verus!
