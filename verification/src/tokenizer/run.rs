//! Tokenization of a whole input: grapheme by grapheme, with text groups tokenized recursively.
use super::asterisk::update_asterisk;
use super::model;
use super::state::{new_token, no_open_map, Tokenized};
use super::steps::{
    cleanup_loose_open_tokens, try_closing_fixated_token, try_closing_text_group, update_accent,
    update_escaped, update_newline, update_open_map, update_run,
};
use super::stuck::{
    asterisk_is_stuck, asterisk_stuck, closing_is_stuck, closing_stuck, group_stuck, until_stuck, update_stuck,
};
use super::tokens::{AsSingleTokenKind, SingleTokenKind, TokenKind};
use super::InlineError;
use vstd::prelude::*;

verus! {

broadcast use model::group_toks;

/// Updates the list of tokens by handling the next grapheme of the input; `stuck` is set where
/// this gets stuck.
pub fn update_tokens(t: &mut Tokenized, g: &str, stuck: &mut bool) -> (r: Result<(), InlineError>)
    requires
        old(t).wf(),
    ensures
        *final(stuck) == (*old(stuck) || update_stuck(old(t)@, g@)),
        r matches Ok(_) ==> model::update_tokens(old(t)@, g@) == Ok::<model::TokState, InlineError>(final(t)@),
        r matches Err(e) ==> model::update_tokens(old(t)@, g@) == Err::<model::TokState, _>(e),
        final(t).wf(),
        final(t)@.graphemes == old(t)@.graphemes,
        final(t).next >= old(t).next,
    decreases 3 * (old(t).graphemes@.len() - old(t).next) + 4,
{
    if t.escape_active {
        update_escaped(t, g);
        t.escape_active = false;
        return Ok(());
    }
    let single_token_kind = g.as_single_token_kind();
    match single_token_kind {
        SingleTokenKind::Plain => update_run(t, g, TokenKind::Plain),
        SingleTokenKind::Newline => update_newline(t, g),
        SingleTokenKind::Space => update_run(t, g, TokenKind::Space),
        SingleTokenKind::Backslash => {
            t.escape_active = true;
        },
        SingleTokenKind::Asterisk => {
            if asterisk_is_stuck(t) {
                *stuck = true;
            }
            update_asterisk(t, g)
        },
        SingleTokenKind::Accent => update_accent(t, g),
        SingleTokenKind::LeftSquareBracket => {
            return open_text_group(t, g, stuck);
        },
        SingleTokenKind::RightSquareBracket => try_closing_text_group(t, g),
    }
    Ok(())
}

/// Handles text group tokenization by taking precedence over inline formattings:
/// the group is tokenized recursively up to its closing token, which enforces that it closes.
pub fn open_text_group(t: &mut Tokenized, g: &str, stuck: &mut bool) -> (r: Result<(), InlineError>)
    requires
        old(t).wf(),
    ensures
        *final(stuck) == (*old(stuck) || group_stuck(old(t)@, g@)),
        r matches Ok(_) ==> model::open_text_group(old(t)@, g@) == Ok::<model::TokState, InlineError>(final(t)@),
        r matches Err(e) ==> model::open_text_group(old(t)@, g@) == Err::<model::TokState, _>(e),
        final(t).wf(),
        final(t)@.graphemes == old(t)@.graphemes,
        final(t).next >= old(t).next,
    decreases 3 * (old(t).graphemes@.len() - old(t).next) + 3,
{
    t.bump();
    update_open_map(t, false);
    if closing_is_stuck(t) {
        *stuck = true;
    }
    try_closing_fixated_token(t, false);

    // Makes sure to not have formattings over text group borders
    let outer_open_tokens = t.open_tokens.clone();
    t.open_tokens = no_open_map();

    let nt = new_token(TokenKind::TextGroupOpen, g, t.cur_pos);
    t.push_token(nt);

    let res = tokenize_until(t, TokenKind::TextGroupClose, stuck);
    if let Err(e) = res {
        return Err(e);
    }
    match t.pop_token() {
        Some(closing_token) => {
            if closing_is_stuck(t) {
                *stuck = true;
            }
            try_closing_fixated_token(t, true);
            cleanup_loose_open_tokens(t);
            t.push_token(closing_token);
        },
        None => {},
    }
    t.open_tokens = outer_open_tokens;
    Ok(())
}

/// Creates tokens until a token of kind `token_kind` is fixed, or the end of input is reached.
/// The token of kind `token_kind` is included in the resulting tokens.
pub fn tokenize_until(t: &mut Tokenized, token_kind: TokenKind, stuck: &mut bool) -> (r: Result<(), InlineError>)
    requires
        old(t).wf(),
    ensures
        *final(stuck) == (*old(stuck) || until_stuck(old(t)@, token_kind, old(t)@.tokens.len() as int)),
        r matches Ok(_) ==> model::until(old(t)@, token_kind, old(t)@.tokens.len() as int) == Ok::<model::TokState, InlineError>(
            final(t)@,
        ),
        r matches Err(e) ==> model::until(old(t)@, token_kind, old(t)@.tokens.len() as int) == Err::<
            model::TokState,
            _,
        >(e),
        final(t).wf(),
        final(t)@.graphemes == old(t)@.graphemes,
        final(t).next >= old(t).next,
    decreases 3 * (old(t).graphemes@.len() - old(t).next) + 2,
{
    let ghost start = t@;
    let ghost entry_stuck = *stuck;
    let mut prev_tokens_len = t.tokens.len();
    loop
        invariant
            start == old(t)@,
            entry_stuck == *old(stuck),
            (*stuck || until_stuck(t@, token_kind, prev_tokens_len as int)) == (entry_stuck || until_stuck(
                start,
                token_kind,
                start.tokens.len() as int,
            )),
            t.wf(),
            t@.graphemes == old(t)@.graphemes,
            t.next >= old(t).next,
            model::until(t@, token_kind, prev_tokens_len as int) == model::until(
                start,
                token_kind,
                start.tokens.len() as int,
            ),
        decreases t.graphemes@.len() - t.next,
    {
        let ghost before = t@;
        if t.next >= t.graphemes.len() {
            // Brackets must close
            let n = t.tokens.len();
            if n > 0 {
                if token_kind != TokenKind::Eoi && t.tokens[n - 1].kind != token_kind {
                    return Err(InlineError::ClosingViolation);
                }
            }
            return Ok(());
        }
        let grapheme = t.graphemes[t.next].clone();
        t.next = t.next + 1;
        assert(t@ =~= model::with_next(before, before.next + 1));
        let res = update_tokens(t, grapheme.as_str(), stuck);
        if let Err(e) = res {
            return Err(e);
        }
        let n = t.tokens.len();
        if n != prev_tokens_len && n > 0 {
            // Last token excluded, since it is not fixated yet
            if let Some(last) = t.pop_token() {
                if !last.closes_scope() {
                    let sp = last.is_space_or_newline();
                    update_open_map(t, sp);
                    if closing_is_stuck(t) {
                        *stuck = true;
                    }
                    try_closing_fixated_token(t, sp);
                }
                let last_kind = last.kind;
                t.push_token(last);
                if last_kind == token_kind {
                    return Ok(());
                }
            }
        }
        prev_tokens_len = t.tokens.len();
    }
}

} // verus!
