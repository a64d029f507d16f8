//! Where the first token starts only shifts the positions of the tokens: the offset's line is
//! added to every line, and its column to the columns of the tokens on the first line.
use super::model::{
    advance, append_last, asterisk_after_bold_close, asterisk_after_bold_italic_open, asterisk_after_bold_open,
    asterisk_after_italic_close, asterisk_after_italic_open, asterisk_after_other, best_slot, bump, cleanup,
    finish_close, fixate, initial, merge_from, open_text_group, plain_merge, push_tok, rem, sat_add,
    spec_tokenize, split_open, tok, try_closing_fixated, try_closing_text_group, until, update_accent,
    update_asterisk, update_escaped, update_newline, update_open_map, update_run, update_tokens, with_content,
    with_kind, with_next, with_open, with_tokens, TokState, NUM_KINDS,
};
use super::tokens::{Position, TokenKind, TokenV};
use super::InlineError;
use vstd::prelude::*;

verus! {

/// A position of a tokenization that starts at the origin, moved to one that starts at `o`:
/// its line moves down by `o.line`, and on the first line its column moves right by
/// `o.column` (both stop at `usize::MAX`, as positions do).
pub open spec fn shifted(p: Position, o: Position) -> Position {
    Position {
        line: sat_add(p.line, o.line as int),
        column: if p.line == 0 {
            sat_add(p.column, o.column as int)
        } else {
            p.column
        },
    }
}

/// A token with its position shifted.
pub open spec fn shift_tok(t: TokenV, o: Position) -> TokenV {
    TokenV { kind: t.kind, content: t.content, position: shifted(t.position, o) }
}

/// Tokens with their positions shifted.
pub open spec fn shift_tokens(ts: Seq<TokenV>, o: Position) -> Seq<TokenV> {
    ts.map_values(|t: TokenV| shift_tok(t, o))
}

/// A state with its positions shifted.
pub open spec fn shift_state(s: TokState, o: Position) -> TokState {
    TokState {
        graphemes: s.graphemes,
        next: s.next,
        tokens: shift_tokens(s.tokens, o),
        open: s.open,
        cur: shifted(s.cur, o),
        escape: s.escape,
    }
}

proof fn lemma_shift_push(ts: Seq<TokenV>, t: TokenV, o: Position)
    ensures
        shift_tokens(ts.push(t), o) == shift_tokens(ts, o).push(shift_tok(t, o)),
{
    assert(shift_tokens(ts.push(t), o) =~= shift_tokens(ts, o).push(shift_tok(t, o)));
}

proof fn lemma_shift_drop_last(ts: Seq<TokenV>, o: Position)
    requires
        ts.len() > 0,
    ensures
        shift_tokens(ts.drop_last(), o) == shift_tokens(ts, o).drop_last(),
{
    assert(shift_tokens(ts.drop_last(), o) =~= shift_tokens(ts, o).drop_last());
}

proof fn lemma_shift_update(ts: Seq<TokenV>, i: int, t: TokenV, o: Position)
    requires
        0 <= i < ts.len(),
    ensures
        shift_tokens(ts.update(i, t), o) == shift_tokens(ts, o).update(i, shift_tok(t, o)),
{
    assert(shift_tokens(ts.update(i, t), o) =~= shift_tokens(ts, o).update(i, shift_tok(t, o)));
}

proof fn lemma_shift_insert(ts: Seq<TokenV>, i: int, t: TokenV, o: Position)
    requires
        0 <= i <= ts.len(),
    ensures
        shift_tokens(ts.insert(i, t), o) == shift_tokens(ts, o).insert(i, shift_tok(t, o)),
{
    assert(shift_tokens(ts.insert(i, t), o) =~= shift_tokens(ts, o).insert(i, shift_tok(t, o)));
}

proof fn lemma_shift_remove(ts: Seq<TokenV>, i: int, o: Position)
    requires
        0 <= i < ts.len(),
    ensures
        shift_tokens(ts.remove(i), o) == shift_tokens(ts, o).remove(i),
{
    assert(shift_tokens(ts.remove(i), o) =~= shift_tokens(ts, o).remove(i));
}

proof fn lemma_shift_append_last(ts: Seq<TokenV>, c: Seq<char>, o: Position)
    requires
        ts.len() > 0,
    ensures
        shift_tokens(append_last(ts, c), o) == append_last(shift_tokens(ts, o), c),
{
    lemma_shift_update(ts, ts.len() - 1, with_content(ts.last(), ts.last().content + c), o);
}

/// Moving right along a line commutes with the shift.
proof fn lemma_shift_column(p: Position, n: int, o: Position)
    requires
        n >= 0,
    ensures
        shifted(Position { line: p.line, column: sat_add(p.column, n) }, o) == (Position {
            line: shifted(p, o).line,
            column: sat_add(shifted(p, o).column, n),
        }),
{
}

proof fn lemma_shift_advance(s: TokState, t: TokenV, o: Position)
    ensures
        advance(shift_state(s, o), shift_tok(t, o)) == shift_state(advance(s, t), o),
{
    lemma_shift_column(s.cur, super::tokens::token_len(t) as int, o);
}

proof fn lemma_shift_bump(s: TokState, o: Position)
    ensures
        bump(shift_state(s, o)) == shift_state(bump(s), o),
{
    if s.tokens.len() > 0 {
        lemma_shift_advance(s, s.tokens.last(), o);
    }
}

proof fn lemma_shift_push_tok(s: TokState, t: TokenV, o: Position)
    ensures
        push_tok(shift_state(s, o), shift_tok(t, o)) == shift_state(push_tok(s, t), o),
{
    lemma_shift_push(s.tokens, t, o);
}

proof fn lemma_shift_update_run(s: TokState, g: Seq<char>, kind: TokenKind, o: Position)
    ensures
        update_run(shift_state(s, o), g, kind) == shift_state(update_run(s, g, kind), o),
{
    if s.tokens.len() > 0 {
        if s.tokens.last().kind == kind {
            lemma_shift_append_last(s.tokens, g, o);
        } else {
            lemma_shift_advance(s, s.tokens.last(), o);
            let s1 = advance(s, s.tokens.last());
            lemma_shift_push_tok(s1, tok(kind, g, s1.cur), o);
        }
    } else {
        lemma_shift_push_tok(s, tok(kind, g, s.cur), o);
    }
}

proof fn lemma_shift_update_escaped(s: TokState, g: Seq<char>, o: Position)
    ensures
        update_escaped(shift_state(s, o), g) == shift_state(update_escaped(s, g), o),
{
    lemma_shift_bump(s, o);
    let s1 = bump(s);
    lemma_shift_push_tok(s1, tok(TokenKind::EscapedGrapheme, g, s1.cur), o);
    let s2 = push_tok(s1, tok(TokenKind::EscapedGrapheme, g, s1.cur));
    lemma_shift_column(s2.cur, 1, o);
}

proof fn lemma_shift_update_newline(s: TokState, g: Seq<char>, o: Position)
    ensures
        update_newline(shift_state(s, o), g) == shift_state(update_newline(s, g), o),
{
    lemma_shift_bump(s, o);
    let s1 = bump(s);
    lemma_shift_push_tok(s1, tok(TokenKind::NewLine, g, s1.cur), o);
}

proof fn lemma_shift_update_accent(s: TokState, g: Seq<char>, o: Position)
    ensures
        update_accent(shift_state(s, o), g) == shift_state(update_accent(s, g), o),
{
    lemma_shift_bump(s, o);
    let s1 = bump(s);
    lemma_shift_push_tok(s1, tok(TokenKind::VerbatimOpen, g, s1.cur), o);
    lemma_shift_push_tok(s1, tok(TokenKind::VerbatimClose, g, s1.cur), o);
}

proof fn lemma_shift_closing_text_group(s: TokState, g: Seq<char>, o: Position)
    ensures
        try_closing_text_group(shift_state(s, o), g) == shift_state(try_closing_text_group(s, g), o),
{
    let tgo = TokenKind::TextGroupOpen;
    let w = with_open(s, super::model::set_open(s.open, tgo, None));
    lemma_shift_bump(w, o);
    assert(with_open(shift_state(s, o), super::model::set_open(s.open, tgo, None)) == shift_state(w, o));
    let s1 = bump(w);
    lemma_shift_push_tok(s1, tok(TokenKind::TextGroupClose, g, s1.cur), o);
    if s.tokens.len() > 0 {
        lemma_shift_advance(s, s.tokens.last(), o);
        let a = advance(s, s.tokens.last());
        lemma_shift_append_last(a.tokens, g, o);
        lemma_shift_push_tok(a, tok(TokenKind::Plain, g, a.cur), o);
    }
}

proof fn lemma_shift_plain_merge(ts: Seq<TokenV>, index: int, o: Position)
    ensures
        plain_merge(shift_tokens(ts, o), index) == shift_tokens(plain_merge(ts, index), o),
{
    if 0 <= index < ts.len() {
        let sts = shift_tokens(ts, o);
        let token = with_kind(ts[index], TokenKind::Plain);
        let ts1 = ts.remove(index);
        lemma_shift_remove(ts, index, o);
        let merged_next = index < ts1.len() && ts1[index].kind == TokenKind::Plain;
        let token2 = if merged_next {
            with_content(token, token.content + ts1[index].content)
        } else {
            token
        };
        if merged_next {
            lemma_shift_remove(ts1, index, o);
        }
        let ts2 = if merged_next {
            ts1.remove(index)
        } else {
            ts1
        };
        if index > 0 && ts2[index - 1].kind == TokenKind::Plain {
            lemma_shift_update(ts2, index - 1, with_content(ts2[index - 1], ts2[index - 1].content + token2.content), o);
        } else {
            lemma_shift_insert(ts2, index, token2, o);
        }
    }
}

proof fn lemma_shift_merge_from(ts: Seq<TokenV>, open: Seq<Option<usize>>, lower: usize, fuel: nat, o: Position)
    ensures
        merge_from(shift_tokens(ts, o), open, lower, fuel) == shift_tokens(merge_from(ts, open, lower, fuel), o),
    decreases fuel,
{
    if fuel > 0 {
        match best_slot(open, lower, open.len() as int) {
            Some(j) => {
                lemma_shift_plain_merge(ts, open[j]->0 as int, o);
                lemma_shift_merge_from(plain_merge(ts, open[j]->0 as int), open.update(j, None), lower, (fuel - 1) as nat, o);
            },
            None => {},
        }
    }
}

proof fn lemma_shift_cleanup(s: TokState, o: Position)
    ensures
        cleanup(shift_state(s, o)) == shift_state(cleanup(s), o),
{
    reveal(cleanup);
    lemma_shift_merge_from(s.tokens, s.open, 0, NUM_KINDS as nat, o);
}

proof fn lemma_shift_update_open_map(s: TokState, next_is_space: bool, o: Position)
    ensures
        update_open_map(shift_state(s, o), next_is_space) == shift_state(update_open_map(s, next_is_space), o),
{
    reveal(update_open_map);
    if s.tokens.len() > 0 {
        let prev = s.tokens.last();
        let ts = s.tokens.drop_last();
        lemma_shift_drop_last(s.tokens, o);
        if ts.len() > 0 {
            lemma_shift_append_last(ts, prev.content, o);
        }
        lemma_shift_push(ts, with_kind(prev, TokenKind::Plain), o);
        lemma_shift_push(ts, prev, o);
    }
}

proof fn lemma_shift_split_open(ts: Seq<TokenV>, idx: int, outer: TokenKind, inner: TokenKind, o: Position)
    requires
        0 <= idx < ts.len(),
    ensures
        split_open(shift_tokens(ts, o), idx, outer, inner) == shift_tokens(split_open(ts, idx, outer, inner), o),
{
    let ot = ts[idx];
    let ot2 = tok(outer, super::tokens::kind_str(outer), ot.position);
    lemma_shift_column(ot2.position, super::tokens::token_len(ot2) as int, o);
    let np = Position {
        line: ot2.position.line,
        column: sat_add(ot2.position.column, super::tokens::token_len(ot2) as int),
    };
    lemma_shift_update(ts, idx, ot2, o);
    lemma_shift_insert(ts.update(idx, ot2), idx + 1, tok(inner, super::tokens::kind_str(inner), np), o);
}

proof fn lemma_shift_finish_close(
    s: TokState,
    ts: Seq<TokenV>,
    last: TokenV,
    open: Seq<Option<usize>>,
    open_index: usize,
    upd: Seq<Option<usize>>,
    o: Position,
)
    ensures
        finish_close(shift_state(s, o), shift_tokens(ts, o), shift_tok(last, o), open, open_index, upd)
            == shift_state(finish_close(s, ts, last, open, open_index, upd), o),
{
    lemma_shift_push(ts, last, o);
    lemma_shift_merge_from(ts.push(last), open, open_index, NUM_KINDS as nat, o);
}

proof fn lemma_shift_try_closing(s: TokState, next_is_space: bool, o: Position)
    ensures
        try_closing_fixated(shift_state(s, o), next_is_space) == shift_state(try_closing_fixated(s, next_is_space), o),
{
    reveal(try_closing_fixated);
    if s.tokens.len() > 0 {
        let last = s.tokens.last();
        let ts = s.tokens.drop_last();
        lemma_shift_drop_last(s.tokens, o);
        let ss = shift_state(s, o);
        assert(ss.tokens.last() == shift_tok(last, o));
        let bio = TokenKind::BoldItalicOpen;
        let n = NUM_KINDS as nat;
        assert forall|open: Seq<Option<usize>>, oi: usize, upd: Seq<Option<usize>>| true implies
            finish_close(ss, shift_tokens(ts, o), shift_tok(last, o), open, oi, upd)
                == shift_state(finish_close(s, ts, last, open, oi, upd), o) by {
            lemma_shift_finish_close(s, ts, last, open, oi, upd, o);
        }
        if super::model::is_open(s, bio) && (super::model::open_at(s, bio) as int) < ts.len() {
            let idx = super::model::open_at(s, bio) as int;
            lemma_shift_split_open(ts, idx, TokenKind::ItalicOpen, TokenKind::BoldOpen, o);
            lemma_shift_split_open(ts, idx, TokenKind::BoldOpen, TokenKind::ItalicOpen, o);
            let a = split_open(ts, idx, TokenKind::ItalicOpen, TokenKind::BoldOpen);
            let b = split_open(ts, idx, TokenKind::BoldOpen, TokenKind::ItalicOpen);
            assert forall|open: Seq<Option<usize>>, oi: usize, upd: Seq<Option<usize>>| true implies
                finish_close(ss, shift_tokens(a, o), shift_tok(last, o), open, oi, upd)
                    == shift_state(finish_close(s, a, last, open, oi, upd), o)
                && finish_close(ss, shift_tokens(b, o), shift_tok(last, o), open, oi, upd)
                    == shift_state(finish_close(s, b, last, open, oi, upd), o) by {
                lemma_shift_finish_close(s, a, last, open, oi, upd, o);
                lemma_shift_finish_close(s, b, last, open, oi, upd, o);
            }
        }
        if ts.len() > 0 {
            lemma_shift_append_last(ts, last.content, o);
        }
        lemma_shift_push(ts, with_kind(last, TokenKind::Plain), o);
        lemma_shift_push(ts, with_kind(last, TokenKind::ItalicOpen), o);
    }
}

proof fn lemma_shift_after_italic_open(s0: TokState, last: TokenV, g: Seq<char>, o: Position)
    ensures
        asterisk_after_italic_open(shift_state(s0, o), shift_tok(last, o), g) == shift_state(
            asterisk_after_italic_open(s0, last, g),
            o,
        ),
{
    assert forall|k: TokenKind| true implies push_tok(shift_state(s0, o), shift_tok(tok(k, last.content + g, last.position), o))
        == shift_state(push_tok(s0, tok(k, last.content + g, last.position)), o) by {
        lemma_shift_push_tok(s0, tok(k, last.content + g, last.position), o);
    }
}

proof fn lemma_shift_after_bold_open(s0: TokState, last: TokenV, g: Seq<char>, o: Position)
    ensures
        asterisk_after_bold_open(shift_state(s0, o), shift_tok(last, o), g) == shift_state(
            asterisk_after_bold_open(s0, last, g),
            o,
        ),
{
    let io = super::tokens::kind_str(TokenKind::ItalicOpen);
    let ic_s = super::tokens::kind_str(TokenKind::ItalicClose);
    let bo_s = super::tokens::kind_str(TokenKind::BoldOpen);
    // the plain `*`, then a closing and an opening italic
    let l1 = tok(TokenKind::Plain, io, last.position);
    lemma_shift_advance(s0, l1, o);
    let a1 = advance(s0, l1);
    lemma_shift_push_tok(a1, l1, o);
    let s1 = push_tok(a1, l1);
    let ic = tok(TokenKind::ItalicClose, ic_s, s1.cur);
    lemma_shift_advance(s1, ic, o);
    let a2 = advance(s1, ic);
    lemma_shift_push_tok(a2, ic, o);
    let s2 = push_tok(a2, ic);
    lemma_shift_push_tok(s2, tok(TokenKind::ItalicOpen, ic_s, s2.cur), o);
    // a closing italic, then an opening bold
    let m1 = tok(TokenKind::ItalicClose, ic_s, last.position);
    lemma_shift_advance(s0, m1, o);
    let b1 = advance(s0, m1);
    lemma_shift_push_tok(b1, m1, o);
    let t1 = push_tok(b1, m1);
    lemma_shift_push_tok(t1, tok(TokenKind::BoldOpen, bo_s, t1.cur), o);
    lemma_shift_push_tok(s0, tok(TokenKind::BoldItalicOpen, last.content + g, last.position), o);
}

proof fn lemma_shift_after_bold_italic_open(s0: TokState, last: TokenV, o: Position)
    ensures
        asterisk_after_bold_italic_open(shift_state(s0, o), shift_tok(last, o)) == shift_state(
            asterisk_after_bold_italic_open(s0, last),
            o,
        ),
{
    let l1 = tok(TokenKind::Plain, super::tokens::kind_str(TokenKind::ItalicOpen), last.position);
    lemma_shift_advance(s0, l1, o);
    let s1 = advance(s0, l1);
    lemma_shift_push_tok(s1, l1, o);
    let p1 = push_tok(s1, l1);
    lemma_shift_push_tok(p1, tok(TokenKind::BoldItalicClose, super::tokens::kind_str(TokenKind::BoldItalicClose), s1.cur), o);
    let ic = tok(TokenKind::ItalicClose, super::tokens::kind_str(TokenKind::ItalicClose), s1.cur);
    lemma_shift_push_tok(p1, ic, o);
    lemma_shift_push_tok(push_tok(p1, ic), tok(TokenKind::BoldOpen, super::tokens::kind_str(TokenKind::BoldOpen), s1.cur), o);
    let bc = tok(TokenKind::BoldClose, super::tokens::kind_str(TokenKind::BoldClose), p1.cur);
    lemma_shift_advance(p1, bc, o);
    lemma_shift_push_tok(advance(p1, bc), bc, o);
    let s3 = push_tok(advance(p1, bc), bc);
    lemma_shift_push_tok(s3, tok(TokenKind::ItalicOpen, super::tokens::kind_str(TokenKind::ItalicOpen), s3.cur), o);
    if s1.tokens.len() > 0 {
        lemma_shift_append_last(s1.tokens, l1.content, o);
    }
    let s2 = if s1.tokens.len() > 0 && s1.tokens.last().kind == TokenKind::Plain {
        with_tokens(s1, append_last(s1.tokens, l1.content))
    } else {
        push_tok(s1, l1)
    };
    lemma_shift_push_tok(s2, tok(TokenKind::BoldItalicOpen, super::tokens::kind_str(TokenKind::BoldItalicOpen), s2.cur), o);
}

proof fn lemma_shift_after_italic_close(s0: TokState, last: TokenV, g: Seq<char>, o: Position)
    ensures
        asterisk_after_italic_close(shift_state(s0, o), shift_tok(last, o), g) == shift_state(
            asterisk_after_italic_close(s0, last, g),
            o,
        ),
{
    lemma_shift_push_tok(s0, tok(TokenKind::BoldClose, last.content + g, last.position), o);
    lemma_shift_push_tok(s0, tok(TokenKind::BoldOpen, last.content + g, last.position), o);
}

proof fn lemma_shift_after_bold_close(s0: TokState, last: TokenV, g: Seq<char>, o: Position)
    ensures
        asterisk_after_bold_close(shift_state(s0, o), shift_tok(last, o), g) == shift_state(
            asterisk_after_bold_close(s0, last, g),
            o,
        ),
{
    let bc_s = super::tokens::kind_str(TokenKind::BoldClose);
    let ic_s = super::tokens::kind_str(TokenKind::ItalicClose);
    lemma_shift_push_tok(s0, tok(TokenKind::BoldItalicClose, last.content + g, last.position), o);
    let l1 = tok(TokenKind::BoldClose, bc_s, last.position);
    lemma_shift_advance(s0, l1, o);
    lemma_shift_push_tok(advance(s0, l1), l1, o);
    let s1 = push_tok(advance(s0, l1), l1);
    lemma_shift_push_tok(s1, tok(TokenKind::ItalicClose, ic_s, s1.cur), o);
    let m1 = tok(TokenKind::ItalicClose, ic_s, last.position);
    lemma_shift_advance(s0, m1, o);
    lemma_shift_push_tok(advance(s0, m1), m1, o);
    let t1 = push_tok(advance(s0, m1), m1);
    lemma_shift_push_tok(t1, tok(TokenKind::BoldClose, bc_s, t1.cur), o);
    lemma_shift_advance(s0, last, o);
    lemma_shift_push_tok(advance(s0, last), last, o);
    let u1 = push_tok(advance(s0, last), last);
    lemma_shift_push_tok(u1, tok(TokenKind::ItalicOpen, g, u1.cur), o);
}

proof fn lemma_shift_after_other(s0: TokState, last: TokenV, g: Seq<char>, o: Position)
    ensures
        asterisk_after_other(shift_state(s0, o), shift_tok(last, o), g) == shift_state(asterisk_after_other(s0, last, g), o),
{
    lemma_shift_advance(s0, last, o);
    let s1 = advance(s0, last);
    lemma_shift_push_tok(s1, last, o);
    lemma_shift_push_tok(push_tok(s1, last), tok(TokenKind::ItalicOpen, g, s1.cur), o);
    lemma_shift_push_tok(push_tok(s1, last), tok(TokenKind::ItalicClose, g, s1.cur), o);
}

proof fn lemma_shift_update_asterisk(s: TokState, g: Seq<char>, o: Position)
    ensures
        update_asterisk(shift_state(s, o), g) == shift_state(update_asterisk(s, g), o),
{
    reveal(update_asterisk);
    if s.tokens.len() == 0 {
        lemma_shift_push_tok(s, tok(TokenKind::ItalicOpen, g, s.cur), o);
    } else {
        let last = s.tokens.last();
        let s0 = with_tokens(s, s.tokens.drop_last());
        lemma_shift_drop_last(s.tokens, o);
        assert(with_tokens(shift_state(s, o), shift_state(s, o).tokens.drop_last()) == shift_state(s0, o));
        assert(shift_state(s, o).tokens.last() == shift_tok(last, o));
        lemma_shift_after_italic_open(s0, last, g, o);
        lemma_shift_after_bold_open(s0, last, g, o);
        lemma_shift_after_bold_italic_open(s0, last, o);
        lemma_shift_after_italic_close(s0, last, g, o);
        lemma_shift_after_bold_close(s0, last, g, o);
        lemma_shift_after_other(s0, last, g, o);
        lemma_shift_advance(s0, last, o);
        lemma_shift_push_tok(advance(s0, last), last, o);
        let s1 = push_tok(advance(s0, last), last);
        lemma_shift_push_tok(s1, tok(TokenKind::ItalicOpen, g, s1.cur), o);
    }
}

/// A result of a step with its positions shifted.
pub open spec fn shift_result(r: Result<TokState, InlineError>, o: Position) -> Result<TokState, InlineError> {
    match r {
        Ok(t) => Ok(shift_state(t, o)),
        Err(e) => Err(e),
    }
}

proof fn lemma_shift_fixate(s2: TokState, prev_len: int, o: Position)
    ensures
        fixate(shift_state(s2, o), prev_len) == shift_state(fixate(s2, prev_len), o),
{
    if s2.tokens.len() != prev_len && s2.tokens.len() > 0 {
        let last = s2.tokens.last();
        let s3 = with_tokens(s2, s2.tokens.drop_last());
        lemma_shift_drop_last(s2.tokens, o);
        assert(with_tokens(shift_state(s2, o), shift_state(s2, o).tokens.drop_last()) == shift_state(s3, o));
        let sp = last.kind.spec_is_space_or_newline();
        lemma_shift_update_open_map(s3, sp, o);
        lemma_shift_try_closing(update_open_map(s3, sp), sp, o);
        let s4 = if last.kind != TokenKind::TextGroupClose {
            try_closing_fixated(update_open_map(s3, sp), sp)
        } else {
            s3
        };
        lemma_shift_push_tok(s4, last, o);
    }
}

proof fn lemma_shift_update_tokens(s: TokState, g: Seq<char>, o: Position)
    ensures
        update_tokens(shift_state(s, o), g) == shift_result(update_tokens(s, g), o),
    decreases 3 * rem(s) + 4,
{
    if rem(s) >= 0 {
        lemma_shift_update_escaped(s, g, o);
        lemma_shift_update_run(s, g, TokenKind::Plain, o);
        lemma_shift_update_run(s, g, TokenKind::Space, o);
        lemma_shift_update_newline(s, g, o);
        lemma_shift_update_asterisk(s, g, o);
        lemma_shift_update_accent(s, g, o);
        lemma_shift_closing_text_group(s, g, o);
        lemma_shift_open_text_group(s, g, o);
    }
}

proof fn lemma_shift_open_text_group(s: TokState, g: Seq<char>, o: Position)
    ensures
        open_text_group(shift_state(s, o), g) == shift_result(open_text_group(s, g), o),
    decreases 3 * rem(s) + 3,
{
    if rem(s) >= 0 {
        lemma_shift_bump(s, o);
        lemma_shift_update_open_map(bump(s), false, o);
        lemma_shift_try_closing(update_open_map(bump(s), false), false, o);
        let s3 = try_closing_fixated(update_open_map(bump(s), false), false);
        let outer = s3.open;
        let s5 = TokState {
            graphemes: s.graphemes,
            next: s.next,
            tokens: s3.tokens.push(tok(TokenKind::TextGroupOpen, g, s3.cur)),
            open: super::model::no_open(),
            cur: s3.cur,
            escape: s3.escape,
        };
        lemma_shift_push(s3.tokens, tok(TokenKind::TextGroupOpen, g, s3.cur), o);
        let ss3 = shift_state(s3, o);
        assert(shift_state(s5, o) == TokState {
            graphemes: s.graphemes,
            next: s.next,
            tokens: ss3.tokens.push(tok(TokenKind::TextGroupOpen, g, ss3.cur)),
            open: super::model::no_open(),
            cur: ss3.cur,
            escape: ss3.escape,
        });
        lemma_shift_until(s5, TokenKind::TextGroupClose, s5.tokens.len() as int, o);
        match until(s5, TokenKind::TextGroupClose, s5.tokens.len() as int) {
            Ok(r) => {
                if r.tokens.len() > 0 {
                    let closing = r.tokens.last();
                    let rt = with_tokens(r, r.tokens.drop_last());
                    lemma_shift_drop_last(r.tokens, o);
                    assert(with_tokens(shift_state(r, o), shift_state(r, o).tokens.drop_last()) == shift_state(rt, o));
                    lemma_shift_try_closing(rt, true, o);
                    lemma_shift_cleanup(try_closing_fixated(rt, true), o);
                    let r3 = cleanup(try_closing_fixated(rt, true));
                    lemma_shift_push_tok(r3, closing, o);
                }
            },
            Err(_) => {},
        }
    }
}

proof fn lemma_shift_until(s: TokState, kind: TokenKind, prev_len: int, o: Position)
    ensures
        until(shift_state(s, o), kind, prev_len) == shift_result(until(s, kind, prev_len), o),
    decreases 3 * rem(s) + 2,
{
    if !(s.next < 0 || s.next >= s.graphemes.len()) {
        let g = s.graphemes[s.next];
        let s1 = with_next(s, s.next + 1);
        assert(with_next(shift_state(s, o), s.next + 1) == shift_state(s1, o));
        lemma_shift_update_tokens(s1, g, o);
        match update_tokens(s1, g) {
            Ok(s2) => {
                lemma_shift_fixate(s2, prev_len, o);
                let s5 = fixate(s2, prev_len);
                if 0 <= rem(s5) < rem(s) {
                    lemma_shift_until(s5, kind, s5.tokens.len() as int, o);
                }
            },
            Err(_) => {},
        }
    }
}

/// Starting at an offset only shifts the positions: tokenizing with the first token at `o` gives
/// the tokens that tokenizing from the origin gives, each moved down by `o.line` and, on the
/// first line, right by `o.column` (as positions do, both stop at `usize::MAX`); the errors
/// are the same.
pub proof fn lemma_offset_shifts_positions(input: Seq<char>, o: Position)
    ensures
        spec_tokenize(input, o) == match spec_tokenize(input, Position { line: 0, column: 0 }) {
            Ok(ts) => Ok(shift_tokens(ts, o)),
            Err(e) => Err(e),
        },
{
    let origin = Position { line: 0, column: 0 };
    let s0 = initial(input, origin);
    assert(shift_tokens(s0.tokens, o) =~= Seq::<TokenV>::empty());
    assert(shift_state(s0, o) == initial(input, o));
    lemma_shift_until(s0, TokenKind::Eoi, 0, o);
    match until(s0, TokenKind::Eoi, 0) {
        Ok(s) => {
            lemma_shift_update_open_map(s, true, o);
            lemma_shift_try_closing(update_open_map(s, true), true, o);
            lemma_shift_cleanup(try_closing_fixated(update_open_map(s, true), true), o);
        },
        Err(_) => {},
    }
}

} // verus!
