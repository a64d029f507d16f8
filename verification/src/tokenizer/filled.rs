//! No token is empty: every token holds at least one character of the input.
use super::model::{
    advance, append_last, asterisk_after_bold_close, asterisk_after_bold_italic_open, asterisk_after_bold_open,
    asterisk_after_italic_close, asterisk_after_italic_open, asterisk_after_other, best_slot, bump, cleanup,
    finish_close, fixate, initial, merge_from, open_text_group, plain_merge, push_tok, rem, spec_tokenize,
    split_open, tok, try_closing_fixated, try_closing_text_group, until, update_accent, update_asterisk,
    update_escaped, update_newline, update_open_map, update_run, update_tokens, with_content, with_kind,
    with_next, with_open, with_tokens, TokState, NUM_KINDS,
};
use super::tokens::{kind_str, Position, TokenKind, TokenV};
use crate::text::graphemes_of;
use vstd::prelude::*;

verus! {

/// Every token holds some text.
pub open spec fn filled(ts: Seq<TokenV>) -> bool {
    forall|i: int| 0 <= i < ts.len() ==> (#[trigger] ts[i]).content.len() > 0
}

/// Every grapheme holds some text.
pub open spec fn graphemes_filled(gs: Seq<Seq<char>>) -> bool {
    forall|i: int| 0 <= i < gs.len() ==> (#[trigger] gs[i]).len() > 0
}

proof fn lemma_filled_push(ts: Seq<TokenV>, t: TokenV)
    requires
        filled(ts),
        t.content.len() > 0,
    ensures
        filled(ts.push(t)),
{
    assert forall|i: int| 0 <= i < ts.push(t).len() implies (#[trigger] ts.push(t)[i]).content.len() > 0 by {
        if i < ts.len() {
            assert(ts.push(t)[i] == ts[i]);
        }
    }
}

proof fn lemma_filled_drop_last(ts: Seq<TokenV>)
    requires
        filled(ts),
        ts.len() > 0,
    ensures
        filled(ts.drop_last()),
        ts.last().content.len() > 0,
{
    assert forall|i: int| 0 <= i < ts.drop_last().len() implies (#[trigger] ts.drop_last()[i]).content.len() > 0 by {
        assert(ts.drop_last()[i] == ts[i]);
    }
    assert(ts[ts.len() - 1].content.len() > 0);
}

proof fn lemma_filled_update(ts: Seq<TokenV>, j: int, t: TokenV)
    requires
        filled(ts),
        0 <= j < ts.len(),
        t.content.len() > 0,
    ensures
        filled(ts.update(j, t)),
{
    assert forall|i: int| 0 <= i < ts.update(j, t).len() implies (#[trigger] ts.update(j, t)[i]).content.len() > 0 by {
        if i != j {
            assert(ts.update(j, t)[i] == ts[i]);
        }
    }
}

proof fn lemma_filled_insert(ts: Seq<TokenV>, j: int, t: TokenV)
    requires
        filled(ts),
        0 <= j <= ts.len(),
        t.content.len() > 0,
    ensures
        filled(ts.insert(j, t)),
{
    assert forall|i: int| 0 <= i < ts.insert(j, t).len() implies (#[trigger] ts.insert(j, t)[i]).content.len() > 0 by {
        if i < j {
            assert(ts.insert(j, t)[i] == ts[i]);
        } else if i > j {
            assert(ts.insert(j, t)[i] == ts[i - 1]);
        }
    }
}

proof fn lemma_filled_remove(ts: Seq<TokenV>, j: int)
    requires
        filled(ts),
        0 <= j < ts.len(),
    ensures
        filled(ts.remove(j)),
{
    assert forall|i: int| 0 <= i < ts.remove(j).len() implies (#[trigger] ts.remove(j)[i]).content.len() > 0 by {
        if i < j {
            assert(ts.remove(j)[i] == ts[i]);
        } else {
            assert(ts.remove(j)[i] == ts[i + 1]);
        }
    }
}

proof fn lemma_filled_append_last(ts: Seq<TokenV>, c: Seq<char>)
    requires
        filled(ts),
        ts.len() > 0,
    ensures
        filled(append_last(ts, c)),
{
    lemma_filled_drop_last(ts);
    lemma_filled_update(ts, ts.len() - 1, with_content(ts.last(), ts.last().content + c));
}

proof fn lemma_filled_plain_merge(ts: Seq<TokenV>, index: int)
    requires
        filled(ts),
    ensures
        filled(plain_merge(ts, index)),
{
    if 0 <= index < ts.len() {
        assert(ts[index].content.len() > 0);
        let token = with_kind(ts[index], TokenKind::Plain);
        let ts1 = ts.remove(index);
        lemma_filled_remove(ts, index);
        let merged_next = index < ts1.len() && ts1[index].kind == TokenKind::Plain;
        let token2 = if merged_next {
            with_content(token, token.content + ts1[index].content)
        } else {
            token
        };
        if merged_next {
            lemma_filled_remove(ts1, index);
        }
        let ts2 = if merged_next {
            ts1.remove(index)
        } else {
            ts1
        };
        if index > 0 && ts2[index - 1].kind == TokenKind::Plain {
            assert(ts2[index - 1].content.len() > 0);
            lemma_filled_update(ts2, index - 1, with_content(ts2[index - 1], ts2[index - 1].content + token2.content));
        } else {
            lemma_filled_insert(ts2, index, token2);
        }
    }
}

proof fn lemma_filled_merge_from(ts: Seq<TokenV>, open: Seq<Option<usize>>, lower: usize, fuel: nat)
    requires
        filled(ts),
    ensures
        filled(merge_from(ts, open, lower, fuel)),
    decreases fuel,
{
    if fuel > 0 {
        match best_slot(open, lower, open.len() as int) {
            Some(j) => {
                lemma_filled_plain_merge(ts, open[j]->0 as int);
                lemma_filled_merge_from(plain_merge(ts, open[j]->0 as int), open.update(j, None), lower, (fuel - 1) as nat);
            },
            None => {},
        }
    }
}

proof fn lemma_filled_cleanup(s: TokState)
    requires
        filled(s.tokens),
    ensures
        filled(cleanup(s).tokens),
{
    reveal(cleanup);
    lemma_filled_merge_from(s.tokens, s.open, 0, NUM_KINDS as nat);
}

proof fn lemma_filled_update_open_map(s: TokState, next_is_space: bool)
    requires
        filled(s.tokens),
    ensures
        filled(update_open_map(s, next_is_space).tokens),
{
    reveal(update_open_map);
    if s.tokens.len() > 0 {
        let prev = s.tokens.last();
        let ts = s.tokens.drop_last();
        lemma_filled_drop_last(s.tokens);
        if ts.len() > 0 {
            lemma_filled_append_last(ts, prev.content);
        }
        lemma_filled_push(ts, with_kind(prev, TokenKind::Plain));
        lemma_filled_push(ts, prev);
    }
}

proof fn lemma_filled_split_open(ts: Seq<TokenV>, idx: int, outer: TokenKind, inner: TokenKind)
    requires
        filled(ts),
        0 <= idx < ts.len(),
        kind_str(outer).len() > 0,
        kind_str(inner).len() > 0,
    ensures
        filled(split_open(ts, idx, outer, inner)),
{
    let ot = ts[idx];
    let ot2 = tok(outer, kind_str(outer), ot.position);
    lemma_filled_update(ts, idx, ot2);
    let np = Position {
        line: ot2.position.line,
        column: super::model::sat_add(ot2.position.column, super::tokens::token_len(ot2) as int),
    };
    lemma_filled_insert(ts.update(idx, ot2), idx + 1, tok(inner, kind_str(inner), np));
}

proof fn lemma_filled_try_closing(s: TokState, next_is_space: bool)
    requires
        filled(s.tokens),
    ensures
        filled(try_closing_fixated(s, next_is_space).tokens),
{
    reveal(try_closing_fixated);
    if s.tokens.len() > 0 {
        let last = s.tokens.last();
        let ts = s.tokens.drop_last();
        lemma_filled_drop_last(s.tokens);
        lemma_filled_push(ts, last);
        assert forall|open: Seq<Option<usize>>, oi: usize| true implies filled(
            merge_from(ts.push(last), open, oi, NUM_KINDS as nat),
        ) by {
            lemma_filled_merge_from(ts.push(last), open, oi, NUM_KINDS as nat);
        }
        let bio = TokenKind::BoldItalicOpen;
        if super::model::is_open(s, bio) && (super::model::open_at(s, bio) as int) < ts.len() {
            let idx = super::model::open_at(s, bio) as int;
            assert(kind_str(TokenKind::ItalicOpen).len() > 0);
            assert(kind_str(TokenKind::BoldOpen).len() > 0);
            lemma_filled_split_open(ts, idx, TokenKind::ItalicOpen, TokenKind::BoldOpen);
            lemma_filled_split_open(ts, idx, TokenKind::BoldOpen, TokenKind::ItalicOpen);
            let a = split_open(ts, idx, TokenKind::ItalicOpen, TokenKind::BoldOpen);
            let b = split_open(ts, idx, TokenKind::BoldOpen, TokenKind::ItalicOpen);
            lemma_filled_push(a, last);
            lemma_filled_push(b, last);
            assert forall|open: Seq<Option<usize>>, oi: usize| true implies filled(
                merge_from(a.push(last), open, oi, NUM_KINDS as nat),
            ) && filled(merge_from(b.push(last), open, oi, NUM_KINDS as nat)) by {
                lemma_filled_merge_from(a.push(last), open, oi, NUM_KINDS as nat);
                lemma_filled_merge_from(b.push(last), open, oi, NUM_KINDS as nat);
            }
        }
        if ts.len() > 0 {
            lemma_filled_append_last(ts, last.content);
        }
        lemma_filled_push(ts, with_kind(last, TokenKind::Plain));
        lemma_filled_push(ts, with_kind(last, TokenKind::ItalicOpen));
    }
}

proof fn lemma_filled_simple_steps(s: TokState, g: Seq<char>)
    requires
        filled(s.tokens),
        g.len() > 0,
    ensures
        filled(update_run(s, g, TokenKind::Plain).tokens),
        filled(update_run(s, g, TokenKind::Space).tokens),
        filled(update_escaped(s, g).tokens),
        filled(update_newline(s, g).tokens),
        filled(update_accent(s, g).tokens),
        filled(try_closing_text_group(s, g).tokens),
{
    if s.tokens.len() > 0 {
        lemma_filled_append_last(s.tokens, g);
    }
    assert forall|k: TokenKind, p: Position| true implies filled(s.tokens.push(#[trigger] tok(k, g, p))) by {
        lemma_filled_push(s.tokens, tok(k, g, p));
    }
}

proof fn lemma_filled_after_kinds()
    ensures
        kind_str(TokenKind::ItalicOpen).len() > 0,
        kind_str(TokenKind::ItalicClose).len() > 0,
        kind_str(TokenKind::BoldOpen).len() > 0,
        kind_str(TokenKind::BoldClose).len() > 0,
        kind_str(TokenKind::BoldItalicOpen).len() > 0,
        kind_str(TokenKind::BoldItalicClose).len() > 0,
{
}

proof fn lemma_filled_update_asterisk(s: TokState, g: Seq<char>)
    requires
        filled(s.tokens),
        g.len() > 0,
    ensures
        filled(update_asterisk(s, g).tokens),
{
    reveal(update_asterisk);
    lemma_filled_after_kinds();
    if s.tokens.len() == 0 {
        lemma_filled_push(s.tokens, tok(TokenKind::ItalicOpen, g, s.cur));
    } else {
        let last = s.tokens.last();
        let ts = s.tokens.drop_last();
        lemma_filled_drop_last(s.tokens);
        // every token pushed holds a keyword, the grapheme, or the last token's text
        assert forall|t1: TokenV| #![trigger ts.push(t1)] t1.content.len() > 0 implies filled(ts.push(t1)) by {
            lemma_filled_push(ts, t1);
        }
        assert forall|t1: TokenV, t2: TokenV| #![trigger ts.push(t1).push(t2)] t1.content.len() > 0 && t2.content.len()
            > 0 implies filled(ts.push(t1).push(t2)) by {
            lemma_filled_push(ts, t1);
            lemma_filled_push(ts.push(t1), t2);
        }
        assert forall|t1: TokenV, t2: TokenV, t3: TokenV| #![trigger ts.push(t1).push(t2).push(t3)] t1.content.len() > 0
            && t2.content.len() > 0 && t3.content.len() > 0 implies filled(ts.push(t1).push(t2).push(t3)) by {
            lemma_filled_push(ts, t1);
            lemma_filled_push(ts.push(t1), t2);
            lemma_filled_push(ts.push(t1).push(t2), t3);
        }
        if ts.len() > 0 {
            let l1c = kind_str(TokenKind::ItalicOpen);
            lemma_filled_append_last(ts, l1c);
            let a = append_last(ts, l1c);
            lemma_filled_push(a, tok(TokenKind::BoldItalicOpen, kind_str(TokenKind::BoldItalicOpen), s.cur));
            assert forall|p: Position| true implies filled(
                #[trigger] a.push(tok(TokenKind::BoldItalicOpen, kind_str(TokenKind::BoldItalicOpen), p)),
            ) by {
                lemma_filled_push(a, tok(TokenKind::BoldItalicOpen, kind_str(TokenKind::BoldItalicOpen), p));
            }
        }
    }
}

proof fn lemma_filled_fixate(s2: TokState, prev_len: int)
    requires
        filled(s2.tokens),
    ensures
        filled(fixate(s2, prev_len).tokens),
{
    if s2.tokens.len() != prev_len && s2.tokens.len() > 0 {
        let last = s2.tokens.last();
        let s3 = with_tokens(s2, s2.tokens.drop_last());
        lemma_filled_drop_last(s2.tokens);
        let sp = last.kind.spec_is_space_or_newline();
        lemma_filled_update_open_map(s3, sp);
        lemma_filled_try_closing(update_open_map(s3, sp), sp);
        let s4 = if last.kind != TokenKind::TextGroupClose {
            try_closing_fixated(update_open_map(s3, sp), sp)
        } else {
            s3
        };
        lemma_filled_push(s4.tokens, last);
    }
}

proof fn lemma_filled_update_tokens(s: TokState, g: Seq<char>)
    requires
        filled(s.tokens),
        graphemes_filled(s.graphemes),
        g.len() > 0,
    ensures
        update_tokens(s, g) matches Ok(r) ==> filled(r.tokens) && r.graphemes == s.graphemes,
    decreases 3 * rem(s) + 4,
{
    if rem(s) >= 0 {
        lemma_filled_simple_steps(s, g);
        lemma_filled_update_asterisk(s, g);
        reveal(update_asterisk);
        lemma_filled_open_text_group(s, g);
    }
}

proof fn lemma_filled_open_text_group(s: TokState, g: Seq<char>)
    requires
        filled(s.tokens),
        graphemes_filled(s.graphemes),
        g.len() > 0,
    ensures
        open_text_group(s, g) matches Ok(r) ==> filled(r.tokens) && r.graphemes == s.graphemes,
    decreases 3 * rem(s) + 3,
{
    if rem(s) >= 0 {
        let b = bump(s);
        lemma_filled_update_open_map(b, false);
        lemma_filled_try_closing(update_open_map(b, false), false);
        let s3 = try_closing_fixated(update_open_map(b, false), false);
        reveal(update_open_map);
        reveal(try_closing_fixated);
        let s5 = TokState {
            graphemes: s.graphemes,
            next: s.next,
            tokens: s3.tokens.push(tok(TokenKind::TextGroupOpen, g, s3.cur)),
            open: super::model::no_open(),
            cur: s3.cur,
            escape: s3.escape,
        };
        lemma_filled_push(s3.tokens, tok(TokenKind::TextGroupOpen, g, s3.cur));
        lemma_filled_until(s5, TokenKind::TextGroupClose, s5.tokens.len() as int);
        match until(s5, TokenKind::TextGroupClose, s5.tokens.len() as int) {
            Ok(r) => {
                if r.tokens.len() > 0 {
                    let closing = r.tokens.last();
                    let rt = with_tokens(r, r.tokens.drop_last());
                    lemma_filled_drop_last(r.tokens);
                    lemma_filled_try_closing(rt, true);
                    lemma_filled_cleanup(try_closing_fixated(rt, true));
                    let r3 = cleanup(try_closing_fixated(rt, true));
                    lemma_filled_push(r3.tokens, closing);
                    reveal(cleanup);
                }
            },
            Err(_) => {},
        }
    }
}

proof fn lemma_filled_until(s: TokState, kind: TokenKind, prev_len: int)
    requires
        filled(s.tokens),
        graphemes_filled(s.graphemes),
    ensures
        until(s, kind, prev_len) matches Ok(r) ==> filled(r.tokens) && r.graphemes == s.graphemes,
    decreases 3 * rem(s) + 2,
{
    if !(s.next < 0 || s.next >= s.graphemes.len()) {
        let g = s.graphemes[s.next];
        let s1 = with_next(s, s.next + 1);
        lemma_filled_update_tokens(s1, g);
        match update_tokens(s1, g) {
            Ok(s2) => {
                lemma_filled_fixate(s2, prev_len);
                let s5 = fixate(s2, prev_len);
                reveal(update_open_map);
                reveal(try_closing_fixated);
                if 0 <= rem(s5) < rem(s) {
                    lemma_filled_until(s5, kind, s5.tokens.len() as int);
                }
            },
            Err(_) => {},
        }
    }
}

/// No token is empty: where the graphemes of the input are not empty (as the grapheme split
/// gives them), every token that tokenizing makes holds some text.
pub proof fn lemma_tokens_not_empty(input: Seq<char>, offset: Position)
    requires
        graphemes_filled(graphemes_of(input)),
    ensures
        spec_tokenize(input, offset) matches Ok(ts) ==> filled(ts),
{
    let s0 = initial(input, offset);
    lemma_filled_until(s0, TokenKind::Eoi, 0);
    match until(s0, TokenKind::Eoi, 0) {
        Ok(s) => {
            lemma_filled_update_open_map(s, true);
            lemma_filled_try_closing(update_open_map(s, true), true);
            lemma_filled_cleanup(try_closing_fixated(update_open_map(s, true), true));
        },
        Err(_) => {},
    }
}

} // verus!
