//! What the tokens hold: their contents, one after the other, are the input itself,
//! without the backslashes that escape a grapheme.
use super::model::{
    append_last, best_slot, cleanup, code, finish_close, fixate, is_open, keep_below, lemma_best_slot, merge_from,
    no_open, open_at, plain_merge, set_open, split_open, try_closing_fixated, try_closing_text_group,
    update_accent, update_escaped, update_newline, update_open_map, update_run, update_tokens,
    with_content, with_escape, with_kind, with_open, with_tokens, rem, TokState, NUM_KINDS,
    update_asterisk, asterisk_after_italic_open, asterisk_after_bold_open,
    asterisk_after_bold_italic_open, asterisk_after_italic_close, asterisk_after_bold_close,
    asterisk_after_other, advance, push_tok, tok, preceded_by_space, bump, initial, open_text_group,
    spec_tokenize, until, with_next,
};
use super::tokens::{kind_str, single_kind_of, Position, SingleTokenKind, TokenKind, TokenV};
use crate::text::{flatten, graphemes_of};
use vstd::prelude::*;

verus! {

/// The contents of tokens, one after the other.
pub open spec fn contents(ts: Seq<TokenV>) -> Seq<char>
    decreases ts.len(),
{
    if ts.len() == 0 {
        Seq::empty()
    } else {
        contents(ts.drop_last()) + ts.last().content
    }
}

pub proof fn lemma_contents_concat(a: Seq<TokenV>, b: Seq<TokenV>)
    ensures
        contents(a + b) == contents(a) + contents(b),
    decreases b.len(),
{
    if b.len() == 0 {
        assert(a + b =~= a);
        assert(contents(a) + contents(b) =~= contents(a));
    } else {
        lemma_contents_concat(a, b.drop_last());
        assert((a + b).drop_last() =~= a + b.drop_last());
        assert((a + b).last() == b.last());
        assert(contents(a + b) =~= contents(a) + contents(b));
    }
}

pub proof fn lemma_contents_one(t: TokenV)
    ensures
        contents(seq![t]) == t.content,
{
    let e = Seq::<TokenV>::empty();
    assert(seq![t].drop_last() =~= e);
    assert(contents(e) == Seq::<char>::empty());
    assert(contents(seq![t]) == contents(e) + t.content);
    assert(contents(e) + t.content =~= t.content);
}

/// The contents around one token.
pub proof fn lemma_contents_at(ts: Seq<TokenV>, i: int)
    requires
        0 <= i < ts.len(),
    ensures
        contents(ts) == contents(ts.take(i)) + ts[i].content + contents(ts.skip(i + 1)),
{
    assert(ts =~= ts.take(i) + seq![ts[i]] + ts.skip(i + 1));
    lemma_contents_concat(ts.take(i) + seq![ts[i]], ts.skip(i + 1));
    lemma_contents_concat(ts.take(i), seq![ts[i]]);
    lemma_contents_one(ts[i]);
}

pub proof fn lemma_contents_push(ts: Seq<TokenV>, t: TokenV)
    ensures
        contents(ts.push(t)) == contents(ts) + t.content,
{
    assert(ts.push(t).drop_last() =~= ts);
}

/// The contents of a run of tokens that starts with `[a, b]`.
proof fn lemma_contents_pair(pre: Seq<TokenV>, a: TokenV, b: TokenV, post: Seq<TokenV>)
    ensures
        contents(pre + seq![a, b] + post) == contents(pre) + a.content + b.content + contents(post),
{
    assert(pre + seq![a, b] + post =~= pre + seq![a] + seq![b] + post);
    lemma_contents_concat(pre + seq![a] + seq![b], post);
    lemma_contents_concat(pre + seq![a], seq![b]);
    lemma_contents_concat(pre, seq![a]);
    lemma_contents_one(a);
    lemma_contents_one(b);
}

/// Kinds whose text is fixed: the asterisk keywords.
pub open spec fn asterisk_kind(k: TokenKind) -> bool {
    k == TokenKind::BoldOpen || k == TokenKind::BoldClose || k == TokenKind::ItalicOpen || k
        == TokenKind::ItalicClose || k == TokenKind::BoldItalicOpen || k == TokenKind::BoldItalicClose
}

/// Every asterisk keyword token holds exactly the text of its kind.
pub open spec fn fixed_texts(ts: Seq<TokenV>) -> bool {
    forall|i: int| 0 <= i < ts.len() && asterisk_kind(#[trigger] ts[i].kind) ==> ts[i].content == kind_str(ts[i].kind)
}

/// Tokens before `pb` that are not plain text are kept, at the same place.
pub open spec fn frame(a: Seq<TokenV>, b: Seq<TokenV>, pb: int) -> bool {
    forall|q: int| 0 <= q < pb && q < a.len() && #[trigger] a[q].kind != TokenKind::Plain ==> q < b.len() && b[q] == a[q]
}

pub proof fn lemma_frame_trans(a: Seq<TokenV>, b: Seq<TokenV>, c: Seq<TokenV>, pb: int)
    requires
        frame(a, b, pb),
        frame(b, c, pb),
    ensures
        frame(a, c, pb),
{
    assert forall|q: int| 0 <= q < pb && q < a.len() && #[trigger] a[q].kind != TokenKind::Plain implies q < c.len() && c[q] == a[q] by {
        assert(b[q] == a[q]);
    }
}

/// The shape of [`plain_merge`]: the tokens before the index stay, except that a plain token
/// right before it takes up the merged text; the tokens after it stay, except that a plain
/// token right after it is merged in.
pub open spec fn merged_text(ts: Seq<TokenV>, index: int) -> Seq<char> {
    let post = ts.skip(index + 1);
    if post.len() > 0 && post[0].kind == TokenKind::Plain {
        ts[index].content + post[0].content
    } else {
        ts[index].content
    }
}

pub open spec fn merged_rest(ts: Seq<TokenV>, index: int) -> Seq<TokenV> {
    let post = ts.skip(index + 1);
    if post.len() > 0 && post[0].kind == TokenKind::Plain {
        post.skip(1)
    } else {
        post
    }
}

proof fn lemma_plain_merge_shape(ts: Seq<TokenV>, index: int)
    requires
        0 <= index < ts.len(),
    ensures
        ({
            let pre = ts.take(index);
            let token2 = with_content(with_kind(ts[index], TokenKind::Plain), merged_text(ts, index));
            let r = plain_merge(ts, index);
            if index > 0 && pre.last().kind == TokenKind::Plain {
                r == pre.drop_last() + seq![with_content(pre.last(), pre.last().content + merged_text(ts, index))]
                    + merged_rest(ts, index)
            } else {
                r == pre + seq![token2] + merged_rest(ts, index)
            }
        }),
{
    let pre = ts.take(index);
    let post = ts.skip(index + 1);
    let ts1 = ts.remove(index);
    assert(ts1 =~= pre + post);
    let merged_next = index < ts1.len() && ts1[index].kind == TokenKind::Plain;
    if index < ts1.len() {
        assert(ts1[index] == post[0]);
    }
    let ts2 = if merged_next {
        ts1.remove(index)
    } else {
        ts1
    };
    assert(ts2 =~= pre + merged_rest(ts, index));
    if index > 0 {
        assert(ts2[index - 1] == pre.last());
    }
    let r = plain_merge(ts, index);
    if index > 0 && pre.last().kind == TokenKind::Plain {
        assert(r =~= pre.drop_last() + seq![with_content(pre.last(), pre.last().content + merged_text(ts, index))]
            + merged_rest(ts, index));
    } else {
        assert(r =~= pre + seq![with_content(with_kind(ts[index], TokenKind::Plain), merged_text(ts, index))]
            + merged_rest(ts, index));
    }
}

proof fn lemma_merged_contents(ts: Seq<TokenV>, index: int)
    requires
        0 <= index < ts.len(),
    ensures
        contents(ts) == contents(ts.take(index)) + merged_text(ts, index) + contents(merged_rest(ts, index)),
{
    lemma_contents_at(ts, index);
    let post = ts.skip(index + 1);
    if post.len() > 0 && post[0].kind == TokenKind::Plain {
        lemma_contents_at(post, 0);
        assert(post.take(0) =~= Seq::<TokenV>::empty());
        assert(post.skip(1) == merged_rest(ts, index));
        assert(contents(Seq::<TokenV>::empty()) =~= Seq::<char>::empty());
        assert(contents(ts) =~= contents(ts.take(index)) + merged_text(ts, index) + contents(merged_rest(ts, index)));
    }
}

/// Turning a token into plain text keeps the contents, the fixed texts, and every token
/// before it that is not plain text.
pub proof fn lemma_plain_merge(ts: Seq<TokenV>, index: int)
    ensures
        contents(plain_merge(ts, index)) == contents(ts),
        fixed_texts(ts) ==> fixed_texts(plain_merge(ts, index)),
        frame(ts, plain_merge(ts, index), index),
        ts.len() > 0 ==> plain_merge(ts, index).len() > 0,
{
    if 0 <= index < ts.len() {
        lemma_plain_merge_shape(ts, index);
        lemma_merged_contents(ts, index);
        let pre = ts.take(index);
        let rest = merged_rest(ts, index);
        let r = plain_merge(ts, index);
        if index > 0 && pre.last().kind == TokenKind::Plain {
            let p2 = with_content(pre.last(), pre.last().content + merged_text(ts, index));
            lemma_contents_concat(pre.drop_last() + seq![p2], rest);
            lemma_contents_concat(pre.drop_last(), seq![p2]);
            lemma_contents_one(p2);
            assert(contents(pre) == contents(pre.drop_last()) + pre.last().content);
            assert(contents(r) =~= contents(ts));
        } else {
            let t2 = with_content(with_kind(ts[index], TokenKind::Plain), merged_text(ts, index));
            lemma_contents_concat(pre + seq![t2], rest);
            lemma_contents_concat(pre, seq![t2]);
            lemma_contents_one(t2);
            assert(contents(r) =~= contents(ts));
        }
        assert forall|q: int| 0 <= q < index && q < ts.len() && #[trigger] ts[q].kind != TokenKind::Plain implies q < r.len() && r[q] == ts[q] by {
            assert(pre[q] == ts[q]);
        }
        if fixed_texts(ts) {
            assert forall|i: int| 0 <= i < r.len() && asterisk_kind(#[trigger] r[i].kind) implies r[i].content == kind_str(r[i].kind) by {
                let post = ts.skip(index + 1);
                let d: int = if post.len() > 0 && post[0].kind == TokenKind::Plain { 1 } else { 0 };
                if i < index - 1 || (i == index - 1 && !(pre.last().kind == TokenKind::Plain)) {
                    assert(r[i] == ts[i]);
                } else if i > index || (i == index && index > 0 && pre.last().kind == TokenKind::Plain) {
                    let k = if index > 0 && pre.last().kind == TokenKind::Plain { i - index } else { i - index - 1 };
                    assert(r[i] == rest[k]);
                    assert(rest[k] == ts[index + 1 + d + k]);
                }
            }
        }
    }
}

/// Turning the open tokens at or above `lower` into plain text keeps the contents, the fixed
/// texts, and every token that is not plain text below all those open tokens.
pub proof fn lemma_merge_from(ts: Seq<TokenV>, open: Seq<Option<usize>>, lower: usize, fuel: nat, pb: int)
    requires
        forall|i: int| 0 <= i < open.len() && #[trigger] open[i] is Some && open[i]->0 >= lower ==> open[i]->0 >= pb,
    ensures
        contents(merge_from(ts, open, lower, fuel)) == contents(ts),
        fixed_texts(ts) ==> fixed_texts(merge_from(ts, open, lower, fuel)),
        frame(ts, merge_from(ts, open, lower, fuel), pb),
        ts.len() > 0 ==> merge_from(ts, open, lower, fuel).len() > 0,
    decreases fuel,
{
    if fuel > 0 {
        lemma_best_slot(open, lower, open.len() as int);
        match best_slot(open, lower, open.len() as int) {
            Some(j) => {
                let p = open[j]->0 as int;
                let ts1 = plain_merge(ts, p);
                lemma_plain_merge(ts, p);
                assert(frame(ts, ts1, pb)) by {
                    assert forall|q: int| 0 <= q < pb && q < ts.len() && #[trigger] ts[q].kind != TokenKind::Plain implies q < ts1.len() && ts1[q] == ts[q] by {
                        assert(q < p);
                    }
                }
                let open1 = open.update(j, None);
                assert forall|i: int| 0 <= i < open1.len() && #[trigger] open1[i] is Some && open1[i]->0 >= lower implies open1[i]->0 >= pb by {
                    assert(open1[i] == open[i]);
                }
                lemma_merge_from(ts1, open1, lower, (fuel - 1) as nat, pb);
                lemma_frame_trans(ts, ts1, merge_from(ts1, open1, lower, (fuel - 1) as nat), pb);
            },
            None => {},
        }
    }
}

/// Kinds that open a scope and are registered in the table of open tokens.
pub open spec fn opening_kind(k: TokenKind) -> bool {
    k == TokenKind::BoldOpen || k == TokenKind::ItalicOpen || k == TokenKind::BoldItalicOpen || k
        == TokenKind::EmojiOpen || k == TokenKind::VerbatimOpen || k == TokenKind::TextGroupOpen
}

/// Each entry of the table of open tokens points below `bound` to an opening token of the
/// entry's own kind.
pub open spec fn entries_ok(open: Seq<Option<usize>>, ts: Seq<TokenV>, bound: int) -> bool {
    &&& open.len() == NUM_KINDS
    &&& forall|i: int|
        0 <= i < NUM_KINDS && #[trigger] open[i] is Some ==> {
            let e = open[i]->0 as int;
            &&& e < bound
            &&& e < ts.len()
            &&& code(ts[e].kind) == i
            &&& opening_kind(ts[e].kind)
        }
}

/// The entries of the table lie in the scope that starts at `pb`; only the text group that
/// opens the scope lies right before it.
pub open spec fn in_scope(open: Seq<Option<usize>>, pb: int) -> bool {
    forall|i: int|
        0 <= i < open.len() && #[trigger] open[i] is Some ==> open[i]->0 >= pb || (i == code(
            TokenKind::TextGroupOpen,
        ) && open[i]->0 == pb - 1)
}

/// The scope starts at `pb`: at the start of the input, or right after the opening token of
/// the text group it is in.
pub open spec fn scope_start(ts: Seq<TokenV>, pb: int) -> bool {
    pb == 0 || (0 < pb <= ts.len() && ts[pb - 1].kind == TokenKind::TextGroupOpen)
}

pub proof fn lemma_frame_weaken(a: Seq<TokenV>, b: Seq<TokenV>, x: int, y: int)
    requires
        frame(a, b, x),
        y <= x,
    ensures
        frame(a, b, y),
{
}

pub proof fn lemma_frame_refl(a: Seq<TokenV>, pb: int)
    ensures
        frame(a, a, pb),
{
}

/// Two entries never point to the same token.
pub proof fn lemma_entries_distinct(open: Seq<Option<usize>>, ts: Seq<TokenV>, bound: int, i: int, j: int)
    requires
        entries_ok(open, ts, bound),
        0 <= i < NUM_KINDS,
        0 <= j < NUM_KINDS,
        open[i] is Some,
        open[j] is Some,
        i != j,
    ensures
        open[i]->0 != open[j]->0,
{
}

pub proof fn lemma_scope_start_frame(a: Seq<TokenV>, b: Seq<TokenV>, pb: int)
    requires
        scope_start(a, pb),
        frame(a, b, pb),
    ensures
        scope_start(b, pb),
{
    if pb > 0 {
        assert(a[pb - 1].kind != TokenKind::Plain);
    }
}

/// Registering the last token keeps the contents and fixed texts, and keeps the scope.
pub proof fn lemma_update_open_map(s: TokState, next_is_space: bool, pb: int)
    requires
        s.tokens.len() <= usize::MAX,
        fixed_texts(s.tokens),
        entries_ok(s.open, s.tokens, s.tokens.len() - 1),
        in_scope(s.open, pb),
        scope_start(s.tokens, pb),
    ensures
        ({
            let r = update_open_map(s, next_is_space);
            &&& contents(r.tokens) == contents(s.tokens)
            &&& fixed_texts(r.tokens)
            &&& entries_ok(r.open, r.tokens, r.tokens.len() as int)
            &&& in_scope(r.open, pb)
            &&& frame(s.tokens, r.tokens, pb)
            &&& scope_start(r.tokens, pb)
            &&& (s.tokens.len() > 0 ==> r.tokens.len() > 0)
            &&& r.tokens.len() <= s.tokens.len()
            &&& r.graphemes == s.graphemes && r.next == s.next && r.cur == s.cur && r.escape == s.escape
        }),
{
    reveal(update_open_map);
    let r = update_open_map(s, next_is_space);
    if s.tokens.len() > 0 {
        let prev = s.tokens.last();
        let ts = s.tokens.drop_last();
        let k = prev.kind;
        let vacant = s.open[code(k)] is None;
        let formatting = k == TokenKind::BoldOpen || k == TokenKind::ItalicOpen || k
            == TokenKind::BoldItalicOpen || k == TokenKind::EmojiOpen;
        let enclosing = k == TokenKind::VerbatimOpen || k == TokenKind::TextGroupOpen;
        let registers = vacant && ((formatting && !next_is_space) || enclosing);
        let pk = if !vacant || (formatting && next_is_space) {
            TokenKind::Plain
        } else {
            k
        };
        assert(s.tokens =~= ts.push(prev));
        lemma_contents_push(ts, prev);
        if s.tokens.len() - 1 < pb {
            // the last token opens the current scope: it is registered unchanged
            assert(k == TokenKind::TextGroupOpen);
            assert(vacant) by {
                if !vacant {
                    let e = s.open[code(k)]->0 as int;
                    assert(0 <= code(k) < NUM_KINDS);
                }
            }
        }
        if ts.len() > 0 && ts.last().kind == TokenKind::Plain && pk == TokenKind::Plain {
            let t2 = with_content(ts.last(), ts.last().content + prev.content);
            assert(r.tokens == append_last(ts, prev.content));
            assert(r.tokens =~= ts.drop_last().push(t2));
            lemma_contents_push(ts.drop_last(), t2);
            lemma_contents_push(ts.drop_last(), ts.last());
            assert(ts.drop_last().push(ts.last()) =~= ts);
            assert(contents(r.tokens) =~= contents(s.tokens));
            assert forall|i: int| 0 <= i < r.tokens.len() && asterisk_kind(#[trigger] r.tokens[i].kind) implies r.tokens[i].content == kind_str(r.tokens[i].kind) by {
                assert(r.tokens[i] == s.tokens[i]);
            }
            assert forall|q: int| 0 <= q < pb && q < s.tokens.len() && #[trigger] s.tokens[q].kind != TokenKind::Plain implies q < r.tokens.len() && r.tokens[q] == s.tokens[q] by {
            }
        } else {
            let t2 = with_kind(prev, pk);
            assert(r.tokens == ts.push(t2));
            lemma_contents_push(ts, t2);
            assert forall|i: int| 0 <= i < r.tokens.len() && asterisk_kind(#[trigger] r.tokens[i].kind) implies r.tokens[i].content == kind_str(r.tokens[i].kind) by {
                assert(r.tokens[i] == s.tokens[i] || i == ts.len());
            }
        }
        let new_open = if registers {
            set_open(s.open, k, Some(ts.len() as usize))
        } else {
            s.open
        };
        assert(r.open == new_open);
        assert(registers ==> pk == k && opening_kind(k));
        assert forall|i: int| 0 <= i < NUM_KINDS && #[trigger] r.open[i] is Some implies {
            let e = r.open[i]->0 as int;
            &&& e < r.tokens.len()
            &&& code(r.tokens[e].kind) == i
            &&& opening_kind(r.tokens[e].kind)
        } by {
            if registers && i == code(k) {
                assert(r.open[i] == Some(ts.len() as usize));
                assert(r.tokens == ts.push(with_kind(prev, pk)));
                assert(r.tokens[ts.len() as int] == with_kind(prev, k));
            } else {
                assert(r.open[i] == s.open[i]);
                let e = s.open[i]->0 as int;
                assert(e < ts.len());
                assert(opening_kind(s.tokens[e].kind));
                assert(s.tokens[e] == ts[e]);
                assert(r.tokens[e] == s.tokens[e]);
            }
        }
        assert forall|i: int| 0 <= i < r.open.len() && #[trigger] r.open[i] is Some implies r.open[i]->0 >= pb || (i == code(TokenKind::TextGroupOpen) && r.open[i]->0 == pb - 1) by {
            if registers && i == code(k) {
                assert(r.open[i] == Some(ts.len() as usize));
                if ts.len() < pb {
                    assert(ts.len() == pb - 1);
                    assert(s.tokens[pb - 1] == prev);
                    assert(k == TokenKind::TextGroupOpen);
                }
            } else {
                assert(r.open[i] == s.open[i]);
            }
        }
        lemma_scope_start_frame(s.tokens, r.tokens, pb);
    }
}

/// The entry `i` points to a token of its own kind in `ts`.
pub open spec fn entry_valid(ts: Seq<TokenV>, i: int, e: int) -> bool {
    &&& 0 <= e < ts.len()
    &&& code(ts[e].kind) == i
    &&& opening_kind(ts[e].kind)
}

/// Completing a closing token keeps the contents and what lies before the matching open token.
proof fn lemma_finish_close(
    s: TokState,
    ts: Seq<TokenV>,
    last: TokenV,
    open: Seq<Option<usize>>,
    open_index: usize,
    upd: Seq<Option<usize>>,
    pb: int,
)
    requires
        open.len() == NUM_KINDS,
        upd.len() == NUM_KINDS,
        pb <= open_index,
        fixed_texts(ts.push(last)),
        forall|i: int| 0 <= i < NUM_KINDS && #[trigger] open[i] is Some ==> open[i]->0 != open_index,
        forall|i: int|
            0 <= i < NUM_KINDS && #[trigger] open[i] is Some && open[i]->0 < open_index ==> entry_valid(
                ts,
                i,
                open[i]->0 as int,
            ) && (open[i]->0 >= pb || (i == code(TokenKind::TextGroupOpen) && open[i]->0 == pb - 1)),
        forall|i: int|
            0 <= i < NUM_KINDS && #[trigger] upd[i] is Some ==> upd[i]->0 == open_index && entry_valid(
                ts,
                i,
                open_index as int,
            ),
    ensures
        ({
            let r = finish_close(s, ts, last, open, open_index, upd);
            &&& contents(r.tokens) == contents(ts) + last.content
            &&& fixed_texts(r.tokens)
            &&& entries_ok(r.open, r.tokens, r.tokens.len() as int)
            &&& in_scope(r.open, pb)
            &&& frame(ts.push(last), r.tokens, pb)
            &&& r.tokens.len() > 0
            &&& r.tokens.len() <= ts.len() + 1
            &&& r.graphemes == s.graphemes && r.next == s.next && r.cur == s.cur && r.escape == s.escape
        }),
{
    let t1 = ts.push(last);
    lemma_contents_push(ts, last);
    lemma_merge_from(t1, open, open_index, NUM_KINDS as nat, open_index + 1);
    lemma_merge_from_len(t1, open, open_index, NUM_KINDS as nat);
    let m = merge_from(t1, open, open_index, NUM_KINDS as nat);
    lemma_frame_weaken(t1, m, open_index + 1, pb);
    let r = finish_close(s, ts, last, open, open_index, upd);
    assert(r.tokens == m);
    let kb = keep_below(open, open_index, upd);
    assert(r.open == kb);
    assert forall|i: int| 0 <= i < NUM_KINDS && #[trigger] kb[i] is Some implies {
        let e = kb[i]->0 as int;
        &&& e < m.len()
        &&& e < m.len()
        &&& code(m[e].kind) == i
        &&& opening_kind(m[e].kind)
    } by {
        if open[i] is Some && open[i]->0 < open_index {
            let e = open[i]->0 as int;
            assert(entry_valid(ts, i, e));
            assert(t1[e] == ts[e]);
            assert(t1[e].kind != TokenKind::Plain);
        } else {
            assert(kb[i] == upd[i]);
            let e = open_index as int;
            assert(entry_valid(ts, i, e));
            assert(t1[e] == ts[e]);
            assert(t1[e].kind != TokenKind::Plain);
        }
    }
    assert forall|i: int| 0 <= i < kb.len() && #[trigger] kb[i] is Some implies kb[i]->0 >= pb || (i == code(TokenKind::TextGroupOpen) && kb[i]->0 == pb - 1) by {
        if open[i] is Some && open[i]->0 < open_index {
        } else {
            assert(kb[i] == upd[i]);
        }
    }
}

/// Merging keeps the number of tokens or lowers it.
pub proof fn lemma_merge_from_len(ts: Seq<TokenV>, open: Seq<Option<usize>>, lower: usize, fuel: nat)
    ensures
        merge_from(ts, open, lower, fuel).len() <= ts.len(),
    decreases fuel,
{
    if fuel > 0 {
        match best_slot(open, lower, open.len() as int) {
            Some(j) => {
                let p = open[j]->0 as int;
                lemma_plain_merge_len(ts, p);
                lemma_merge_from_len(plain_merge(ts, p), open.update(j, None), lower, (fuel - 1) as nat);
            },
            None => {},
        }
    }
}

pub proof fn lemma_plain_merge_len(ts: Seq<TokenV>, index: int)
    ensures
        plain_merge(ts, index).len() <= ts.len(),
{
    if 0 <= index < ts.len() {
        lemma_plain_merge_shape(ts, index);
    }
}

/// Splitting an ambiguous `***` into its two halves keeps the contents and every token before it.
proof fn lemma_split_open(ts: Seq<TokenV>, idx: int, outer: TokenKind, inner: TokenKind)
    requires
        0 <= idx < ts.len(),
        ts[idx].kind == TokenKind::BoldItalicOpen,
        fixed_texts(ts),
        (outer == TokenKind::ItalicOpen && inner == TokenKind::BoldOpen) || (outer == TokenKind::BoldOpen
            && inner == TokenKind::ItalicOpen),
    ensures
        ({
            let r = split_open(ts, idx, outer, inner);
            &&& contents(r) == contents(ts)
            &&& fixed_texts(r)
            &&& r.len() == ts.len() + 1
            &&& r[idx].kind == outer
            &&& forall|q: int| 0 <= q < idx ==> #[trigger] r[q] == ts[q]
        }),
{
    let r = split_open(ts, idx, outer, inner);
    let a = r[idx];
    let b = r[idx + 1];
    assert(r =~= ts.take(idx) + seq![a, b] + ts.skip(idx + 1));
    lemma_contents_pair(ts.take(idx), a, b, ts.skip(idx + 1));
    lemma_contents_at(ts, idx);
    assert(a.content + b.content =~= ts[idx].content);
    assert forall|i: int| 0 <= i < r.len() && asterisk_kind(#[trigger] r[i].kind) implies r[i].content == kind_str(r[i].kind) by {
        if i < idx {
            assert(r[i] == ts[i]);
        } else if i > idx + 1 {
            assert(r[i] == ts[i - 1]);
        }
    }
}

/// What every rewrite of the tokens after a fixed token keeps.
pub open spec fn closing_kept(s: TokState, r: TokState, pb: int) -> bool {
    &&& contents(r.tokens) == contents(s.tokens)
    &&& fixed_texts(r.tokens)
    &&& entries_ok(r.open, r.tokens, r.tokens.len() as int)
    &&& in_scope(r.open, pb)
    &&& frame(s.tokens, r.tokens, pb)
    &&& scope_start(r.tokens, pb)
    &&& (s.tokens.len() > 0 ==> r.tokens.len() > 0)
    &&& r.tokens.len() <= s.tokens.len() + 1
    &&& r.graphemes == s.graphemes && r.next == s.next && r.cur == s.cur && r.escape == s.escape
}

/// The state a fixed token is closed in.
pub open spec fn closing_ready(s: TokState, pb: int) -> bool {
    &&& s.tokens.len() <= usize::MAX
    &&& fixed_texts(s.tokens)
    &&& entries_ok(s.open, s.tokens, s.tokens.len() as int)
    &&& in_scope(s.open, pb)
    &&& scope_start(s.tokens, pb)
}

/// A token that does not open anything is not in the table.
proof fn lemma_last_unregistered(s: TokState, pb: int)
    requires
        closing_ready(s, pb),
        s.tokens.len() > 0,
        !opening_kind(s.tokens.last().kind),
    ensures
        entries_ok(s.open, s.tokens.drop_last(), s.tokens.len() - 1),
{
    let ts = s.tokens.drop_last();
    assert forall|i: int| 0 <= i < NUM_KINDS && #[trigger] s.open[i] is Some implies {
        let e = s.open[i]->0 as int;
        &&& e < s.tokens.len() - 1
        &&& e < ts.len()
        &&& code(ts[e].kind) == i
        &&& opening_kind(ts[e].kind)
    } by {
        let e = s.open[i]->0 as int;
        if e == s.tokens.len() - 1 {
            assert(opening_kind(s.tokens[e].kind));
        }
        assert(ts[e] == s.tokens[e]);
    }
}

/// The finishing of a close, given its parts.
proof fn lemma_close_simple(s: TokState, k: TokenKind, pb: int)
    requires
        closing_ready(s, pb),
        s.tokens.len() > 0,
        !opening_kind(s.tokens.last().kind),
        k == TokenKind::BoldOpen || k == TokenKind::ItalicOpen || k == TokenKind::BoldItalicOpen || k
            == TokenKind::VerbatimOpen,
        is_open(s, k),
    ensures
        closing_kept(
            s,
            finish_close(
                s,
                s.tokens.drop_last(),
                s.tokens.last(),
                set_open(s.open, k, None),
                open_at(s, k),
                no_open(),
            ),
            pb,
        ),
{
    let ts = s.tokens.drop_last();
    let last = s.tokens.last();
    lemma_last_unregistered(s, pb);
    let open = set_open(s.open, k, None);
    let oi = open_at(s, k);
    assert(s.tokens =~= ts.push(last));
    assert forall|i: int| 0 <= i < NUM_KINDS && #[trigger] open[i] is Some implies open[i]->0 != oi by {
        assert(i != code(k));
        lemma_entries_distinct(s.open, ts, s.tokens.len() - 1, i, code(k));
    }
    assert forall|i: int|
        0 <= i < NUM_KINDS && #[trigger] open[i] is Some && open[i]->0 < oi implies entry_valid(
            ts,
            i,
            open[i]->0 as int,
        ) && (open[i]->0 >= pb || (i == code(TokenKind::TextGroupOpen) && open[i]->0 == pb - 1)) by {
        assert(open[i] == s.open[i]);
    }
    lemma_finish_close(s, ts, last, open, oi, no_open(), pb);
    let r = finish_close(s, ts, last, open, oi, no_open());
    lemma_contents_push(ts, last);
    lemma_scope_start_frame(s.tokens, r.tokens, pb);
}

/// Closing one half of an ambiguous `***`: it is split, and its other half stays open.
proof fn lemma_close_split(s: TokState, outer: TokenKind, inner: TokenKind, pb: int)
    requires
        closing_ready(s, pb),
        s.tokens.len() > 0,
        !opening_kind(s.tokens.last().kind),
        (outer == TokenKind::ItalicOpen && inner == TokenKind::BoldOpen) || (outer == TokenKind::BoldOpen
            && inner == TokenKind::ItalicOpen),
        is_open(s, TokenKind::BoldItalicOpen),
        (open_at(s, TokenKind::BoldItalicOpen) as int) < s.tokens.len() - 1,
    ensures
        ({
            let bio = TokenKind::BoldItalicOpen;
            let idx = open_at(s, bio);
            closing_kept(
                s,
                finish_close(
                    s,
                    split_open(s.tokens.drop_last(), idx as int, outer, inner),
                    s.tokens.last(),
                    set_open(s.open, bio, None),
                    idx,
                    set_open(no_open(), outer, Some(idx)),
                ),
                pb,
            )
        }),
{
    let bio = TokenKind::BoldItalicOpen;
    let ts = s.tokens.drop_last();
    let last = s.tokens.last();
    lemma_last_unregistered(s, pb);
    let idx = open_at(s, bio);
    assert(code(ts[idx as int].kind) == code(bio));
    assert(ts[idx as int].kind == bio);
    assert(fixed_texts(ts)) by {
        assert forall|i: int| 0 <= i < ts.len() && asterisk_kind(#[trigger] ts[i].kind) implies ts[i].content == kind_str(ts[i].kind) by {
            assert(ts[i] == s.tokens[i]);
        }
    }
    lemma_split_open(ts, idx as int, outer, inner);
    let ts2 = split_open(ts, idx as int, outer, inner);
    let open = set_open(s.open, bio, None);
    let upd = set_open(no_open(), outer, Some(idx));
    assert(s.tokens =~= ts.push(last));
    assert(fixed_texts(ts2.push(last))) by {
        assert forall|i: int| 0 <= i < ts2.push(last).len() && asterisk_kind(#[trigger] ts2.push(last)[i].kind) implies ts2.push(last)[i].content == kind_str(ts2.push(last)[i].kind) by {
            if i == ts2.len() {
                assert(last == s.tokens[s.tokens.len() - 1]);
            } else {
                assert(ts2.push(last)[i] == ts2[i]);
            }
        }
    }
    assert forall|i: int| 0 <= i < NUM_KINDS && #[trigger] open[i] is Some implies open[i]->0 != idx by {
        assert(i != code(bio));
        lemma_entries_distinct(s.open, ts, s.tokens.len() - 1, i, code(bio));
    }
    assert forall|i: int|
        0 <= i < NUM_KINDS && #[trigger] open[i] is Some && open[i]->0 < idx implies entry_valid(
            ts2,
            i,
            open[i]->0 as int,
        ) && (open[i]->0 >= pb || (i == code(TokenKind::TextGroupOpen) && open[i]->0 == pb - 1)) by {
        assert(open[i] == s.open[i]);
        let e = open[i]->0 as int;
        assert(ts2[e] == ts[e]);
    }
    assert forall|i: int| 0 <= i < NUM_KINDS && #[trigger] upd[i] is Some implies upd[i]->0 == idx && entry_valid(
        ts2,
        i,
        idx as int,
    ) by {
        assert(i == code(outer));
    }
    assert(idx >= pb);
    lemma_finish_close(s, ts2, last, open, idx, upd, pb);
    let r = finish_close(s, ts2, last, open, idx, upd);
    lemma_contents_push(ts, last);
    lemma_contents_push(ts2, last);
    assert(frame(s.tokens, ts2.push(last), pb)) by {
        assert forall|q: int| 0 <= q < pb && q < s.tokens.len() && #[trigger] s.tokens[q].kind != TokenKind::Plain implies q < ts2.push(last).len() && ts2.push(last)[q] == s.tokens[q] by {
            assert(q < idx);
            assert(ts2[q] == ts[q]);
        }
    }
    lemma_frame_trans(s.tokens, ts2.push(last), r.tokens, pb);
    lemma_scope_start_frame(s.tokens, r.tokens, pb);
}

/// Closing the formatting that a fixed token closes keeps the contents and the scope.
pub proof fn lemma_try_closing(s: TokState, next_is_space: bool, pb: int)
    requires
        closing_ready(s, pb),
    ensures
        closing_kept(s, try_closing_fixated(s, next_is_space), pb),
{
    reveal(try_closing_fixated);
    let r = try_closing_fixated(s, next_is_space);
    if s.tokens.len() == 0 {
        return;
    }
    let last = s.tokens.last();
    let ts = s.tokens.drop_last();
    let bio = TokenKind::BoldItalicOpen;
    assert(s.tokens =~= ts.push(last));
    match last.kind {
        TokenKind::BoldClose => {
            if is_open(s, TokenKind::BoldOpen) {
                lemma_close_simple(s, TokenKind::BoldOpen, pb);
            } else if is_open(s, bio) && (open_at(s, bio) as int) < ts.len() {
                lemma_close_split(s, TokenKind::ItalicOpen, TokenKind::BoldOpen, pb);
            } else {
                lemma_frame_refl(s.tokens, pb);
            }
        },
        TokenKind::ItalicClose => {
            if is_open(s, TokenKind::ItalicOpen) {
                lemma_close_simple(s, TokenKind::ItalicOpen, pb);
            } else if is_open(s, bio) {
                if (open_at(s, bio) as int) < ts.len() {
                    lemma_close_split(s, TokenKind::BoldOpen, TokenKind::ItalicOpen, pb);
                } else {
                    lemma_frame_refl(s.tokens, pb);
                }
            } else {
                lemma_italic_close_alone(s, next_is_space, pb);
            }
        },
        TokenKind::BoldItalicClose => {
            if is_open(s, bio) {
                lemma_close_simple(s, bio, pb);
            } else if is_open(s, TokenKind::BoldOpen) && is_open(s, TokenKind::ItalicOpen) {
                lemma_close_both(s, pb);
            } else {
                lemma_frame_refl(s.tokens, pb);
            }
        },
        TokenKind::VerbatimClose => {
            if is_open(s, TokenKind::VerbatimOpen) {
                lemma_close_simple(s, TokenKind::VerbatimOpen, pb);
            } else {
                lemma_frame_refl(s.tokens, pb);
            }
        },
        _ => {
            lemma_frame_refl(s.tokens, pb);
        },
    }
}

/// A `***` closing both a bold and an italic formatting.
proof fn lemma_close_both(s: TokState, pb: int)
    requires
        closing_ready(s, pb),
        s.tokens.len() > 0,
        s.tokens.last().kind == TokenKind::BoldItalicClose,
        is_open(s, TokenKind::BoldOpen),
        is_open(s, TokenKind::ItalicOpen),
    ensures
        ({
            let b = open_at(s, TokenKind::BoldOpen);
            let i = open_at(s, TokenKind::ItalicOpen);
            let m = if b < i {
                b
            } else {
                i
            };
            closing_kept(
                s,
                finish_close(
                    s,
                    s.tokens.drop_last(),
                    s.tokens.last(),
                    set_open(set_open(s.open, TokenKind::BoldOpen, None), TokenKind::ItalicOpen, None),
                    m,
                    no_open(),
                ),
                pb,
            )
        }),
{
    let ts = s.tokens.drop_last();
    let last = s.tokens.last();
    lemma_last_unregistered(s, pb);
    let b = open_at(s, TokenKind::BoldOpen);
    let it = open_at(s, TokenKind::ItalicOpen);
    let m = if b < it {
        b
    } else {
        it
    };
    let open = set_open(set_open(s.open, TokenKind::BoldOpen, None), TokenKind::ItalicOpen, None);
    assert(s.tokens =~= ts.push(last));
    assert forall|i: int| 0 <= i < NUM_KINDS && #[trigger] open[i] is Some implies open[i]->0 != m by {
        assert(i != code(TokenKind::BoldOpen) && i != code(TokenKind::ItalicOpen));
        lemma_entries_distinct(s.open, ts, s.tokens.len() - 1, i, code(TokenKind::BoldOpen));
        lemma_entries_distinct(s.open, ts, s.tokens.len() - 1, i, code(TokenKind::ItalicOpen));
    }
    assert forall|i: int|
        0 <= i < NUM_KINDS && #[trigger] open[i] is Some && open[i]->0 < m implies entry_valid(
            ts,
            i,
            open[i]->0 as int,
        ) && (open[i]->0 >= pb || (i == code(TokenKind::TextGroupOpen) && open[i]->0 == pb - 1)) by {
        assert(open[i] == s.open[i]);
    }
    lemma_finish_close(s, ts, last, open, m, no_open(), pb);
    let r = finish_close(s, ts, last, open, m, no_open());
    lemma_contents_push(ts, last);
    lemma_scope_start_frame(s.tokens, r.tokens, pb);
}

/// A closing `*` with nothing to close: plain text before a space, else an opening `*`.
proof fn lemma_italic_close_alone(s: TokState, next_is_space: bool, pb: int)
    requires
        closing_ready(s, pb),
        s.tokens.len() > 0,
        s.tokens.last().kind == TokenKind::ItalicClose,
        !is_open(s, TokenKind::ItalicOpen),
        !is_open(s, TokenKind::BoldItalicOpen),
    ensures
        closing_kept(s, try_closing_fixated(s, next_is_space), pb),
{
    reveal(try_closing_fixated);
    let r = try_closing_fixated(s, next_is_space);
    let ts = s.tokens.drop_last();
    let last = s.tokens.last();
    lemma_last_unregistered(s, pb);
    assert(s.tokens =~= ts.push(last));
    lemma_contents_push(ts, last);
    assert(last.content == kind_str(TokenKind::ItalicClose));
    if next_is_space {
        if ts.len() > 0 && ts.last().kind == TokenKind::Plain {
            let t2 = with_content(ts.last(), ts.last().content + last.content);
            assert(r.tokens == append_last(ts, last.content));
            assert(r.tokens =~= ts.drop_last().push(t2));
            lemma_contents_push(ts.drop_last(), t2);
            lemma_contents_push(ts.drop_last(), ts.last());
            assert(ts.drop_last().push(ts.last()) =~= ts);
            assert(contents(r.tokens) =~= contents(s.tokens));
            assert(r.open == s.open);
            assert forall|i: int| 0 <= i < r.tokens.len() && asterisk_kind(#[trigger] r.tokens[i].kind) implies r.tokens[i].content == kind_str(r.tokens[i].kind) by {
                assert(r.tokens[i] == s.tokens[i]);
            }
            assert forall|i: int| 0 <= i < NUM_KINDS && #[trigger] r.open[i] is Some implies {
                let e = r.open[i]->0 as int;
                &&& e < r.tokens.len()
                &&& e < r.tokens.len()
                &&& code(r.tokens[e].kind) == i
                &&& opening_kind(r.tokens[e].kind)
            } by {
                let e = r.open[i]->0 as int;
                assert(r.tokens[e] == ts[e]);
            }
        } else {
            let t2 = with_kind(last, TokenKind::Plain);
            assert(r.tokens == ts.push(t2));
            lemma_contents_push(ts, t2);
            assert(r.open == s.open);
            assert forall|i: int| 0 <= i < r.tokens.len() && asterisk_kind(#[trigger] r.tokens[i].kind) implies r.tokens[i].content == kind_str(r.tokens[i].kind) by {
                assert(r.tokens[i] == s.tokens[i]);
            }
            assert forall|i: int| 0 <= i < NUM_KINDS && #[trigger] r.open[i] is Some implies {
                let e = r.open[i]->0 as int;
                &&& e < r.tokens.len()
                &&& e < r.tokens.len()
                &&& code(r.tokens[e].kind) == i
                &&& opening_kind(r.tokens[e].kind)
            } by {
                let e = r.open[i]->0 as int;
                assert(r.tokens[e] == ts[e]);
            }
        }
    } else {
        let t2 = with_kind(last, TokenKind::ItalicOpen);
        assert(r.tokens == ts.push(t2));
        lemma_contents_push(ts, t2);
        let open = set_open(s.open, TokenKind::ItalicOpen, Some(ts.len() as usize));
        assert(r.open == open);
        assert(ts.len() >= pb) by {
            if ts.len() < pb {
                assert(s.tokens[pb - 1] == last);
            }
        }
        assert forall|i: int| 0 <= i < r.tokens.len() && asterisk_kind(#[trigger] r.tokens[i].kind) implies r.tokens[i].content == kind_str(r.tokens[i].kind) by {
            if i < ts.len() {
                assert(r.tokens[i] == s.tokens[i]);
            }
        }
        assert forall|i: int| 0 <= i < NUM_KINDS && #[trigger] r.open[i] is Some implies {
            let e = r.open[i]->0 as int;
            &&& e < r.tokens.len()
            &&& e < r.tokens.len()
            &&& code(r.tokens[e].kind) == i
            &&& opening_kind(r.tokens[e].kind)
        } by {
            if i == code(TokenKind::ItalicOpen) {
            } else {
                assert(r.open[i] == s.open[i]);
                let e = r.open[i]->0 as int;
                assert(r.tokens[e] == ts[e]);
            }
        }
        assert forall|i: int| 0 <= i < r.open.len() && #[trigger] r.open[i] is Some implies r.open[i]->0 >= pb || (i == code(TokenKind::TextGroupOpen) && r.open[i]->0 == pb - 1) by {
            if i != code(TokenKind::ItalicOpen) {
                assert(r.open[i] == s.open[i]);
            }
        }
    }
    lemma_scope_start_frame(s.tokens, r.tokens, pb);
}

/// Removing the open tokens left at the end keeps the contents and every token before the
/// open tokens.
pub proof fn lemma_cleanup(s: TokState, pb: int)
    requires
        forall|i: int| 0 <= i < s.open.len() && #[trigger] s.open[i] is Some ==> s.open[i]->0 >= pb,
    ensures
        ({
            let r = cleanup(s);
            &&& contents(r.tokens) == contents(s.tokens)
            &&& (fixed_texts(s.tokens) ==> fixed_texts(r.tokens))
            &&& frame(s.tokens, r.tokens, pb)
            &&& (s.tokens.len() > 0 ==> r.tokens.len() > 0)
            &&& r.tokens.len() <= s.tokens.len()
            &&& r.graphemes == s.graphemes && r.next == s.next && r.cur == s.cur && r.escape == s.escape
            &&& r.open == s.open
        }),
{
    reveal(cleanup);
    lemma_merge_from(s.tokens, s.open, 0, NUM_KINDS as nat, pb);
    lemma_merge_from_len(s.tokens, s.open, 0, NUM_KINDS as nat);
}

/// Whether the grapheme after the first `n` graphemes is escaped.
pub open spec fn escape_after(gs: Seq<Seq<char>>, n: int) -> bool
    decreases n,
{
    if n <= 0 {
        false
    } else {
        !escape_after(gs, n - 1) && single_kind_of(gs[n - 1]) == SingleTokenKind::Backslash
    }
}

/// Whether a token exists after the first `n` graphemes: a grapheme that is escaped, or that
/// is neither an escaping backslash nor a `]` before any token, makes one.
pub open spec fn begun_after(gs: Seq<Seq<char>>, n: int) -> bool
    decreases n,
{
    if n <= 0 {
        false
    } else {
        let k = single_kind_of(gs[n - 1]);
        begun_after(gs, n - 1) || escape_after(gs, n - 1) || (k != SingleTokenKind::Backslash && k
            != SingleTokenKind::RightSquareBracket)
    }
}

/// Whether grapheme `n - 1` is kept in the tokens: an escaped grapheme is; an escaping
/// backslash is not, nor a `]` before any token.
pub open spec fn keeps(gs: Seq<Seq<char>>, n: int) -> bool {
    let k = single_kind_of(gs[n - 1]);
    escape_after(gs, n - 1) || (k != SingleTokenKind::Backslash && (k != SingleTokenKind::RightSquareBracket
        || begun_after(gs, n - 1)))
}

/// The first `n` graphemes as the tokens hold them.
pub open spec fn unescaped(gs: Seq<Seq<char>>, n: int) -> Seq<char>
    decreases n,
{
    if n <= 0 {
        Seq::empty()
    } else {
        unescaped(gs, n - 1) + if keeps(gs, n) {
            gs[n - 1]
        } else {
            Seq::empty()
        }
    }
}

/// The state holds exactly what the first `n` graphemes give.
pub open spec fn read_upto(s: TokState, n: int) -> bool {
    &&& s.escape == escape_after(s.graphemes, n)
    &&& (s.tokens.len() > 0) == begun_after(s.graphemes, n)
    &&& contents(s.tokens) == unescaped(s.graphemes, n)
}

/// Fixing the token before the newest keeps the contents and the scope.
pub proof fn lemma_fixate(s2: TokState, prev_len: int, pb: int)
    requires
        s2.tokens.len() <= usize::MAX,
        fixed_texts(s2.tokens),
        in_scope(s2.open, pb),
        scope_start(s2.tokens, pb),
        pb <= prev_len,
        entries_ok(s2.open, s2.tokens, s2.tokens.len() - 1),
        (s2.tokens.len() != prev_len && s2.tokens.len() > 0 && s2.tokens.last().kind
            != TokenKind::TextGroupClose) ==> entries_ok(s2.open, s2.tokens, s2.tokens.len() - 2)
            && s2.tokens.len() > prev_len,
    ensures
        ({
            let r = fixate(s2, prev_len);
            &&& contents(r.tokens) == contents(s2.tokens)
            &&& fixed_texts(r.tokens)
            &&& entries_ok(r.open, r.tokens, r.tokens.len() - 1)
            &&& in_scope(r.open, pb)
            &&& scope_start(r.tokens, pb)
            &&& frame(s2.tokens, r.tokens, pb)
            &&& r.tokens.len() <= s2.tokens.len() + 1
            &&& (s2.tokens.len() > 0 ==> r.tokens.len() > 0 && r.tokens.last() == s2.tokens.last())
            &&& r.graphemes == s2.graphemes && r.next == s2.next && r.escape == s2.escape
        }),
{
    let r = fixate(s2, prev_len);
    if s2.tokens.len() != prev_len && s2.tokens.len() > 0 {
        let last = s2.tokens.last();
        let s3 = with_tokens(s2, s2.tokens.drop_last());
        assert(s2.tokens =~= s3.tokens.push(last));
        lemma_contents_push(s3.tokens, last);
        let sp = last.kind.spec_is_space_or_newline();
        if last.kind != TokenKind::TextGroupClose {
            assert(fixed_texts(s3.tokens)) by {
                assert forall|i: int| 0 <= i < s3.tokens.len() && asterisk_kind(#[trigger] s3.tokens[i].kind) implies s3.tokens[i].content == kind_str(s3.tokens[i].kind) by {
                    assert(s3.tokens[i] == s2.tokens[i]);
                }
            }
            assert(entries_ok(s3.open, s3.tokens, s3.tokens.len() - 1)) by {
                assert forall|i: int| 0 <= i < NUM_KINDS && #[trigger] s3.open[i] is Some implies {
                    let e = s3.open[i]->0 as int;
                    &&& e < s3.tokens.len() - 1
                    &&& e < s3.tokens.len()
                    &&& code(s3.tokens[e].kind) == i
                    &&& opening_kind(s3.tokens[e].kind)
                } by {
                    let e = s3.open[i]->0 as int;
                    assert(s3.tokens[e] == s2.tokens[e]);
                }
            }
            assert(scope_start(s3.tokens, pb)) by {
                if pb > 0 {
                    assert(s3.tokens[pb - 1] == s2.tokens[pb - 1]);
                }
            }
            lemma_update_open_map(s3, sp, pb);
            let u = update_open_map(s3, sp);
            lemma_try_closing(u, sp, pb);
            let s4 = try_closing_fixated(u, sp);
            lemma_frame_trans(s3.tokens, u.tokens, s4.tokens, pb);
            assert(r.tokens == s4.tokens.push(last));
            lemma_contents_push(s4.tokens, last);
            assert forall|i: int| 0 <= i < r.tokens.len() && asterisk_kind(#[trigger] r.tokens[i].kind) implies r.tokens[i].content == kind_str(r.tokens[i].kind) by {
                if i < s4.tokens.len() {
                    assert(r.tokens[i] == s4.tokens[i]);
                } else {
                    assert(r.tokens[i] == s2.tokens[s2.tokens.len() - 1]);
                }
            }
            assert forall|i: int| 0 <= i < NUM_KINDS && #[trigger] r.open[i] is Some implies {
                let e = r.open[i]->0 as int;
                &&& e < r.tokens.len() - 1
                &&& e < r.tokens.len()
                &&& code(r.tokens[e].kind) == i
                &&& opening_kind(r.tokens[e].kind)
            } by {
                let e = r.open[i]->0 as int;
                assert(r.tokens[e] == s4.tokens[e]);
            }
            assert(frame(s2.tokens, r.tokens, pb)) by {
                assert forall|q: int| 0 <= q < pb && q < s2.tokens.len() && #[trigger] s2.tokens[q].kind != TokenKind::Plain implies q < r.tokens.len() && r.tokens[q] == s2.tokens[q] by {
                    assert(q < s3.tokens.len());
                    assert(s3.tokens[q] == s2.tokens[q]);
                    assert(r.tokens[q] == s4.tokens[q]);
                }
            }
            lemma_scope_start_frame(s2.tokens, r.tokens, pb);
        } else {
            assert(r.tokens =~= s2.tokens);
        }
    }
}

/// The state a grapheme is read in: `s.next` counts the grapheme `g` already.
pub open spec fn step_ready(s: TokState, g: Seq<char>, pb: int, m: int) -> bool {
    &&& 1 <= s.next <= s.graphemes.len()
    &&& g == s.graphemes[s.next - 1]
    &&& 4 * s.graphemes.len() <= usize::MAX
    &&& 0 <= m && s.tokens.len() + m <= 4 * (s.next - 1)
    &&& fixed_texts(s.tokens)
    &&& entries_ok(s.open, s.tokens, s.tokens.len() - 1)
    &&& in_scope(s.open, pb)
    &&& scope_start(s.tokens, pb)
    &&& read_upto(s, s.next - 1)
}

/// The state after reading one grapheme (or a whole text group).
pub open spec fn step_done(s: TokState, r: TokState, pb: int, m: int) -> bool {
    &&& r.graphemes == s.graphemes
    &&& s.next <= r.next <= r.graphemes.len()
    &&& r.tokens.len() + m + 1 <= 4 * r.next
    &&& fixed_texts(r.tokens)
    &&& entries_ok(r.open, r.tokens, r.tokens.len() - 1)
    &&& in_scope(r.open, pb)
    &&& scope_start(r.tokens, pb)
    &&& frame(s.tokens, r.tokens, pb)
    &&& read_upto(r, r.next)
    &&& (s.tokens.len() > 0 ==> r.tokens.len() > 0)
    &&& (r.tokens.len() != s.tokens.len() && r.tokens.len() > 0 && r.tokens.last().kind
        != TokenKind::TextGroupClose) ==> entries_ok(r.open, r.tokens, r.tokens.len() - 2)
        && r.tokens.len() > s.tokens.len()
}

/// A new token after the last one.
proof fn lemma_pushed(s: TokState, r: TokState, t: TokenV, pb: int, m: int)
    requires
        step_ready(s, s.graphemes[s.next - 1], pb, m),
        r.tokens == s.tokens.push(t),
        r.open == s.open,
        r.graphemes == s.graphemes,
        r.next == s.next,
        asterisk_kind(t.kind) ==> t.content == kind_str(t.kind),
        r.escape == escape_after(s.graphemes, s.next),
        begun_after(s.graphemes, s.next),
        contents(s.tokens) + t.content == unescaped(s.graphemes, s.next),
    ensures
        step_done(s, r, pb, m),
{
    lemma_contents_push(s.tokens, t);
    assert forall|i: int| 0 <= i < r.tokens.len() && asterisk_kind(#[trigger] r.tokens[i].kind) implies r.tokens[i].content == kind_str(r.tokens[i].kind) by {
        if i < s.tokens.len() {
            assert(r.tokens[i] == s.tokens[i]);
        }
    }
    assert forall|i: int| 0 <= i < NUM_KINDS && #[trigger] r.open[i] is Some implies {
        let e = r.open[i]->0 as int;
        &&& e < r.tokens.len() - 2
        &&& e < r.tokens.len()
        &&& code(r.tokens[e].kind) == i
        &&& opening_kind(r.tokens[e].kind)
    } by {
        let e = r.open[i]->0 as int;
        assert(r.tokens[e] == s.tokens[e]);
    }
    lemma_scope_start_frame(s.tokens, r.tokens, pb);
}

/// More text in the last token, which is plain text or space.
proof fn lemma_appended(s: TokState, r: TokState, c: Seq<char>, pb: int, m: int)
    requires
        step_ready(s, s.graphemes[s.next - 1], pb, m),
        s.tokens.len() > 0,
        s.tokens.last().kind == TokenKind::Plain || s.tokens.last().kind == TokenKind::Space,
        r.tokens == append_last(s.tokens, c),
        r.open == s.open,
        r.graphemes == s.graphemes,
        r.next == s.next,
        r.escape == escape_after(s.graphemes, s.next),
        begun_after(s.graphemes, s.next),
        contents(s.tokens) + c == unescaped(s.graphemes, s.next),
    ensures
        step_done(s, r, pb, m),
{
    let ts = s.tokens;
    let t2 = with_content(ts.last(), ts.last().content + c);
    assert(r.tokens =~= ts.drop_last().push(t2));
    lemma_contents_push(ts.drop_last(), t2);
    lemma_contents_push(ts.drop_last(), ts.last());
    assert(ts.drop_last().push(ts.last()) =~= ts);
    assert(contents(r.tokens) =~= contents(s.tokens) + c);
    assert forall|i: int| 0 <= i < r.tokens.len() && asterisk_kind(#[trigger] r.tokens[i].kind) implies r.tokens[i].content == kind_str(r.tokens[i].kind) by {
        assert(r.tokens[i] == s.tokens[i]);
    }
    assert forall|i: int| 0 <= i < NUM_KINDS && #[trigger] r.open[i] is Some implies {
        let e = r.open[i]->0 as int;
        &&& e < r.tokens.len() - 1
        &&& e < r.tokens.len()
        &&& code(r.tokens[e].kind) == i
        &&& opening_kind(r.tokens[e].kind)
    } by {
        let e = r.open[i]->0 as int;
        assert(r.tokens[e] == s.tokens[e]);
    }
    assert(frame(s.tokens, r.tokens, pb)) by {
        assert forall|q: int| 0 <= q < pb && q < s.tokens.len() && #[trigger] s.tokens[q].kind != TokenKind::Plain implies q < r.tokens.len() && r.tokens[q] == s.tokens[q] by {
            if q == s.tokens.len() - 1 {
                assert(s.tokens[pb - 1].kind == TokenKind::TextGroupOpen);
            }
        }
    }
    lemma_scope_start_frame(s.tokens, r.tokens, pb);
}

/// Reading a grapheme that is neither `*` nor `[` keeps the contents and the scope.
proof fn lemma_update_simple(s: TokState, g: Seq<char>, pb: int, m: int)
    requires
        step_ready(s, g, pb, m),
        s.escape || (single_kind_of(g) != SingleTokenKind::Asterisk && single_kind_of(g)
            != SingleTokenKind::LeftSquareBracket),
    ensures
        update_tokens(s, g) matches Ok(r) ==> step_done(s, r, pb, m),
{
    let gs = s.graphemes;
    let n = s.next;
    assert(rem(s) >= 0);
    if s.escape {
        let r = with_escape(update_escaped(s, g), false);
        let t = r.tokens.last();
        assert(r.tokens == s.tokens.push(t));
        lemma_pushed(s, r, t, pb, m);
    } else {
        match single_kind_of(g) {
            SingleTokenKind::Plain | SingleTokenKind::Space => {
                let k = if single_kind_of(g) == SingleTokenKind::Plain {
                    TokenKind::Plain
                } else {
                    TokenKind::Space
                };
                let r = update_run(s, g, k);
                if s.tokens.len() > 0 && s.tokens.last().kind == k {
                    lemma_appended(s, r, g, pb, m);
                } else {
                    let t = r.tokens.last();
                    assert(r.tokens == s.tokens.push(t));
                    lemma_pushed(s, r, t, pb, m);
                }
            },
            SingleTokenKind::Newline => {
                let r = update_newline(s, g);
                let t = r.tokens.last();
                assert(r.tokens == s.tokens.push(t));
                lemma_pushed(s, r, t, pb, m);
            },
            SingleTokenKind::Accent => {
                let r = update_accent(s, g);
                let t = r.tokens.last();
                assert(r.tokens == s.tokens.push(t));
                lemma_pushed(s, r, t, pb, m);
            },
            SingleTokenKind::Backslash => {
                let r = with_escape(s, true);
                lemma_frame_refl(s.tokens, pb);
                assert(unescaped(gs, n) =~= unescaped(gs, n - 1));
            },
            SingleTokenKind::RightSquareBracket => {
                lemma_close_text_group(s, g, pb, m);
            },
            _ => {},
        }
    }
}

/// A `]`: closes the open text group, else it is plain text; before any token it is dropped.
proof fn lemma_close_text_group(s: TokState, g: Seq<char>, pb: int, m: int)
    requires
        step_ready(s, g, pb, m),
        !s.escape,
        single_kind_of(g) == SingleTokenKind::RightSquareBracket,
    ensures
        step_done(s, try_closing_text_group(s, g), pb, m),
{
    let gs = s.graphemes;
    let n = s.next;
    let r = try_closing_text_group(s, g);
    let tgo = TokenKind::TextGroupOpen;
    if is_open(s, tgo) {
        let t = r.tokens.last();
        let open = set_open(s.open, tgo, None);
        assert(r.tokens == s.tokens.push(t));
        assert(r.open == open);
        lemma_contents_push(s.tokens, t);
        assert forall|i: int| 0 <= i < r.tokens.len() && asterisk_kind(#[trigger] r.tokens[i].kind) implies r.tokens[i].content == kind_str(r.tokens[i].kind) by {
            if i < s.tokens.len() {
                assert(r.tokens[i] == s.tokens[i]);
            }
        }
        assert forall|i: int| 0 <= i < NUM_KINDS && #[trigger] r.open[i] is Some implies {
            let e = r.open[i]->0 as int;
            &&& e < r.tokens.len() - 1
            &&& e < r.tokens.len()
            &&& code(r.tokens[e].kind) == i
            &&& opening_kind(r.tokens[e].kind)
        } by {
            assert(r.open[i] == s.open[i]);
            let e = r.open[i]->0 as int;
            assert(r.tokens[e] == s.tokens[e]);
        }
        assert forall|i: int| 0 <= i < r.open.len() && #[trigger] r.open[i] is Some implies r.open[i]->0 >= pb || (i == code(TokenKind::TextGroupOpen) && r.open[i]->0 == pb - 1) by {
            assert(r.open[i] == s.open[i]);
        }
        lemma_scope_start_frame(s.tokens, r.tokens, pb);
    } else if s.tokens.len() > 0 {
        if s.tokens.last().kind == TokenKind::Plain {
            lemma_appended(s, r, g, pb, m);
        } else {
            let t = r.tokens.last();
            assert(r.tokens == s.tokens.push(t));
            lemma_pushed(s, r, t, pb, m);
        }
    } else {
        lemma_frame_refl(s.tokens, pb);
        assert(unescaped(gs, n) =~= unescaped(gs, n - 1));
    }
}

/// The last token replaced by new ones that hold its text and the grapheme read.
proof fn lemma_replaced(s: TokState, r: TokState, news: Seq<TokenV>, pb: int, m: int)
    requires
        step_ready(s, s.graphemes[s.next - 1], pb, m),
        s.tokens.len() > 0,
        keeps(s.graphemes, s.next),
        !escape_after(s.graphemes, s.next),
        begun_after(s.graphemes, s.next),
        r.tokens == s.tokens.drop_last() + news,
        r.open == s.open,
        r.graphemes == s.graphemes,
        r.next == s.next,
        r.escape == s.escape,
        !s.escape,
        1 <= news.len() <= 3,
        contents(news) == s.tokens.last().content + s.graphemes[s.next - 1],
        fixed_texts(news),
        news.last().kind != TokenKind::TextGroupClose,
        s.tokens.len() - 1 < pb ==> news[0] == s.tokens.last(),
    ensures
        step_done(s, r, pb, m),
{
    let ts = s.tokens.drop_last();
    let last = s.tokens.last();
    assert(s.tokens =~= ts.push(last));
    lemma_contents_push(ts, last);
    lemma_contents_concat(ts, news);
    assert(unescaped(s.graphemes, s.next) == unescaped(s.graphemes, s.next - 1) + s.graphemes[s.next - 1]);
    assert(contents(r.tokens) =~= contents(s.tokens) + s.graphemes[s.next - 1]);
    assert forall|i: int| 0 <= i < r.tokens.len() && asterisk_kind(#[trigger] r.tokens[i].kind) implies r.tokens[i].content == kind_str(r.tokens[i].kind) by {
        if i < ts.len() {
            assert(r.tokens[i] == s.tokens[i]);
        } else {
            assert(r.tokens[i] == news[i - ts.len()]);
        }
    }
    assert forall|i: int| 0 <= i < NUM_KINDS && #[trigger] r.open[i] is Some implies {
        let e = r.open[i]->0 as int;
        &&& e < r.tokens.len() - 1
        &&& e < r.tokens.len()
        &&& code(r.tokens[e].kind) == i
        &&& opening_kind(r.tokens[e].kind)
    } by {
        let e = r.open[i]->0 as int;
        assert(r.tokens[e] == ts[e]);
    }
    assert(frame(s.tokens, r.tokens, pb)) by {
        assert forall|q: int| 0 <= q < pb && q < s.tokens.len() && #[trigger] s.tokens[q].kind != TokenKind::Plain implies q < r.tokens.len() && r.tokens[q] == s.tokens[q] by {
            if q < ts.len() {
                assert(r.tokens[q] == ts[q]);
            } else {
                assert(r.tokens[q] == news[0]);
            }
        }
    }
    lemma_scope_start_frame(s.tokens, r.tokens, pb);
}

proof fn lemma_contents_three(a: TokenV, b: TokenV, c: TokenV)
    ensures
        contents(seq![a, b, c]) == a.content + b.content + c.content,
{
    lemma_contents_pair(Seq::empty(), a, b, seq![c]);
    lemma_contents_one(c);
    assert(Seq::<TokenV>::empty() + seq![a, b] + seq![c] =~= seq![a, b, c]);
    assert(contents(Seq::<TokenV>::empty()) =~= Seq::<char>::empty());
}

proof fn lemma_contents_two(a: TokenV, b: TokenV)
    ensures
        contents(seq![a, b]) == a.content + b.content,
{
    lemma_contents_pair(Seq::empty(), a, b, Seq::empty());
    assert(Seq::<TokenV>::empty() + seq![a, b] + Seq::<TokenV>::empty() =~= seq![a, b]);
    assert(contents(Seq::<TokenV>::empty()) =~= Seq::<char>::empty());
}

/// Reading a `*` keeps the contents and the scope.
proof fn lemma_update_asterisk(s: TokState, g: Seq<char>, pb: int, m: int)
    requires
        step_ready(s, g, pb, m),
        !s.escape,
        single_kind_of(g) == SingleTokenKind::Asterisk,
    ensures
        step_done(s, update_asterisk(s, g), pb, m),
{
    reveal(update_asterisk);
    let r = update_asterisk(s, g);
    let gs = s.graphemes;
    let n = s.next;
    assert(g == seq!['*']);
    let star = seq!['*'];
    let two = seq!['*', '*'];
    let three = seq!['*', '*', '*'];
    assert(kind_str(TokenKind::ItalicOpen) == star);
    assert(star + star =~= two);
    assert(two + star =~= three);
    assert(star + two =~= three);
    assert(star + star + star =~= three);
    assert(star + three =~= two + two);
    assert(star + star + two =~= two + two);
    assert(star + two + star =~= two + two);
    if s.tokens.len() == 0 {
        let t = r.tokens.last();
        assert(r.tokens == s.tokens.push(t));
        lemma_pushed(s, r, t, pb, m);
        return;
    }
    let last = s.tokens.last();
    let ts = s.tokens.drop_last();
    let s0 = with_tokens(s, ts);
    assert(s.tokens[s.tokens.len() - 1] == last);
    if asterisk_kind(last.kind) {
        assert(last.content == kind_str(last.kind));
    }
    if s.tokens.len() - 1 < pb {
        assert(last.kind == TokenKind::TextGroupOpen);
    }
    if last.kind == TokenKind::ItalicOpen {
        let news = seq![r.tokens.last()];
        assert(r.tokens =~= ts + news);
        lemma_contents_one(r.tokens.last());
        lemma_replaced(s, r, news, pb, m);
    } else if last.kind == TokenKind::BoldOpen {
        if is_open(s0, TokenKind::ItalicOpen) {
            if preceded_by_space(s0) {
                let news = r.tokens.subrange(ts.len() as int, r.tokens.len() as int);
                assert(news.len() == 3);
                assert(r.tokens =~= ts + news);
                assert(news[0].content == star);
                assert(news[1].content == star);
                assert(news[2].content == star);
                lemma_contents_three(news[0], news[1], news[2]);
                assert(news =~= seq![news[0], news[1], news[2]]);
                assert(contents(news) =~= last.content + g);
                lemma_replaced(s, r, news, pb, m);
            } else {
                let news = r.tokens.subrange(ts.len() as int, r.tokens.len() as int);
                assert(news.len() == 2);
                assert(r.tokens =~= ts + news);
                assert(news[0].content == star);
                assert(news[1].content == two);
                lemma_contents_two(news[0], news[1]);
                assert(news =~= seq![news[0], news[1]]);
                assert(contents(news) =~= last.content + g);
                lemma_replaced(s, r, news, pb, m);
            }
        } else {
            let news = seq![r.tokens.last()];
            assert(r.tokens =~= ts + news);
            lemma_contents_one(r.tokens.last());
            lemma_replaced(s, r, news, pb, m);
        }
    } else if last.kind == TokenKind::BoldItalicOpen {
        lemma_asterisk_after_bold_italic_open(s, g, pb, m);
    } else if last.kind == TokenKind::ItalicClose {
        let news = seq![r.tokens.last()];
        assert(r.tokens =~= ts + news);
        lemma_contents_one(r.tokens.last());
        lemma_replaced(s, r, news, pb, m);
    } else if last.kind == TokenKind::BoldClose {
        if is_open(s0, TokenKind::BoldItalicOpen) {
            let news = seq![r.tokens.last()];
            assert(r.tokens =~= ts + news);
            lemma_contents_one(r.tokens.last());
            lemma_replaced(s, r, news, pb, m);
        } else {
            let news = r.tokens.subrange(ts.len() as int, r.tokens.len() as int);
            assert(news.len() == 2);
            assert(r.tokens =~= ts + news);
            if is_open(s0, TokenKind::ItalicOpen) {
                assert(news[0].content + news[1].content =~= three);
            } else {
                assert(news[0] == last);
                assert(news[1].content == g);
            }
            lemma_contents_two(news[0], news[1]);
            assert(news =~= seq![news[0], news[1]]);
            assert(contents(news) =~= last.content + g);
            lemma_replaced(s, r, news, pb, m);
        }
    } else {
        let news = r.tokens.subrange(ts.len() as int, r.tokens.len() as int);
        assert(news.len() == 2);
        assert(r.tokens =~= ts + news);
        if last.kind == TokenKind::BoldItalicClose {
            assert(news[0] == last);
            assert(news[1].content == g);
        } else {
            assert(news[0] == last);
            assert(news[1].content == g);
        }
        lemma_contents_two(news[0], news[1]);
        assert(news =~= seq![news[0], news[1]]);
        lemma_replaced(s, r, news, pb, m);
    }
}

proof fn lemma_asterisk_after_bold_italic_open(s: TokState, g: Seq<char>, pb: int, m: int)
    requires
        step_ready(s, g, pb, m),
        !s.escape,
        g == seq!['*'],
        s.tokens.len() > 0,
        s.tokens.last().kind == TokenKind::BoldItalicOpen,
    ensures
        step_done(s, update_asterisk(s, g), pb, m),
{
    reveal(update_asterisk);
    let r = update_asterisk(s, g);
    let last = s.tokens.last();
    let ts = s.tokens.drop_last();
    let s0 = with_tokens(s, ts);
    assert(s.tokens[s.tokens.len() - 1] == last);
    assert(last.content == kind_str(TokenKind::BoldItalicOpen));
    let star = seq!['*'];
    let two = seq!['*', '*'];
    let three = seq!['*', '*', '*'];
    assert(star + three =~= three + star);
    assert(star + star + two =~= three + star);
    assert(star + two + star =~= three + star);
    let l1 = tok(TokenKind::Plain, kind_str(TokenKind::ItalicOpen), last.position);
    let s1 = advance(s0, l1);
    if (is_open(s1, TokenKind::ItalicOpen) && is_open(s1, TokenKind::BoldOpen)) || is_open(s1, TokenKind::BoldItalicOpen) {
        let news = r.tokens.subrange(ts.len() as int, r.tokens.len() as int);
        assert(r.tokens =~= ts + news);
        assert(news.len() == 2);
        assert(news[0].content == star);
        assert(news[1].content == three);
        lemma_contents_two(news[0], news[1]);
        assert(news =~= seq![news[0], news[1]]);
        assert(contents(news) =~= last.content + g);
        lemma_replaced(s, r, news, pb, m);
    } else if is_open(s1, TokenKind::ItalicOpen) {
        let news = r.tokens.subrange(ts.len() as int, r.tokens.len() as int);
        assert(r.tokens =~= ts + news);
        assert(news.len() == 3);
        assert(news[0].content == star);
        assert(news[1].content == star);
        assert(news[2].content == two);
        lemma_contents_three(news[0], news[1], news[2]);
        assert(news =~= seq![news[0], news[1], news[2]]);
        assert(star + star + two =~= three + star);
        assert(star + two + star =~= three + star);
        assert(contents(news) =~= last.content + g);
        lemma_replaced(s, r, news, pb, m);
    } else if is_open(s1, TokenKind::BoldOpen) {
        let news = r.tokens.subrange(ts.len() as int, r.tokens.len() as int);
        assert(r.tokens =~= ts + news);
        assert(news.len() == 3);
        assert(news[0].content == star);
        assert(news[1].content == two);
        assert(news[2].content == star);
        lemma_contents_three(news[0], news[1], news[2]);
        assert(news =~= seq![news[0], news[1], news[2]]);
        assert(star + star + two =~= three + star);
        assert(star + two + star =~= three + star);
        assert(contents(news) =~= last.content + g);
        lemma_replaced(s, r, news, pb, m);
    } else if ts.len() > 0 && ts.last().kind == TokenKind::Plain {
        // the leftmost `*` joins the plain text before it
        let ts1 = append_last(ts, star);
        let t = tok(TokenKind::BoldItalicOpen, kind_str(TokenKind::BoldItalicOpen), s1.cur);
        assert(r.tokens == ts1.push(r.tokens.last()));
        let bt = r.tokens.last();
        let p2 = with_content(ts.last(), ts.last().content + star);
        assert(ts1 =~= ts.drop_last().push(p2));
        lemma_contents_push(ts.drop_last(), p2);
        lemma_contents_push(ts.drop_last(), ts.last());
        assert(ts.drop_last().push(ts.last()) =~= ts);
        lemma_contents_push(ts1, bt);
        lemma_contents_push(ts, last);
        assert(s.tokens =~= ts.push(last));
        assert(contents(r.tokens) =~= contents(s.tokens) + g);
        assert(r.tokens.len() == s.tokens.len());
        assert forall|i: int| 0 <= i < r.tokens.len() && asterisk_kind(#[trigger] r.tokens[i].kind) implies r.tokens[i].content == kind_str(r.tokens[i].kind) by {
            if i < ts.len() - 1 {
                assert(r.tokens[i] == s.tokens[i]);
            }
        }
        assert forall|i: int| 0 <= i < NUM_KINDS && #[trigger] r.open[i] is Some implies {
            let e = r.open[i]->0 as int;
            &&& e < r.tokens.len() - 1
            &&& e < r.tokens.len()
            &&& code(r.tokens[e].kind) == i
            &&& opening_kind(r.tokens[e].kind)
        } by {
            let e = r.open[i]->0 as int;
            assert(e < ts.len());
            assert(s.tokens[e] == ts[e]);
            assert(e != ts.len() - 1);
            assert(r.tokens[e] == ts[e]);
        }
        assert(frame(s.tokens, r.tokens, pb)) by {
            assert forall|q: int| 0 <= q < pb && q < s.tokens.len() && #[trigger] s.tokens[q].kind != TokenKind::Plain implies q < r.tokens.len() && r.tokens[q] == s.tokens[q] by {
                if q == s.tokens.len() - 1 {
                    assert(s.tokens[pb - 1].kind == TokenKind::TextGroupOpen);
                }
                assert(q < ts.len() - 1);
            }
        }
        lemma_scope_start_frame(s.tokens, r.tokens, pb);
    } else {
        let news = r.tokens.subrange(ts.len() as int, r.tokens.len() as int);
        assert(r.tokens =~= ts + news);
        assert(news.len() == 2);
        assert(news[0].content == star);
        assert(news[1].content == three);
        lemma_contents_two(news[0], news[1]);
        assert(news =~= seq![news[0], news[1]]);
        assert(contents(news) =~= last.content + g);
        lemma_replaced(s, r, news, pb, m);
    }
}

/// The state at the head of the tokenization loop.
pub open spec fn head_ok(s: TokState, pb: int, m: int) -> bool {
    &&& 0 <= s.next <= s.graphemes.len()
    &&& 4 * s.graphemes.len() <= usize::MAX
    &&& 0 <= m && s.tokens.len() + m <= 4 * s.next
    &&& fixed_texts(s.tokens)
    &&& entries_ok(s.open, s.tokens, s.tokens.len() - 1)
    &&& in_scope(s.open, pb)
    &&& scope_start(s.tokens, pb)
    &&& read_upto(s, s.next)
    &&& (s.tokens.len() > 0 ==> s.tokens.last().kind != TokenKind::Eoi)
}

proof fn lemma_no_open_ok(ts: Seq<TokenV>, bound: int, pb: int)
    ensures
        entries_ok(no_open(), ts, bound),
        in_scope(no_open(), pb),
{
}

/// Reading one grapheme (a `[` reads its whole text group) keeps the contents and the scope.
proof fn lemma_update_tokens(s: TokState, g: Seq<char>, pb: int, m: int)
    requires
        step_ready(s, g, pb, m),
        s.tokens.len() > 0 ==> s.tokens.last().kind != TokenKind::Eoi,
    ensures
        update_tokens(s, g) matches Ok(r) ==> step_done(s, r, pb, m) && (r.tokens.len() > 0
            ==> r.tokens.last().kind != TokenKind::Eoi),
    decreases 3 * rem(s) + 4,
{
    reveal(update_asterisk);
    if !s.escape && single_kind_of(g) == SingleTokenKind::Asterisk {
        lemma_update_asterisk(s, g, pb, m);
        let r = update_asterisk(s, g);
        assert(r.tokens.len() > 0);
    } else if !s.escape && single_kind_of(g) == SingleTokenKind::LeftSquareBracket {
        lemma_open_text_group(s, g, pb, m);
    } else {
        lemma_update_simple(s, g, pb, m);
    }
}

/// A text group is read up to its closing `]`; what it holds is kept, and so is everything
/// before it.
proof fn lemma_open_text_group(s: TokState, g: Seq<char>, pb: int, m: int)
    requires
        step_ready(s, g, pb, m),
        !s.escape,
        single_kind_of(g) == SingleTokenKind::LeftSquareBracket,
    ensures
        open_text_group(s, g) matches Ok(r) ==> step_done(s, r, pb, m) && r.tokens.len() > 0
            && r.tokens.last().kind == TokenKind::TextGroupClose,
    decreases 3 * rem(s) + 3,
{
    let gs = s.graphemes;
    let n = s.next;
    let b = bump(s);
    lemma_update_open_map(b, false, pb);
    let u = update_open_map(b, false);
    lemma_try_closing(u, false, pb);
    let s3 = try_closing_fixated(u, false);
    lemma_frame_trans(s.tokens, u.tokens, s3.tokens, pb);
    let tgo = tok(TokenKind::TextGroupOpen, g, s3.cur);
    let s5 = TokState {
        graphemes: s.graphemes,
        next: s.next,
        tokens: s3.tokens.push(tgo),
        open: no_open(),
        cur: s3.cur,
        escape: s3.escape,
    };
    let pb2: int = s3.tokens.len() as int + 1;
    lemma_no_open_ok(s5.tokens, s5.tokens.len() - 1, pb2);
    lemma_contents_push(s3.tokens, tgo);
    assert(fixed_texts(s5.tokens)) by {
        assert forall|i: int| 0 <= i < s5.tokens.len() && asterisk_kind(#[trigger] s5.tokens[i].kind) implies s5.tokens[i].content == kind_str(s5.tokens[i].kind) by {
            assert(s5.tokens[i] == s3.tokens[i]);
        }
    }
    assert(unescaped(gs, n) == unescaped(gs, n - 1) + g);
    assert(head_ok(s5, pb2, m + 2));
    lemma_until_content(s5, TokenKind::TextGroupClose, s5.tokens.len() as int, pb2, m + 2);
    match until(s5, TokenKind::TextGroupClose, s5.tokens.len() as int) {
        Ok(r) => {
            let closing = r.tokens.last();
            let r1 = with_tokens(r, r.tokens.drop_last());
            assert(r.tokens =~= r1.tokens.push(closing));
            lemma_contents_push(r1.tokens, closing);
            assert(r.tokens[pb2 - 1].kind == TokenKind::TextGroupOpen);
            assert(r1.tokens.len() >= pb2);
            assert(closing_ready(r1, pb2)) by {
                assert forall|i: int| 0 <= i < r1.tokens.len() && asterisk_kind(#[trigger] r1.tokens[i].kind) implies r1.tokens[i].content == kind_str(r1.tokens[i].kind) by {
                    assert(r1.tokens[i] == r.tokens[i]);
                }
                assert forall|i: int| 0 <= i < NUM_KINDS && #[trigger] r1.open[i] is Some implies {
                    let e = r1.open[i]->0 as int;
                    &&& e < r1.tokens.len()
                    &&& e < r1.tokens.len()
                    &&& code(r1.tokens[e].kind) == i
                    &&& opening_kind(r1.tokens[e].kind)
                } by {
                    let e = r1.open[i]->0 as int;
                    assert(r1.tokens[e] == r.tokens[e]);
                }
                assert(r1.tokens[pb2 - 1] == r.tokens[pb2 - 1]);
            }
            lemma_try_closing(r1, true, pb2);
            let r2 = try_closing_fixated(r1, true);
            lemma_cleanup(r2, pb2 - 1);
            let r3 = cleanup(r2);
            let fin = with_open(push_tok(r3, closing), s3.open);
            assert(open_text_group(s, g) == Ok::<TokState, super::InlineError>(fin));
            lemma_contents_push(r3.tokens, closing);
            // the tokens before the group stay
            assert(frame(s3.tokens, s5.tokens, pb2 - 1));
            lemma_frame_weaken(s5.tokens, r.tokens, pb2, pb2 - 1);
            lemma_frame_trans(s3.tokens, s5.tokens, r.tokens, pb2 - 1);
            assert(frame(r.tokens, r1.tokens, pb2 - 1));
            lemma_frame_trans(s3.tokens, r.tokens, r1.tokens, pb2 - 1);
            lemma_frame_weaken(r1.tokens, r2.tokens, pb2, pb2 - 1);
            lemma_frame_trans(s3.tokens, r1.tokens, r2.tokens, pb2 - 1);
            lemma_frame_trans(s3.tokens, r2.tokens, r3.tokens, pb2 - 1);
            assert(frame(r3.tokens, fin.tokens, pb2 - 1));
            lemma_frame_trans(s3.tokens, r3.tokens, fin.tokens, pb2 - 1);
            lemma_frame_weaken(s3.tokens, fin.tokens, pb2 - 1, pb);
            lemma_frame_trans(s.tokens, s3.tokens, fin.tokens, pb);
            lemma_scope_start_frame(s.tokens, fin.tokens, pb);
            assert forall|i: int| 0 <= i < fin.tokens.len() && asterisk_kind(#[trigger] fin.tokens[i].kind) implies fin.tokens[i].content == kind_str(fin.tokens[i].kind) by {
                if i < r3.tokens.len() {
                    assert(fin.tokens[i] == r3.tokens[i]);
                }
            }
            assert forall|i: int| 0 <= i < NUM_KINDS && #[trigger] fin.open[i] is Some implies {
                let e = fin.open[i]->0 as int;
                &&& e < fin.tokens.len() - 1
                &&& e < fin.tokens.len()
                &&& code(fin.tokens[e].kind) == i
                &&& opening_kind(fin.tokens[e].kind)
            } by {
                let e = fin.open[i]->0 as int;
                assert(s3.tokens[e].kind != TokenKind::Plain);
                assert(e < pb2 - 1);
                assert(fin.tokens[e] == s3.tokens[e]);
                assert(e < r3.tokens.len());
            }
            assert(contents(fin.tokens) =~= contents(r.tokens));
        },
        Err(_) => {},
    }
}

/// Reading up to a token of the given kind (or to the end of the input) keeps the contents
/// and the scope.
proof fn lemma_until_content(s: TokState, kind: TokenKind, prev_len: int, pb: int, m: int)
    requires
        head_ok(s, pb, m),
        prev_len == s.tokens.len(),
    ensures
        until(s, kind, prev_len) matches Ok(r) ==> {
            &&& head_ok(r, pb, m)
            &&& r.graphemes == s.graphemes
            &&& s.next <= r.next
            &&& frame(s.tokens, r.tokens, pb)
            &&& (kind != TokenKind::Eoi && s.tokens.len() > 0 ==> r.tokens.len() > 0 && r.tokens.last().kind == kind)
            &&& (kind == TokenKind::Eoi ==> r.next == r.graphemes.len())
        },
    decreases 3 * rem(s) + 2,
{
    if s.next < 0 || s.next >= s.graphemes.len() {
        lemma_frame_refl(s.tokens, pb);
    } else {
        let g = s.graphemes[s.next];
        let s1 = with_next(s, s.next + 1);
        assert(step_ready(s1, g, pb, m));
        lemma_update_tokens(s1, g, pb, m);
        match update_tokens(s1, g) {
            Ok(s2) => {
                lemma_fixate(s2, prev_len, pb);
                let s5 = fixate(s2, prev_len);
                lemma_frame_trans(s.tokens, s2.tokens, s5.tokens, pb);
                assert(head_ok(s5, pb, m));
                if !(s2.tokens.len() != prev_len && s2.tokens.len() > 0 && s2.tokens.last().kind == kind) {
                    assert(0 <= rem(s5) < rem(s));
                    lemma_until_content(s5, kind, s5.tokens.len() as int, pb, m);
                    match until(s5, kind, s5.tokens.len() as int) {
                        Ok(r) => {
                            lemma_frame_trans(s.tokens, s5.tokens, r.tokens, pb);
                        },
                        Err(_) => {},
                    }
                }
            },
            Err(_) => {},
        }
    }
}

/// The tokens hold the input: their contents, one after the other, are the graphemes of the
/// input without the backslashes that escape a grapheme, and without any `]` that comes before
/// every other text.
pub proof fn lemma_tokens_hold_input(input: Seq<char>, offset: Position)
    requires
        4 * graphemes_of(input).len() <= usize::MAX,
    ensures
        spec_tokenize(input, offset) matches Ok(ts) ==> contents(ts) == unescaped(
            graphemes_of(input),
            graphemes_of(input).len() as int,
        ),
{
    let s0 = initial(input, offset);
    lemma_no_open_ok(s0.tokens, -1, 0);
    assert(contents(s0.tokens) =~= Seq::<char>::empty());
    assert(head_ok(s0, 0, 0));
    lemma_until_content(s0, TokenKind::Eoi, 0, 0, 0);
    match until(s0, TokenKind::Eoi, 0) {
        Ok(s) => {
            lemma_update_open_map(s, true, 0);
            let u = update_open_map(s, true);
            lemma_try_closing(u, true, 0);
            let t = try_closing_fixated(u, true);
            lemma_cleanup(t, 0);
        },
        Err(_) => {},
    }
}

/// An input that tokenizing keeps whole: it holds no backslash and does not start with `]`.
pub open spec fn kept_whole(input: Seq<char>) -> bool {
    &&& forall|i: int| 0 <= i < input.len() ==> input[i] != '\\'
    &&& input.len() > 0 ==> input[0] != ']'
}

proof fn lemma_flatten_split(gs: Seq<Seq<char>>, k: int)
    requires
        0 <= k <= gs.len(),
    ensures
        flatten(gs) == flatten(gs.take(k)) + flatten(gs.skip(k)),
    decreases gs.len(),
{
    if k == gs.len() {
        assert(gs.take(k) =~= gs);
        assert(gs.skip(k) =~= Seq::<Seq<char>>::empty());
        assert(flatten(gs) + Seq::<char>::empty() =~= flatten(gs));
    } else {
        let dl = gs.drop_last();
        lemma_flatten_split(dl, k);
        assert(dl.take(k) =~= gs.take(k));
        assert(gs.skip(k).drop_last() =~= dl.skip(k));
        assert(gs.skip(k).last() == gs.last());
        assert(flatten(gs) =~= flatten(gs.take(k)) + flatten(gs.skip(k)));
    }
}

proof fn lemma_flatten_len(gs: Seq<Seq<char>>)
    requires
        forall|i: int| 0 <= i < gs.len() ==> #[trigger] gs[i].len() > 0,
    ensures
        gs.len() <= flatten(gs).len(),
    decreases gs.len(),
{
    if gs.len() > 0 {
        let dl = gs.drop_last();
        assert forall|i: int| 0 <= i < dl.len() implies #[trigger] dl[i].len() > 0 by {
            assert(dl[i] == gs[i]);
        }
        lemma_flatten_len(dl);
        assert(gs[gs.len() - 1].len() > 0);
    }
}

/// Each grapheme stands in the text that the graphemes make, after those before it.
pub proof fn lemma_grapheme_in_text(gs: Seq<Seq<char>>, i: int, j: int)
    requires
        0 <= i < gs.len(),
        0 <= j < gs[i].len(),
    ensures
        flatten(gs.take(i)).len() + j < flatten(gs).len(),
        flatten(gs)[flatten(gs.take(i)).len() + j] == gs[i][j],
{
    lemma_flatten_split(gs, i + 1);
    let t = gs.take(i + 1);
    assert(t.drop_last() =~= gs.take(i));
    assert(t.last() == gs[i]);
    assert(flatten(t) == flatten(gs.take(i)) + gs[i]);
}

proof fn lemma_unescaped_whole(gs: Seq<Seq<char>>, n: int)
    requires
        0 <= n <= gs.len(),
        forall|i: int| 0 <= i < gs.len() ==> single_kind_of(#[trigger] gs[i]) != SingleTokenKind::Backslash,
        gs.len() > 0 ==> single_kind_of(gs[0]) != SingleTokenKind::RightSquareBracket,
    ensures
        unescaped(gs, n) == flatten(gs.take(n)),
        !escape_after(gs, n),
        n > 0 ==> begun_after(gs, n),
    decreases n,
{
    if n == 0 {
        assert(gs.take(0) =~= Seq::<Seq<char>>::empty());
    } else {
        lemma_unescaped_whole(gs, n - 1);
        assert(single_kind_of(gs[n - 1]) != SingleTokenKind::Backslash);
        assert(keeps(gs, n));
        let t = gs.take(n);
        assert(t.drop_last() =~= gs.take(n - 1));
        assert(t.last() == gs[n - 1]);
    }
}

/// The tokens hold the whole input where it has no backslash and does not start with `]`, given
/// that the graphemes of the input, none of them empty, make the input.
pub proof fn lemma_tokens_hold_whole_input(input: Seq<char>, offset: Position)
    requires
        kept_whole(input),
        flatten(graphemes_of(input)) == input,
        forall|i: int| 0 <= i < graphemes_of(input).len() ==> #[trigger] graphemes_of(input)[i].len() > 0,
        4 * input.len() <= usize::MAX,
    ensures
        spec_tokenize(input, offset) matches Ok(ts) ==> contents(ts) == input,
{
    let gs = graphemes_of(input);
    lemma_flatten_len(gs);
    assert forall|i: int| 0 <= i < gs.len() implies single_kind_of(#[trigger] gs[i]) != SingleTokenKind::Backslash by {
        if gs[i] == seq!['\\'] {
            lemma_grapheme_in_text(gs, i, 0);
        }
    }
    if gs.len() > 0 {
        assert(gs[0].len() > 0);
        lemma_grapheme_in_text(gs, 0, 0);
        assert(gs.take(0) =~= Seq::<Seq<char>>::empty());
        if gs[0] == seq![']'] {
            assert(input[0] == ']');
        }
    }
    lemma_unescaped_whole(gs, gs.len() as int);
    assert(gs.take(gs.len() as int) =~= gs);
    lemma_tokens_hold_input(input, offset);
}

/// Reading one grapheme keeps the text: from a state that holds exactly what the graphemes
/// read so far give (and keeps its tokens within bounds), the state after the next grapheme (a
/// `[` reads its whole text group) holds exactly what the graphemes read up to then give.
pub proof fn lemma_step_keeps_text(s: TokState, g: Seq<char>, pb: int, m: int)
    requires
        step_ready(s, g, pb, m),
        s.tokens.len() > 0 ==> s.tokens.last().kind != TokenKind::Eoi,
    ensures
        update_tokens(s, g) matches Ok(r) ==> {
            &&& r.graphemes == s.graphemes
            &&& s.next <= r.next
            &&& contents(r.tokens) == unescaped(r.graphemes, r.next)
        },
{
    lemma_update_tokens(s, g, pb, m);
}

/// The last token, where it is an asterisk keyword, holds its kind's text.
pub open spec fn last_keyword_fixed(s: TokState) -> bool {
    s.tokens.len() > 0 && asterisk_kind(s.tokens.last().kind) ==> s.tokens.last().content == kind_str(
        s.tokens.last().kind,
    )
}

proof fn lemma_contents_append_last(ts: Seq<TokenV>, c: Seq<char>)
    requires
        ts.len() > 0,
    ensures
        contents(append_last(ts, c)) == contents(ts) + c,
{
    let a = append_last(ts, c);
    assert(a.drop_last() =~= ts.drop_last());
    assert(contents(ts) == contents(ts.drop_last()) + ts.last().content);
    assert(contents(a) =~= contents(ts) + c);
}

proof fn lemma_contents_push2(ts: Seq<TokenV>, a: TokenV, b: TokenV)
    ensures
        contents(ts.push(a).push(b)) == contents(ts) + a.content + b.content,
{
    lemma_contents_push(ts, a);
    lemma_contents_push(ts.push(a), b);
}

proof fn lemma_contents_push3(ts: Seq<TokenV>, a: TokenV, b: TokenV, c: TokenV)
    ensures
        contents(ts.push(a).push(b).push(c)) == contents(ts) + a.content + b.content + c.content,
{
    lemma_contents_push2(ts, a, b);
    lemma_contents_push(ts.push(a).push(b), c);
}

/// What `*` after `last` adds to the text of `s0`'s tokens: the text of `last` and the `*`.
pub open spec fn adds_star(s0: TokState, last: TokenV, r: TokState) -> bool {
    contents(r.tokens) == contents(s0.tokens) + last.content + seq!['*']
}

proof fn lemma_star_texts()
    ensures
        kind_str(TokenKind::ItalicOpen) == seq!['*'],
        kind_str(TokenKind::ItalicClose) == seq!['*'],
        kind_str(TokenKind::BoldOpen) == seq!['*', '*'],
        kind_str(TokenKind::BoldClose) == seq!['*', '*'],
        kind_str(TokenKind::BoldItalicOpen) == seq!['*', '*', '*'],
        kind_str(TokenKind::BoldItalicClose) == seq!['*', '*', '*'],
        seq!['*'] + seq!['*'] == seq!['*', '*'],
        seq!['*', '*'] + seq!['*'] == seq!['*', '*', '*'],
        seq!['*'] + seq!['*', '*'] == seq!['*', '*', '*'],
{
    assert(seq!['*'] + seq!['*'] =~= seq!['*', '*']);
    assert(seq!['*', '*'] + seq!['*'] =~= seq!['*', '*', '*']);
    assert(seq!['*'] + seq!['*', '*'] =~= seq!['*', '*', '*']);
}

proof fn lemma_star_after_italic_open(s0: TokState, last: TokenV, g: Seq<char>)
    requires
        g == seq!['*'],
    ensures
        adds_star(s0, last, asterisk_after_italic_open(s0, last, g)),
{
    let ts = s0.tokens;
    assert forall|k: TokenKind| true implies contents(#[trigger] ts.push(tok(k, last.content + g, last.position)))
        == contents(ts) + last.content + g by {
        lemma_contents_push(ts, tok(k, last.content + g, last.position));
        assert(contents(ts) + (last.content + g) =~= contents(ts) + last.content + g);
    }
}

proof fn lemma_star_after_bold_open(s0: TokState, last: TokenV, g: Seq<char>)
    requires
        g == seq!['*'],
        last.content == seq!['*', '*'],
    ensures
        adds_star(s0, last, asterisk_after_bold_open(s0, last, g)),
{
    lemma_star_texts();
    let ts = s0.tokens;
    let star = seq!['*'];
    let two = seq!['*', '*'];
    if is_open(s0, TokenKind::ItalicOpen) {
        if preceded_by_space(s0) {
            let l1 = tok(TokenKind::Plain, star, last.position);
            let s1 = push_tok(advance(s0, l1), l1);
            let ic = tok(TokenKind::ItalicClose, star, s1.cur);
            let s2 = push_tok(advance(s1, ic), ic);
            let t3 = tok(TokenKind::ItalicOpen, star, s2.cur);
            lemma_contents_push3(ts, l1, ic, t3);
            assert(contents(ts) + star + star + star =~= contents(ts) + two + star);
        } else {
            let l1 = tok(TokenKind::ItalicClose, star, last.position);
            let s1 = push_tok(advance(s0, l1), l1);
            let t2 = tok(TokenKind::BoldOpen, two, s1.cur);
            lemma_contents_push2(ts, l1, t2);
            assert(contents(ts) + star + two =~= contents(ts) + two + star);
        }
    } else {
        lemma_contents_push(ts, tok(TokenKind::BoldItalicOpen, last.content + g, last.position));
        assert(contents(ts) + (last.content + g) =~= contents(ts) + last.content + g);
    }
}

proof fn lemma_star_after_bold_italic_open(s0: TokState, last: TokenV)
    requires
        last.content == seq!['*', '*', '*'],
    ensures
        adds_star(s0, last, asterisk_after_bold_italic_open(s0, last)),
{
    lemma_star_texts();
    let ts = s0.tokens;
    let star = seq!['*'];
    let two = seq!['*', '*'];
    let three = seq!['*', '*', '*'];
    let l1 = tok(TokenKind::Plain, star, last.position);
    let s1 = advance(s0, l1);
    let bic = tok(TokenKind::BoldItalicClose, three, s1.cur);
    lemma_contents_push2(ts, l1, bic);
    let ic = tok(TokenKind::ItalicClose, star, s1.cur);
    let bo = tok(TokenKind::BoldOpen, two, s1.cur);
    lemma_contents_push3(ts, l1, ic, bo);
    let s2 = push_tok(s1, l1);
    let bc = tok(TokenKind::BoldClose, two, s2.cur);
    let s3 = push_tok(advance(s2, bc), bc);
    let io = tok(TokenKind::ItalicOpen, star, s3.cur);
    lemma_contents_push3(ts, l1, bc, io);
    assert(contents(ts) + star + three =~= contents(ts) + three + star);
    assert(contents(ts) + star + star + two =~= contents(ts) + three + star);
    assert(contents(ts) + star + two + star =~= contents(ts) + three + star);
    if ts.len() > 0 && ts.last().kind == TokenKind::Plain {
        let a = append_last(ts, star);
        lemma_contents_append_last(ts, star);
        lemma_contents_push(a, tok(TokenKind::BoldItalicOpen, three, s1.cur));
    } else {
        lemma_contents_push2(ts, l1, tok(TokenKind::BoldItalicOpen, three, s1.cur));
    }
}

proof fn lemma_star_after_bold_close(s0: TokState, last: TokenV, g: Seq<char>)
    requires
        g == seq!['*'],
        last.content == seq!['*', '*'],
    ensures
        adds_star(s0, last, asterisk_after_bold_close(s0, last, g)),
{
    lemma_star_texts();
    let ts = s0.tokens;
    let star = seq!['*'];
    let two = seq!['*', '*'];
    if is_open(s0, TokenKind::BoldItalicOpen) {
        lemma_contents_push(ts, tok(TokenKind::BoldItalicClose, last.content + g, last.position));
        assert(contents(ts) + (last.content + g) =~= contents(ts) + last.content + g);
    } else if is_open(s0, TokenKind::ItalicOpen) {
        let l1 = tok(TokenKind::BoldClose, two, last.position);
        let s1 = push_tok(advance(s0, l1), l1);
        lemma_contents_push2(ts, l1, tok(TokenKind::ItalicClose, star, s1.cur));
        let m1 = tok(TokenKind::ItalicClose, star, last.position);
        let t1 = push_tok(advance(s0, m1), m1);
        lemma_contents_push2(ts, m1, tok(TokenKind::BoldClose, two, t1.cur));
        assert(contents(ts) + star + two =~= contents(ts) + two + star);
    } else {
        let s1 = push_tok(advance(s0, last), last);
        lemma_contents_push2(ts, last, tok(TokenKind::ItalicOpen, g, s1.cur));
    }
}

proof fn lemma_star_after_plain_push(s0: TokState, last: TokenV, g: Seq<char>)
    requires
        g == seq!['*'],
    ensures
        adds_star(s0, last, asterisk_after_italic_close(s0, last, g)),
        adds_star(s0, last, asterisk_after_other(s0, last, g)),
        ({
            let s1 = push_tok(advance(s0, last), last);
            adds_star(s0, last, push_tok(s1, tok(TokenKind::ItalicOpen, g, s1.cur)))
        }),
{
    let ts = s0.tokens;
    assert forall|k: TokenKind| true implies contents(#[trigger] ts.push(tok(k, last.content + g, last.position)))
        == contents(ts) + last.content + g by {
        lemma_contents_push(ts, tok(k, last.content + g, last.position));
        assert(contents(ts) + (last.content + g) =~= contents(ts) + last.content + g);
    }
    assert forall|k: TokenKind, p: Position| true implies contents(#[trigger] ts.push(last).push(tok(k, g, p)))
        == contents(ts) + last.content + g by {
        lemma_contents_push2(ts, last, tok(k, g, p));
    }
}

/// A `*` adds its own text after the text of the tokens, given that the last token, where it is
/// an asterisk keyword, holds its kind's text; it leaves the table of open tokens, the escape
/// flag and the place in the input as they were.
pub proof fn lemma_asterisk_adds_its_text(s: TokState, g: Seq<char>)
    requires
        g == seq!['*'],
        last_keyword_fixed(s),
    ensures
        contents(update_asterisk(s, g).tokens) == contents(s.tokens) + g,
        update_asterisk(s, g).open == s.open,
        update_asterisk(s, g).escape == s.escape,
        update_asterisk(s, g).next == s.next,
        update_asterisk(s, g).graphemes == s.graphemes,
{
    reveal(update_asterisk);
    lemma_star_texts();
    if s.tokens.len() == 0 {
        lemma_contents_push(s.tokens, tok(TokenKind::ItalicOpen, g, s.cur));
        assert(contents(s.tokens) =~= Seq::<char>::empty());
        assert(Seq::<char>::empty() + g =~= g);
    } else {
        let last = s.tokens.last();
        let s0 = with_tokens(s, s.tokens.drop_last());
        assert(contents(s.tokens) == contents(s0.tokens) + last.content);
        lemma_star_after_italic_open(s0, last, g);
        if last.kind == TokenKind::BoldOpen {
            lemma_star_after_bold_open(s0, last, g);
        }
        if last.kind == TokenKind::BoldItalicOpen {
            lemma_star_after_bold_italic_open(s0, last);
        }
        if last.kind == TokenKind::BoldClose {
            lemma_star_after_bold_close(s0, last, g);
        }
        lemma_star_after_plain_push(s0, last, g);
    }
}

/// A `*` changes only the last two tokens: every token before them stays as it was, at its
/// place.
pub proof fn lemma_asterisk_keeps_earlier_tokens(s: TokState, g: Seq<char>)
    ensures
        forall|i: int|
            0 <= i < s.tokens.len() - 2 ==> i < update_asterisk(s, g).tokens.len() && #[trigger] update_asterisk(
                s,
                g,
            ).tokens[i] == s.tokens[i],
{
    reveal(update_asterisk);
    if s.tokens.len() > 2 {
        let ts = s.tokens.drop_last();
        assert forall|i: int| 0 <= i < s.tokens.len() - 2 implies i < update_asterisk(s, g).tokens.len()
            && #[trigger] update_asterisk(s, g).tokens[i] == s.tokens[i] by {
            assert(ts[i] == s.tokens[i]);
            if ts.last().kind == TokenKind::Plain {
                assert(append_last(ts, kind_str(TokenKind::ItalicOpen))[i] == ts[i]);
            }
        }
    }
}

} // verus!
