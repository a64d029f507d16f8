//! Text group tokens come only from text groups: without a `[` in the input, no token opens or
//! closes a group, and a `]` read while no group is open is text.
use super::content::contents;
use super::laws::{lemma_no_text_group_no_error, no_text_group};
use super::model::{
    advance, append_last, best_slot, bump, cleanup, code, finish_close, fixate, initial, is_open,
    keep_below, merge_from, no_open, plain_merge, push_tok, rem, set_open, spec_tokenize, split_open, tok,
    try_closing_fixated, try_closing_text_group, until, update_asterisk, update_open_map, update_tokens,
    with_content, with_kind, with_next, with_tokens, TokState, NUM_KINDS,
};
use super::tokens::{single_kind_of, Position, SingleTokenKind, TokenKind, TokenV};
use crate::text::graphemes_of;
use vstd::prelude::*;

verus! {

/// A kind that opens or closes a text group.
pub open spec fn group_kind(k: TokenKind) -> bool {
    k == TokenKind::TextGroupOpen || k == TokenKind::TextGroupClose
}

/// No token opens or closes a text group.
pub open spec fn no_group_tokens(ts: Seq<TokenV>) -> bool {
    forall|i: int| 0 <= i < ts.len() ==> !group_kind((#[trigger] ts[i]).kind)
}

/// A state outside every text group: no token of a group, and no group open.
pub open spec fn outside_groups(s: TokState) -> bool {
    &&& no_group_tokens(s.tokens)
    &&& s.open.len() == NUM_KINDS
    &&& s.open[code(TokenKind::TextGroupOpen)] is None
}

proof fn lemma_ng_push(ts: Seq<TokenV>, t: TokenV)
    requires
        no_group_tokens(ts),
        !group_kind(t.kind),
    ensures
        no_group_tokens(ts.push(t)),
{
    assert forall|i: int| 0 <= i < ts.push(t).len() implies !group_kind((#[trigger] ts.push(t)[i]).kind) by {
        if i < ts.len() {
            assert(ts.push(t)[i] == ts[i]);
        }
    }
}

proof fn lemma_ng_drop_last(ts: Seq<TokenV>)
    requires
        no_group_tokens(ts),
        ts.len() > 0,
    ensures
        no_group_tokens(ts.drop_last()),
        !group_kind(ts.last().kind),
{
    assert forall|i: int| 0 <= i < ts.drop_last().len() implies !group_kind((#[trigger] ts.drop_last()[i]).kind) by {
        assert(ts.drop_last()[i] == ts[i]);
    }
    assert(!group_kind(ts[ts.len() - 1].kind));
}

proof fn lemma_ng_update(ts: Seq<TokenV>, j: int, t: TokenV)
    requires
        no_group_tokens(ts),
        0 <= j < ts.len(),
        !group_kind(t.kind),
    ensures
        no_group_tokens(ts.update(j, t)),
{
    assert forall|i: int| 0 <= i < ts.update(j, t).len() implies !group_kind((#[trigger] ts.update(j, t)[i]).kind) by {
        if i != j {
            assert(ts.update(j, t)[i] == ts[i]);
        }
    }
}

proof fn lemma_ng_insert(ts: Seq<TokenV>, j: int, t: TokenV)
    requires
        no_group_tokens(ts),
        0 <= j <= ts.len(),
        !group_kind(t.kind),
    ensures
        no_group_tokens(ts.insert(j, t)),
{
    assert forall|i: int| 0 <= i < ts.insert(j, t).len() implies !group_kind((#[trigger] ts.insert(j, t)[i]).kind) by {
        if i < j {
            assert(ts.insert(j, t)[i] == ts[i]);
        } else if i > j {
            assert(ts.insert(j, t)[i] == ts[i - 1]);
        }
    }
}

proof fn lemma_ng_remove(ts: Seq<TokenV>, j: int)
    requires
        no_group_tokens(ts),
        0 <= j < ts.len(),
    ensures
        no_group_tokens(ts.remove(j)),
{
    assert forall|i: int| 0 <= i < ts.remove(j).len() implies !group_kind((#[trigger] ts.remove(j)[i]).kind) by {
        if i < j {
            assert(ts.remove(j)[i] == ts[i]);
        } else {
            assert(ts.remove(j)[i] == ts[i + 1]);
        }
    }
}

proof fn lemma_ng_append_last(ts: Seq<TokenV>, c: Seq<char>)
    requires
        no_group_tokens(ts),
        ts.len() > 0,
    ensures
        no_group_tokens(append_last(ts, c)),
{
    lemma_ng_drop_last(ts);
    lemma_ng_update(ts, ts.len() - 1, with_content(ts.last(), ts.last().content + c));
}

proof fn lemma_ng_plain_merge(ts: Seq<TokenV>, index: int)
    requires
        no_group_tokens(ts),
    ensures
        no_group_tokens(plain_merge(ts, index)),
{
    if 0 <= index < ts.len() {
        let token = with_kind(ts[index], TokenKind::Plain);
        let ts1 = ts.remove(index);
        lemma_ng_remove(ts, index);
        let merged_next = index < ts1.len() && ts1[index].kind == TokenKind::Plain;
        let token2 = if merged_next {
            with_content(token, token.content + ts1[index].content)
        } else {
            token
        };
        if merged_next {
            lemma_ng_remove(ts1, index);
        }
        let ts2 = if merged_next {
            ts1.remove(index)
        } else {
            ts1
        };
        if index > 0 && ts2[index - 1].kind == TokenKind::Plain {
            lemma_ng_update(ts2, index - 1, with_content(ts2[index - 1], ts2[index - 1].content + token2.content));
        } else {
            lemma_ng_insert(ts2, index, token2);
        }
    }
}

proof fn lemma_ng_merge_from(ts: Seq<TokenV>, open: Seq<Option<usize>>, lower: usize, fuel: nat)
    requires
        no_group_tokens(ts),
    ensures
        no_group_tokens(merge_from(ts, open, lower, fuel)),
    decreases fuel,
{
    if fuel > 0 {
        match best_slot(open, lower, open.len() as int) {
            Some(j) => {
                lemma_ng_plain_merge(ts, open[j]->0 as int);
                lemma_ng_merge_from(plain_merge(ts, open[j]->0 as int), open.update(j, None), lower, (fuel - 1) as nat);
            },
            None => {},
        }
    }
}

proof fn lemma_og_cleanup(s: TokState)
    requires
        outside_groups(s),
    ensures
        outside_groups(cleanup(s)),
{
    reveal(cleanup);
    lemma_ng_merge_from(s.tokens, s.open, 0, NUM_KINDS as nat);
}

proof fn lemma_og_update_open_map(s: TokState, next_is_space: bool)
    requires
        outside_groups(s),
    ensures
        outside_groups(update_open_map(s, next_is_space)),
{
    reveal(update_open_map);
    if s.tokens.len() > 0 {
        let prev = s.tokens.last();
        let ts = s.tokens.drop_last();
        lemma_ng_drop_last(s.tokens);
        if ts.len() > 0 {
            lemma_ng_append_last(ts, prev.content);
        }
        lemma_ng_push(ts, with_kind(prev, TokenKind::Plain));
        lemma_ng_push(ts, prev);
        let o = set_open(s.open, prev.kind, Some(ts.len() as usize));
        assert(o[code(TokenKind::TextGroupOpen)] == s.open[code(TokenKind::TextGroupOpen)]);
    }
}

proof fn lemma_og_try_closing(s: TokState, next_is_space: bool)
    requires
        outside_groups(s),
    ensures
        outside_groups(try_closing_fixated(s, next_is_space)),
{
    reveal(try_closing_fixated);
    if s.tokens.len() > 0 {
        let last = s.tokens.last();
        let ts = s.tokens.drop_last();
        lemma_ng_drop_last(s.tokens);
        lemma_ng_push(ts, last);
        let tgo = code(TokenKind::TextGroupOpen);
        let italic = TokenKind::ItalicOpen;
        let bold = TokenKind::BoldOpen;
        let bio = TokenKind::BoldItalicOpen;
        assert(no_open().len() == NUM_KINDS && no_open()[tgo] is None);
        assert(set_open(no_open(), italic, Some(0usize))[tgo] is None);
        assert forall|v: usize| #![trigger set_open(no_open(), italic, Some(v))] set_open(no_open(), italic, Some(v))[tgo] is None
            && set_open(no_open(), bold, Some(v))[tgo] is None && set_open(no_open(), italic, Some(v)).len() == NUM_KINDS
            && set_open(no_open(), bold, Some(v)).len() == NUM_KINDS by {}
        assert forall|open: Seq<Option<usize>>, oi: usize| true implies no_group_tokens(
            #[trigger] merge_from(ts.push(last), open, oi, NUM_KINDS as nat),
        ) by {
            lemma_ng_merge_from(ts.push(last), open, oi, NUM_KINDS as nat);
        }
        let bothless = set_open(set_open(s.open, bold, None), italic, None);
        assert(bothless[tgo] is None && bothless.len() == NUM_KINDS);
        assert(set_open(s.open, italic, None)[tgo] is None);
        assert(set_open(s.open, bold, None)[tgo] is None);
        assert(set_open(s.open, bio, None)[tgo] is None);
        assert(set_open(s.open, TokenKind::VerbatimOpen, None)[tgo] is None);
        if is_open(s, bio) && (super::model::open_at(s, bio) as int) < ts.len() {
            let idx = super::model::open_at(s, bio) as int;
            let a = split_open(ts, idx, italic, bold);
            let b = split_open(ts, idx, bold, italic);
            lemma_ng_update(ts, idx, tok(italic, super::tokens::kind_str(italic), ts[idx].position));
            lemma_ng_update(ts, idx, tok(bold, super::tokens::kind_str(bold), ts[idx].position));
            assert forall|p: Position, t: Seq<TokenV>, k: TokenKind| !group_kind(k) && no_group_tokens(t) && 0 <= idx + 1 <= t.len()
                implies no_group_tokens(#[trigger] t.insert(idx + 1, tok(k, super::tokens::kind_str(k), p))) by {
                lemma_ng_insert(t, idx + 1, tok(k, super::tokens::kind_str(k), p));
            }
            lemma_ng_push(a, last);
            lemma_ng_push(b, last);
            assert forall|open: Seq<Option<usize>>, oi: usize| true implies no_group_tokens(
                #[trigger] merge_from(a.push(last), open, oi, NUM_KINDS as nat),
            ) && no_group_tokens(merge_from(b.push(last), open, oi, NUM_KINDS as nat)) by {
                lemma_ng_merge_from(a.push(last), open, oi, NUM_KINDS as nat);
                lemma_ng_merge_from(b.push(last), open, oi, NUM_KINDS as nat);
            }
        }
        if ts.len() > 0 {
            lemma_ng_append_last(ts, last.content);
        }
        lemma_ng_push(ts, with_kind(last, TokenKind::Plain));
        lemma_ng_push(ts, with_kind(last, italic));
        assert(set_open(s.open, italic, Some(ts.len() as usize))[tgo] is None);
    }
}

proof fn lemma_og_update_asterisk(s: TokState, g: Seq<char>)
    requires
        outside_groups(s),
    ensures
        outside_groups(update_asterisk(s, g)),
{
    reveal(update_asterisk);
    if s.tokens.len() > 0 {
        let last = s.tokens.last();
        let ts = s.tokens.drop_last();
        lemma_ng_drop_last(s.tokens);
        assert forall|t1: TokenV| #![trigger ts.push(t1)] !group_kind(t1.kind) implies no_group_tokens(ts.push(t1)) by {
            lemma_ng_push(ts, t1);
        }
        assert forall|t1: TokenV, t2: TokenV| #![trigger ts.push(t1).push(t2)] !group_kind(t1.kind) && !group_kind(t2.kind)
            implies no_group_tokens(ts.push(t1).push(t2)) by {
            lemma_ng_push(ts, t1);
            lemma_ng_push(ts.push(t1), t2);
        }
        assert forall|t1: TokenV, t2: TokenV, t3: TokenV| #![trigger ts.push(t1).push(t2).push(t3)] !group_kind(t1.kind)
            && !group_kind(t2.kind) && !group_kind(t3.kind) implies no_group_tokens(ts.push(t1).push(t2).push(t3)) by {
            lemma_ng_push(ts, t1);
            lemma_ng_push(ts.push(t1), t2);
            lemma_ng_push(ts.push(t1).push(t2), t3);
        }
        if ts.len() > 0 {
            let c = super::tokens::kind_str(TokenKind::ItalicOpen);
            lemma_ng_append_last(ts, c);
            let a = append_last(ts, c);
            assert forall|p: Position| true implies no_group_tokens(
                #[trigger] a.push(tok(TokenKind::BoldItalicOpen, super::tokens::kind_str(TokenKind::BoldItalicOpen), p)),
            ) by {
                lemma_ng_push(a, tok(TokenKind::BoldItalicOpen, super::tokens::kind_str(TokenKind::BoldItalicOpen), p));
            }
        }
    } else {
        lemma_ng_push(s.tokens, tok(TokenKind::ItalicOpen, g, s.cur));
    }
}

/// A `]` read while no text group is open is text: it joins a plain token before it, or starts
/// one; the text of the tokens grows by it, and the table of open tokens stays as it was.
pub proof fn lemma_stray_bracket_is_text(s: TokState, g: Seq<char>)
    requires
        !is_open(s, TokenKind::TextGroupOpen),
        s.tokens.len() > 0,
    ensures
        try_closing_text_group(s, g).tokens.last().kind == TokenKind::Plain,
        contents(try_closing_text_group(s, g).tokens) == contents(s.tokens) + g,
        try_closing_text_group(s, g).open == s.open,
        s.tokens.last().kind == TokenKind::Plain ==> try_closing_text_group(s, g).tokens.len() == s.tokens.len(),
{
    let s1 = advance(s, s.tokens.last());
    if s1.tokens.last().kind == TokenKind::Plain {
        let a = append_last(s1.tokens, g);
        assert(a.drop_last() =~= s.tokens.drop_last());
        assert(contents(s.tokens) == contents(s.tokens.drop_last()) + s.tokens.last().content);
        assert(contents(a) =~= contents(s.tokens) + g);
    } else {
        super::content::lemma_contents_push(s.tokens, tok(TokenKind::Plain, g, s1.cur));
    }
}

proof fn lemma_og_step(s: TokState, g: Seq<char>)
    requires
        outside_groups(s),
        single_kind_of(g) != SingleTokenKind::LeftSquareBracket,
    ensures
        update_tokens(s, g) matches Ok(r) ==> outside_groups(r) && r.graphemes == s.graphemes,
{
    reveal(update_asterisk);
    let b = bump(s);
    if s.tokens.len() > 0 {
        lemma_ng_append_last(s.tokens, g);
        let a = advance(s, s.tokens.last());
        lemma_ng_append_last(a.tokens, g);
    }
    assert forall|k: TokenKind, p: Position| !group_kind(k) implies no_group_tokens(#[trigger] s.tokens.push(tok(k, g, p))) by {
        lemma_ng_push(s.tokens, tok(k, g, p));
    }
    lemma_og_update_asterisk(s, g);
    assert(!is_open(s, TokenKind::TextGroupOpen));
}

proof fn lemma_og_fixate(s2: TokState, prev_len: int)
    requires
        outside_groups(s2),
    ensures
        outside_groups(fixate(s2, prev_len)),
        fixate(s2, prev_len).graphemes == s2.graphemes,
{
    reveal(update_open_map);
    reveal(try_closing_fixated);
    if s2.tokens.len() != prev_len && s2.tokens.len() > 0 {
        let last = s2.tokens.last();
        let s3 = with_tokens(s2, s2.tokens.drop_last());
        lemma_ng_drop_last(s2.tokens);
        let sp = last.kind.spec_is_space_or_newline();
        lemma_og_update_open_map(s3, sp);
        lemma_og_try_closing(update_open_map(s3, sp), sp);
        let s4 = if last.kind != TokenKind::TextGroupClose {
            try_closing_fixated(update_open_map(s3, sp), sp)
        } else {
            s3
        };
        lemma_ng_push(s4.tokens, last);
    }
}

proof fn lemma_og_until(s: TokState, kind: TokenKind, prev_len: int)
    requires
        outside_groups(s),
        no_text_group(s.graphemes),
    ensures
        until(s, kind, prev_len) matches Ok(r) ==> outside_groups(r),
    decreases 3 * rem(s) + 2,
{
    if !(s.next < 0 || s.next >= s.graphemes.len()) {
        let g = s.graphemes[s.next];
        let s1 = with_next(s, s.next + 1);
        assert(single_kind_of(g) != SingleTokenKind::LeftSquareBracket);
        lemma_og_step(s1, g);
        match update_tokens(s1, g) {
            Ok(s2) => {
                lemma_og_fixate(s2, prev_len);
                let s5 = fixate(s2, prev_len);
                if 0 <= rem(s5) < rem(s) {
                    lemma_og_until(s5, kind, s5.tokens.len() as int);
                }
            },
            Err(_) => {},
        }
    }
}

/// Text group tokens come only from text groups: an input without `[` is tokenized, and none of
/// its tokens opens or closes a text group (a `]` in it is text).
pub proof fn lemma_no_group_tokens_without_brackets(input: Seq<char>, offset: Position)
    requires
        no_text_group(graphemes_of(input)),
    ensures
        spec_tokenize(input, offset) is Ok,
        spec_tokenize(input, offset) matches Ok(ts) ==> no_group_tokens(ts),
{
    lemma_no_text_group_no_error(input, offset);
    let s0 = initial(input, offset);
    assert(no_group_tokens(s0.tokens));
    lemma_og_until(s0, TokenKind::Eoi, 0);
    match until(s0, TokenKind::Eoi, 0) {
        Ok(s) => {
            lemma_og_update_open_map(s, true);
            lemma_og_try_closing(update_open_map(s, true), true);
            lemma_og_cleanup(try_closing_fixated(update_open_map(s, true), true));
        },
        Err(_) => {},
    }
}

/// An input without the character `[`: given that its graphemes, none of them empty, make the
/// input, none of them is a `[`.
pub proof fn lemma_no_bracket_graphemes(input: Seq<char>)
    requires
        forall|i: int| 0 <= i < input.len() ==> input[i] != '[',
        crate::text::flatten(graphemes_of(input)) == input,
        forall|i: int| 0 <= i < graphemes_of(input).len() ==> #[trigger] graphemes_of(input)[i].len() > 0,
    ensures
        no_text_group(graphemes_of(input)),
{
    let gs = graphemes_of(input);
    assert forall|i: int| 0 <= i < gs.len() implies single_kind_of(#[trigger] gs[i]) != SingleTokenKind::LeftSquareBracket by {
        if gs[i] == seq!['['] {
            super::content::lemma_grapheme_in_text(gs, i, 0);
        }
    }
}

} // verus!
