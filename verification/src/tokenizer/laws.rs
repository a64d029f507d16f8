//! Laws of tokenization.
use super::model::{
    best_slot, bump, cleanup, code, keep_below, finish_close, fixate, initial, is_open, merge_from, no_open, open_at,
    open_text_group, plain_merge, rem, set_open, spec_tokenize, split_open, tok, try_closing_fixated,
    until, update_asterisk, update_open_map, update_tokens, with_next, with_tokens, TokState, NUM_KINDS,
};
use super::content::{entries_ok, lemma_entries_distinct};
use super::tokens::{single_kind_of, Position, SingleTokenKind, TokenKind, TokenV};
use crate::text::graphemes_of;
use vstd::prelude::*;

verus! {

/// The first token starts at `o`; before any token exists, the current position is `o`.
pub open spec fn first_at(s: TokState, o: Position) -> bool {
    if s.tokens.len() > 0 {
        s.tokens[0].position == o
    } else {
        s.cur == o
    }
}

/// A rewrite of the tokens keeps the start of the first token and does not empty them.
pub open spec fn keeps_first(a: Seq<TokenV>, b: Seq<TokenV>) -> bool {
    a.len() > 0 ==> (b.len() > 0 && b[0].position == a[0].position)
}

proof fn lemma_plain_merge_first(ts: Seq<TokenV>, index: int)
    ensures
        keeps_first(ts, plain_merge(ts, index)),
{
}

proof fn lemma_merge_from_first(ts: Seq<TokenV>, open: Seq<Option<usize>>, lower: usize, fuel: nat)
    ensures
        keeps_first(ts, merge_from(ts, open, lower, fuel)),
        ts.len() == 0 ==> merge_from(ts, open, lower, fuel) == ts,
    decreases fuel,
{
    if fuel > 0 {
        match best_slot(open, lower, open.len() as int) {
            Some(j) => {
                let ts1 = plain_merge(ts, open[j]->0 as int);
                lemma_plain_merge_first(ts, open[j]->0 as int);
                lemma_merge_from_first(ts1, open.update(j, None), lower, (fuel - 1) as nat);
            },
            None => {},
        }
    }
}

proof fn lemma_update_open_map_first(s: TokState, b: bool)
    ensures
        keeps_first(s.tokens, update_open_map(s, b).tokens),
        update_open_map(s, b).cur == s.cur,
        s.tokens.len() == 0 ==> update_open_map(s, b) == s,
{
    reveal(update_open_map);
}

proof fn lemma_finish_close_first(
    s: TokState,
    ts: Seq<TokenV>,
    last: TokenV,
    open: Seq<Option<usize>>,
    open_index: usize,
    upd: Seq<Option<usize>>,
)
    requires
        ts.len() > 0 ==> ts[0].position == s.tokens[0].position,
        ts.len() == 0 ==> last.position == s.tokens[0].position,
        s.tokens.len() > 0,
    ensures
        keeps_first(s.tokens, finish_close(s, ts, last, open, open_index, upd).tokens),
        finish_close(s, ts, last, open, open_index, upd).cur == s.cur,
{
    lemma_merge_from_first(ts.push(last), open, open_index, NUM_KINDS as nat);
}

proof fn lemma_try_closing_first(s: TokState, b: bool)
    ensures
        keeps_first(s.tokens, try_closing_fixated(s, b).tokens),
        try_closing_fixated(s, b).cur == s.cur,
        s.tokens.len() == 0 ==> try_closing_fixated(s, b) == s,
{
    reveal(try_closing_fixated);
    if s.tokens.len() > 0 {
        let last = s.tokens.last();
        let ts = s.tokens.drop_last();
        let bio = TokenKind::BoldItalicOpen;
        let e = no_open();
        match last.kind {
            TokenKind::BoldClose => {
                if is_open(s, TokenKind::BoldOpen) {
                    lemma_finish_close_first(s, ts, last, set_open(s.open, TokenKind::BoldOpen, None), open_at(s, TokenKind::BoldOpen), e);
                } else if is_open(s, bio) && (open_at(s, bio) as int) < ts.len() {
                    let idx = open_at(s, bio);
                    lemma_finish_close_first(
                        s,
                        split_open(ts, idx as int, TokenKind::ItalicOpen, TokenKind::BoldOpen),
                        last,
                        set_open(s.open, bio, None),
                        idx,
                        set_open(e, TokenKind::ItalicOpen, Some(idx)),
                    );
                }
            },
            TokenKind::ItalicClose => {
                if is_open(s, TokenKind::ItalicOpen) {
                    lemma_finish_close_first(s, ts, last, set_open(s.open, TokenKind::ItalicOpen, None), open_at(s, TokenKind::ItalicOpen), e);
                } else if is_open(s, bio) {
                    let idx = open_at(s, bio);
                    if (idx as int) < ts.len() {
                        lemma_finish_close_first(
                            s,
                            split_open(ts, idx as int, TokenKind::BoldOpen, TokenKind::ItalicOpen),
                            last,
                            set_open(s.open, bio, None),
                            idx,
                            set_open(e, TokenKind::BoldOpen, Some(idx)),
                        );
                    }
                }
            },
            TokenKind::BoldItalicClose => {
                if is_open(s, bio) {
                    lemma_finish_close_first(s, ts, last, set_open(s.open, bio, None), open_at(s, bio), e);
                } else if is_open(s, TokenKind::BoldOpen) && is_open(s, TokenKind::ItalicOpen) {
                    let b1 = open_at(s, TokenKind::BoldOpen);
                    let i1 = open_at(s, TokenKind::ItalicOpen);
                    let m = if b1 < i1 {
                        b1
                    } else {
                        i1
                    };
                    lemma_finish_close_first(
                        s,
                        ts,
                        last,
                        set_open(set_open(s.open, TokenKind::BoldOpen, None), TokenKind::ItalicOpen, None),
                        m,
                        e,
                    );
                }
            },
            TokenKind::VerbatimClose => {
                if is_open(s, TokenKind::VerbatimOpen) {
                    lemma_finish_close_first(s, ts, last, set_open(s.open, TokenKind::VerbatimOpen, None), open_at(s, TokenKind::VerbatimOpen), e);
                }
            },
            _ => {},
        }
    }
}

proof fn lemma_cleanup_first(s: TokState)
    ensures
        keeps_first(s.tokens, cleanup(s).tokens),
        cleanup(s).cur == s.cur,
        s.tokens.len() == 0 ==> cleanup(s) == s,
{
    reveal(cleanup);
    lemma_merge_from_first(s.tokens, s.open, 0, NUM_KINDS as nat);
}

proof fn lemma_update_asterisk_first(s: TokState, g: Seq<char>, o: Position)
    requires
        first_at(s, o),
    ensures
        first_at(update_asterisk(s, g), o),
{
    reveal(update_asterisk);
}

proof fn lemma_fixate_first(s2: TokState, prev_len: int, o: Position)
    requires
        first_at(s2, o),
    ensures
        first_at(fixate(s2, prev_len), o),
{
    if s2.tokens.len() != prev_len && s2.tokens.len() > 0 {
        let last = s2.tokens.last();
        let s3 = with_tokens(s2, s2.tokens.drop_last());
        let sp = last.kind.spec_is_space_or_newline();
        lemma_update_open_map_first(s3, sp);
        lemma_try_closing_first(update_open_map(s3, sp), sp);
    }
}

proof fn lemma_update_tokens_first(s: TokState, g: Seq<char>, o: Position)
    requires
        first_at(s, o),
    ensures
        update_tokens(s, g) matches Ok(r) ==> first_at(r, o),
    decreases 3 * rem(s) + 4,
{
    if rem(s) >= 0 && !s.escape {
        match single_kind_of(g) {
            SingleTokenKind::Asterisk => lemma_update_asterisk_first(s, g, o),
            SingleTokenKind::LeftSquareBracket => lemma_open_text_group_first(s, g, o),
            _ => {},
        }
    }
}

proof fn lemma_open_text_group_first(s: TokState, g: Seq<char>, o: Position)
    requires
        first_at(s, o),
    ensures
        open_text_group(s, g) matches Ok(r) ==> first_at(r, o),
    decreases 3 * rem(s) + 3,
{
    if rem(s) >= 0 {
        let s1 = bump(s);
        lemma_update_open_map_first(s1, false);
        let s2 = update_open_map(s1, false);
        lemma_try_closing_first(s2, false);
        let s3 = try_closing_fixated(s2, false);
        let s5 = TokState {
            graphemes: s.graphemes,
            next: s.next,
            tokens: s3.tokens.push(tok(TokenKind::TextGroupOpen, g, s3.cur)),
            open: no_open(),
            cur: s3.cur,
            escape: s3.escape,
        };
        lemma_until_first(s5, TokenKind::TextGroupClose, s5.tokens.len() as int, o);
        match until(s5, TokenKind::TextGroupClose, s5.tokens.len() as int) {
            Ok(r) => {
                if r.tokens.len() > 0 {
                    let r1 = with_tokens(r, r.tokens.drop_last());
                    lemma_try_closing_first(r1, true);
                    lemma_cleanup_first(try_closing_fixated(r1, true));
                }
            },
            Err(_) => {},
        }
    }
}

proof fn lemma_until_first(s: TokState, kind: TokenKind, prev_len: int, o: Position)
    requires
        first_at(s, o),
    ensures
        until(s, kind, prev_len) matches Ok(r) ==> first_at(r, o),
    decreases 3 * rem(s) + 2,
{
    if !(s.next < 0 || s.next >= s.graphemes.len()) {
        let g = s.graphemes[s.next];
        let s1 = with_next(s, s.next + 1);
        lemma_update_tokens_first(s1, g, o);
        match update_tokens(s1, g) {
            Ok(s2) => {
                lemma_fixate_first(s2, prev_len, o);
                let s5 = fixate(s2, prev_len);
                if !(s2.tokens.len() != prev_len && s2.tokens.len() > 0 && s2.tokens.last().kind == kind) {
                    if 0 <= rem(s5) < rem(s) {
                        lemma_until_first(s5, kind, s5.tokens.len() as int, o);
                    }
                }
            },
            Err(_) => {},
        }
    }
}

/// The first token starts at the offset that tokenization was given.
pub proof fn lemma_first_token_at_offset(input: Seq<char>, offset: Position)
    ensures
        spec_tokenize(input, offset) matches Ok(ts) ==> (ts.len() > 0 ==> ts[0].position == offset),
{
    let s0 = initial(input, offset);
    lemma_until_first(s0, TokenKind::Eoi, 0, offset);
    match until(s0, TokenKind::Eoi, 0) {
        Ok(s) => {
            lemma_update_open_map_first(s, true);
            lemma_try_closing_first(update_open_map(s, true), true);
            lemma_cleanup_first(try_closing_fixated(update_open_map(s, true), true));
        },
        Err(_) => {},
    }
}


/// No grapheme of the sequence is a `[`.
pub open spec fn no_text_group(gs: Seq<Seq<char>>) -> bool {
    forall|i: int| 0 <= i < gs.len() ==> single_kind_of(#[trigger] gs[i]) != SingleTokenKind::LeftSquareBracket
}

proof fn lemma_until_ok(s: TokState, prev_len: int)
    requires
        no_text_group(s.graphemes),
    ensures
        until(s, TokenKind::Eoi, prev_len) is Ok,
    decreases 3 * rem(s) + 2,
{
    if !(s.next < 0 || s.next >= s.graphemes.len()) {
        let g = s.graphemes[s.next];
        let s1 = with_next(s, s.next + 1);
        assert(single_kind_of(g) != SingleTokenKind::LeftSquareBracket);
        assert(update_tokens(s1, g) is Ok);
        reveal(update_asterisk);
        assert(update_tokens(s1, g)->Ok_0.graphemes == s.graphemes);
        match update_tokens(s1, g) {
            Ok(s2) => {
                let s5 = fixate(s2, prev_len);
                lemma_fixate_graphemes(s2, prev_len);
                if !(s2.tokens.len() != prev_len && s2.tokens.len() > 0 && s2.tokens.last().kind == TokenKind::Eoi) {
                    if 0 <= rem(s5) < rem(s) {
                        lemma_until_ok(s5, s5.tokens.len() as int);
                    }
                }
            },
            Err(_) => {},
        }
    }
}

proof fn lemma_fixate_graphemes(s2: TokState, prev_len: int)
    ensures
        fixate(s2, prev_len).graphemes == s2.graphemes,
{
    reveal(update_open_map);
    reveal(try_closing_fixated);
}

/// Tokenization fails only on text groups: an input without `[` is always tokenized.
pub proof fn lemma_no_text_group_no_error(input: Seq<char>, offset: Position)
    requires
        no_text_group(graphemes_of(input)),
    ensures
        spec_tokenize(input, offset) is Ok,
{
    lemma_until_ok(initial(input, offset), 0);
}

/// The index of the open token that the last token of a state closes, if it closes one: a
/// closing bold, italic or verbatim its own opener (a closing bold or italic else the `***`
/// opener before it); a closing `***` a `***` opener, else the earlier of an open bold and an
/// open italic.
pub open spec fn matched_opener(s: TokState) -> Option<usize> {
    if s.tokens.len() == 0 {
        None
    } else {
        let n = s.tokens.len() - 1;
        let bio = TokenKind::BoldItalicOpen;
        let bold = TokenKind::BoldOpen;
        let italic = TokenKind::ItalicOpen;
        match s.tokens.last().kind {
            TokenKind::BoldClose => if is_open(s, bold) {
                Some(open_at(s, bold))
            } else if is_open(s, bio) && (open_at(s, bio) as int) < n {
                Some(open_at(s, bio))
            } else {
                None
            },
            TokenKind::ItalicClose => if is_open(s, italic) {
                Some(open_at(s, italic))
            } else if is_open(s, bio) && (open_at(s, bio) as int) < n {
                Some(open_at(s, bio))
            } else {
                None
            },
            TokenKind::BoldItalicClose => if is_open(s, bio) {
                Some(open_at(s, bio))
            } else if is_open(s, bold) && is_open(s, italic) {
                if open_at(s, bold) < open_at(s, italic) {
                    Some(open_at(s, bold))
                } else {
                    Some(open_at(s, italic))
                }
            } else {
                None
            },
            TokenKind::VerbatimClose => if is_open(s, TokenKind::VerbatimOpen) {
                Some(open_at(s, TokenKind::VerbatimOpen))
            } else {
                None
            },
            _ => None,
        }
    }
}

/// The kind of the half of a `***` opener that stays open where the last token closes only the
/// other half: italic after a closing bold, bold after a closing italic.
pub open spec fn split_remainder(s: TokState) -> Option<TokenKind> {
    if s.tokens.len() == 0 {
        None
    } else {
        let n = s.tokens.len() - 1;
        let bio = TokenKind::BoldItalicOpen;
        let split = is_open(s, bio) && (open_at(s, bio) as int) < n;
        match s.tokens.last().kind {
            TokenKind::BoldClose => if !is_open(s, TokenKind::BoldOpen) && split {
                Some(TokenKind::ItalicOpen)
            } else {
                None
            },
            TokenKind::ItalicClose => if !is_open(s, TokenKind::ItalicOpen) && split {
                Some(TokenKind::BoldOpen)
            } else {
                None
            },
            _ => None,
        }
    }
}

/// After the last token closes its opener, every token that stays open lies before that opener,
/// but for the half of a split `***` opener, which stays open at the opener's own place: no
/// opener between the matched one and the closing token stays open.
pub proof fn lemma_close_keeps_only_earlier_openers(s: TokState, next_is_space: bool)
    requires
        s.open.len() == NUM_KINDS,
    ensures
        matched_opener(s) matches Some(o) ==> forall|c: int|
            0 <= c < NUM_KINDS && #[trigger] try_closing_fixated(s, next_is_space).open[c] is Some ==> {
                let i = try_closing_fixated(s, next_is_space).open[c]->0;
                ||| i < o
                ||| (i == o && split_remainder(s) is Some && code(split_remainder(s)->0) == c)
            },
{
    reveal(try_closing_fixated);
}

/// A step moves on in the same input: the graphemes stay, and the place in them only moves
/// forward and stays within them.
pub open spec fn moves_on(s: TokState, r: TokState) -> bool {
    r.graphemes == s.graphemes && s.next <= r.next <= r.graphemes.len()
}

proof fn lemma_local_steps_stay(s: TokState, b: bool)
    ensures
        update_open_map(s, b).graphemes == s.graphemes && update_open_map(s, b).next == s.next,
        try_closing_fixated(s, b).graphemes == s.graphemes && try_closing_fixated(s, b).next == s.next,
        cleanup(s).graphemes == s.graphemes && cleanup(s).next == s.next,
        bump(s).graphemes == s.graphemes && bump(s).next == s.next,
{
    reveal(update_open_map);
    reveal(try_closing_fixated);
    reveal(cleanup);
}

proof fn lemma_update_tokens_law(s: TokState, g: Seq<char>)
    requires
        0 <= s.next <= s.graphemes.len(),
    ensures
        update_tokens(s, g) matches Ok(r) ==> moves_on(s, r) && (s.tokens.len() > 0 ==> r.tokens.len() > 0),
    decreases 3 * rem(s) + 4,
{
    reveal(update_asterisk);
    lemma_local_steps_stay(s, false);
    lemma_open_text_group_law(s, g);
}

/// A text group is read up to its closing `]`: where reading it succeeds, the last token closes
/// the group; the input is read on from where it was.
pub proof fn lemma_open_text_group_law(s: TokState, g: Seq<char>)
    requires
        0 <= s.next <= s.graphemes.len(),
    ensures
        open_text_group(s, g) matches Ok(r) ==> moves_on(s, r) && r.tokens.len() > 0 && r.tokens.last().kind
            == TokenKind::TextGroupClose,
    decreases 3 * rem(s) + 3,
{
    if rem(s) >= 0 {
        let b = bump(s);
        lemma_local_steps_stay(s, false);
        lemma_local_steps_stay(b, false);
        lemma_local_steps_stay(update_open_map(b, false), false);
        let s3 = try_closing_fixated(update_open_map(b, false), false);
        let s5 = TokState {
            graphemes: s.graphemes,
            next: s.next,
            tokens: s3.tokens.push(tok(TokenKind::TextGroupOpen, g, s3.cur)),
            open: no_open(),
            cur: s3.cur,
            escape: s3.escape,
        };
        lemma_until_law(s5, TokenKind::TextGroupClose, s5.tokens.len() as int);
        match until(s5, TokenKind::TextGroupClose, s5.tokens.len() as int) {
            Ok(r) => {
                let rt = with_tokens(r, r.tokens.drop_last());
                lemma_local_steps_stay(rt, true);
                lemma_local_steps_stay(try_closing_fixated(rt, true), true);
            },
            Err(_) => {},
        }
    }
}

/// Tokenizing up to a kind reaches it: where it succeeds with tokens and the kind is not the end
/// of input, the last token is of that kind (else the group was not closed, which is an error);
/// it keeps a token once it has one, and reads on in the same input.
pub proof fn lemma_until_law(s: TokState, kind: TokenKind, prev_len: int)
    requires
        0 <= s.next <= s.graphemes.len(),
    ensures
        until(s, kind, prev_len) matches Ok(r) ==> {
            &&& moves_on(s, r)
            &&& (s.tokens.len() > 0 ==> r.tokens.len() > 0)
            &&& (kind != TokenKind::Eoi && r.tokens.len() > 0 ==> r.tokens.last().kind == kind)
        },
    decreases 3 * rem(s) + 2,
{
    if !(s.next < 0 || s.next >= s.graphemes.len()) {
        let g = s.graphemes[s.next];
        let s1 = with_next(s, s.next + 1);
        lemma_update_tokens_law(s1, g);
        match update_tokens(s1, g) {
            Ok(s2) => {
                let s5 = fixate(s2, prev_len);
                if s2.tokens.len() != prev_len && s2.tokens.len() > 0 {
                    let s3 = with_tokens(s2, s2.tokens.drop_last());
                    let sp = s2.tokens.last().kind.spec_is_space_or_newline();
                    lemma_local_steps_stay(s3, sp);
                    lemma_local_steps_stay(update_open_map(s3, sp), sp);
                }
                assert(s5.graphemes == s2.graphemes && s5.next == s2.next);
                if !(s2.tokens.len() != prev_len && s2.tokens.len() > 0 && s2.tokens.last().kind == kind) {
                    lemma_until_law(s5, kind, s5.tokens.len() as int);
                }
            },
            Err(_) => {},
        }
    }
}

/// The entries of a table lie below `n` and no two are the same.
pub open spec fn entries_below(open: Seq<Option<usize>>, n: int) -> bool {
    &&& open.len() == NUM_KINDS
    &&& forall|i: int| 0 <= i < NUM_KINDS && #[trigger] open[i] is Some ==> (open[i]->0 as int) < n
    &&& forall|i: int, j: int|
        0 <= i < NUM_KINDS && 0 <= j < NUM_KINDS && i != j && #[trigger] open[i] is Some && #[trigger] open[j] is Some
            ==> open[i]->0 != open[j]->0
}

proof fn lemma_best_slot_max(open: Seq<Option<usize>>, lower: usize, n: int)
    requires
        n <= open.len(),
    ensures
        best_slot(open, lower, n) matches Some(j) ==> forall|i: int|
            0 <= i < n && #[trigger] open[i] is Some && open[i]->0 >= lower ==> open[i]->0 <= open[j]->0,
        best_slot(open, lower, n) is None ==> forall|i: int|
            0 <= i < n && #[trigger] open[i] is Some ==> open[i]->0 < lower,
    decreases n,
{
    if n > 0 {
        lemma_best_slot_max(open, lower, n - 1);
        super::model::lemma_best_slot(open, lower, n - 1);
        let b = best_slot(open, lower, n - 1);
        match open[n - 1] {
            Some(v) => {
                if v >= lower {
                    match b {
                        Some(j) => {
                            if open[j]->0 >= v {
                                assert(best_slot(open, lower, n) == Some(j));
                            } else {
                                assert(best_slot(open, lower, n) == Some(n - 1));
                            }
                        },
                        None => {
                            assert(best_slot(open, lower, n) == Some(n - 1));
                        },
                    }
                } else {
                    assert(best_slot(open, lower, n) == b);
                }
            },
            None => {
                assert(best_slot(open, lower, n) == b);
            },
        }
    }
}

proof fn lemma_plain_merge_keeps_last(ts: Seq<TokenV>, v: int)
    requires
        0 <= v < ts.len() - 1,
        ts.last().kind != TokenKind::Plain,
    ensures
        plain_merge(ts, v).len() >= v + 1,
        plain_merge(ts, v).last() == ts.last(),
{
    let n = ts.len();
    let ts1 = ts.remove(v);
    assert(ts1.last() == ts.last());
    let merged_next = v < ts1.len() && ts1[v].kind == TokenKind::Plain;
    if merged_next {
        assert(ts1[v] == ts[v + 1]);
        assert(v + 1 < n - 1);
        let ts2 = ts1.remove(v);
        assert(ts2.last() == ts.last());
    }
}

proof fn lemma_merge_keeps_last(ts: Seq<TokenV>, open: Seq<Option<usize>>, lower: usize, fuel: nat)
    requires
        ts.len() > 0,
        ts.last().kind != TokenKind::Plain,
        entries_below(open, ts.len() - 1),
    ensures
        merge_from(ts, open, lower, fuel).len() > 0,
        merge_from(ts, open, lower, fuel).last() == ts.last(),
    decreases fuel,
{
    if fuel > 0 {
        super::model::lemma_best_slot(open, lower, open.len() as int);
        lemma_best_slot_max(open, lower, open.len() as int);
        match best_slot(open, lower, open.len() as int) {
            Some(j) => {
                let v = open[j]->0 as int;
                lemma_plain_merge_keeps_last(ts, v);
                let ts2 = plain_merge(ts, v);
                let o2 = open.update(j, None);
                assert forall|i: int| 0 <= i < NUM_KINDS && #[trigger] o2[i] is Some implies (o2[i]->0 as int) < ts2.len() - 1 by {
                    assert(o2[i] == open[i]);
                    assert(open[i]->0 != open[j]->0);
                    if open[i]->0 >= lower {
                        assert(open[i]->0 <= open[j]->0);
                    }
                }
                assert forall|i: int, k: int|
                    0 <= i < NUM_KINDS && 0 <= k < NUM_KINDS && i != k && #[trigger] o2[i] is Some && #[trigger] o2[k] is Some
                        implies o2[i]->0 != o2[k]->0 by {
                    assert(o2[i] == open[i] && o2[k] == open[k]);
                }
                lemma_merge_keeps_last(ts2, o2, lower, (fuel - 1) as nat);
            },
            None => {},
        }
    }
}

/// The closing token stays the last token when it closes its opener: dangling openers after
/// the matched one become text before it, but nothing comes after it.
pub proof fn lemma_close_keeps_closing_last(s: TokState, next_is_space: bool)
    requires
        s.tokens.len() > 0,
        entries_ok(s.open, s.tokens, s.tokens.len() - 1),
    ensures
        matched_opener(s) is Some ==> try_closing_fixated(s, next_is_space).tokens.len() > 0
            && try_closing_fixated(s, next_is_space).tokens.last() == s.tokens.last(),
{
    reveal(try_closing_fixated);
    let last = s.tokens.last();
    let ts = s.tokens.drop_last();
    if matched_opener(s) is Some {
        assert(last.kind != TokenKind::Plain);
        assert forall|i: int, j: int|
            0 <= i < NUM_KINDS && 0 <= j < NUM_KINDS && i != j && #[trigger] s.open[i] is Some && #[trigger] s.open[j] is Some
                implies s.open[i]->0 != s.open[j]->0 by {
            lemma_entries_distinct(s.open, s.tokens, s.tokens.len() - 1, i, j);
        }
        assert forall|k: TokenKind, extra: int| 0 <= extra <= 1 implies #[trigger] entries_below(
            set_open(s.open, k, None),
            ts.len() + extra,
        ) by {
            let o = set_open(s.open, k, None);
            assert forall|i: int| 0 <= i < NUM_KINDS && #[trigger] o[i] is Some implies (o[i]->0 as int) < ts.len() + extra by {
                assert(o[i] == s.open[i]);
            }
            assert forall|i: int, j: int|
                0 <= i < NUM_KINDS && 0 <= j < NUM_KINDS && i != j && #[trigger] o[i] is Some && #[trigger] o[j] is Some
                    implies o[i]->0 != o[j]->0 by {
                assert(o[i] == s.open[i] && o[j] == s.open[j]);
            }
        }
        let bold = TokenKind::BoldOpen;
        let italic = TokenKind::ItalicOpen;
        let bio = TokenKind::BoldItalicOpen;
        assert(entries_below(set_open(s.open, bold, None), ts.len() as int));
        assert(entries_below(set_open(s.open, italic, None), ts.len() as int));
        assert(entries_below(set_open(s.open, bio, None), ts.len() as int));
        assert(entries_below(set_open(s.open, bio, None), (ts.len() + 1) as int));
        assert(entries_below(set_open(s.open, TokenKind::VerbatimOpen, None), ts.len() as int));
        let o_both = set_open(set_open(s.open, bold, None), italic, None);
        assert forall|i: int| 0 <= i < NUM_KINDS && #[trigger] o_both[i] is Some implies (o_both[i]->0 as int) < ts.len() by {
            assert(o_both[i] == s.open[i]);
        }
        assert forall|i: int, j: int|
            0 <= i < NUM_KINDS && 0 <= j < NUM_KINDS && i != j && #[trigger] o_both[i] is Some && #[trigger] o_both[j] is Some
                implies o_both[i]->0 != o_both[j]->0 by {
            assert(o_both[i] == s.open[i] && o_both[j] == s.open[j]);
        }
        assert forall|t: Seq<TokenV>, o: Seq<Option<usize>>, oi: usize|
            t.len() >= ts.len() && entries_below(o, t.len() as int) implies #[trigger] merge_from(t.push(last), o, oi, NUM_KINDS as nat).len() > 0
                && merge_from(t.push(last), o, oi, NUM_KINDS as nat).last() == last by {
            lemma_merge_keeps_last(t.push(last), o, oi, NUM_KINDS as nat);
        }
    }
}

} // verus!
