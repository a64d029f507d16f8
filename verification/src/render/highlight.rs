//! Syntax highlighting of verbatim content, by syntect's classed HTML generator.
use crate::text::{lowercased, str_eq, to_lowercase};
use syntect::html::{ClassStyle, ClassedHTMLGenerator};
use syntect::parsing::{SyntaxReference, SyntaxSet};
use vstd::prelude::*;
use vstd::string::StringExecFns;

verus! {

#[verifier::external_type_specification]
#[verifier::external_body]
pub struct ExSyntaxSet(SyntaxSet);

#[verifier::external_type_specification]
#[verifier::external_body]
pub struct ExSyntaxReference(SyntaxReference);

#[verifier::external_type_specification]
#[verifier::external_body]
pub struct ExClassedHTMLGenerator<'a>(ClassedHTMLGenerator<'a>);

/// Language name that selects highlighting as plain text.
pub const PLAIN_SYNTAX: &'static str = "plain";

/// Prefix of the CSS classes of highlighted content; the stylesheet uses the same prefix.
pub const HIGHLIGHT_CLASS_PREFIX: &'static str = "highlighted_";

/// The length of the first line of a non-empty text, its newline included.
pub open spec fn first_line_len(s: Seq<char>) -> int
    decreases s.len(),
{
    if s.len() == 0 {
        0
    } else if s[0] == '\n' {
        1
    } else {
        1 + first_line_len(s.drop_first())
    }
}

pub proof fn lemma_first_line_len(s: Seq<char>)
    ensures
        0 <= first_line_len(s) <= s.len(),
        s.len() > 0 ==> 1 <= first_line_len(s),
    decreases s.len(),
{
    if s.len() > 0 {
        lemma_first_line_len(s.drop_first());
    }
}

/// The lines of a text, each with its newline: the text is cut after every `\n`.
pub open spec fn lines_of(s: Seq<char>) -> Seq<Seq<char>>
    decreases s.len(),
{
    if s.len() == 0 {
        Seq::empty()
    } else {
        proof {
            lemma_first_line_len(s);
        }
        seq![s.take(first_line_len(s))] + lines_of(s.skip(first_line_len(s)))
    }
}

/// A text with every occurrence of `from`, from left to right and without overlap, replaced
/// by `to`.
pub open spec fn replaced(s: Seq<char>, from: Seq<char>, to: Seq<char>) -> Seq<char>
    decreases s.len(),
{
    if from.len() == 0 || s.len() < from.len() {
        s
    } else if s.take(from.len() as int) == from {
        to + replaced(s.skip(from.len() as int), from, to)
    } else {
        seq![s[0]] + replaced(s.drop_first(), from, to)
    }
}

/// The syntaxes that syntect ships, made for lines that keep their newline. Its field is
/// private and only `load_default_syntaxes` builds one, so every value holds that same set.
pub struct DefaultSyntaxes {
    set: SyntaxSet,
}

/// A syntax of the default set, seen by how it was found: `None` for the plain-text syntax,
/// `Some(token)` for the syntax that looking the token up found.
pub struct Syntax<'a> {
    reference: &'a SyntaxReference,
    found_by: Ghost<Option<Seq<char>>>,
}

impl<'a> View for Syntax<'a> {
    type V = Option<Seq<char>>;

    closed spec fn view(&self) -> Option<Seq<char>> {
        self.found_by@
    }
}

/// A classed HTML generator together with what made it: how its syntax was found, the prefix of
/// its classes and the lines handed to it so far. Only `classed_generator` builds one and only
/// `parse_line` adds a line, so the three records describe the generator.
struct Highlighter<'a> {
    generator: ClassedHTMLGenerator<'a>,
    syntax: Ghost<Option<Seq<char>>>,
    prefix: Ghost<Seq<char>>,
    lines: Ghost<Seq<Seq<char>>>,
}

/// Whether `SyntaxSet::find_syntax_by_token` finds a syntax in the default set for a token
/// (first by file extension, then by name, ignoring ASCII case).
pub uninterp spec fn token_finds_syntax(token: Seq<char>) -> bool;

/// Whether `ClassedHTMLGenerator::parse_html_for_line_which_includes_newline` accepts a line,
/// on a generator of the default set for a syntax (the plain-text syntax for `None`, the one a
/// token finds for `Some(token)`) and class prefix that was handed the lines `before`.
pub uninterp spec fn line_parses(
    syntax: Option<Seq<char>>,
    prefix: Seq<char>,
    before: Seq<Seq<char>>,
    line: Seq<char>,
) -> bool;

/// What `ClassedHTMLGenerator::finalize` returns, on a generator of the default set for the
/// syntax (found as for `line_parses`) and class prefix that was handed the given lines.
pub uninterp spec fn classed_html(syntax: Option<Seq<char>>, prefix: Seq<char>, lines: Seq<Seq<char>>) -> Seq<
    char,
>;

/// Calls `SyntaxSet::load_defaults_newlines`: the syntaxes that syntect ships, made for lines
/// that keep their newline. Nothing is stated of the set itself; the names below speak of it.
#[verifier::external_body]
fn load_default_syntaxes() -> DefaultSyntaxes {
    DefaultSyntaxes { set: SyntaxSet::load_defaults_newlines() }
}

/// Calls `SyntaxSet::find_syntax_plain_text`, which finds the syntax named `Plain Text` (it
/// panics on a set without one; the default set holds one). Trusted: the result is that syntax.
#[verifier::external_body]
fn plain_text_syntax<'a>(syntaxes: &'a DefaultSyntaxes) -> (r: Syntax<'a>)
    ensures
        r@ is None,
{
    let reference = syntaxes.set.find_syntax_plain_text();
    Syntax { reference, found_by: Ghost(None) }
}

/// Calls `SyntaxSet::find_syntax_by_token` on the default set. Trusted: it finds a syntax where
/// `token_finds_syntax` says so, and the result is that syntax, found by the token.
#[verifier::external_body]
fn syntax_by_token<'a>(syntaxes: &'a DefaultSyntaxes, token: &str) -> (r: Option<Syntax<'a>>)
    ensures
        match r {
            Some(s) => token_finds_syntax(token@) && s@ == Some(token@),
            None => !token_finds_syntax(token@),
        },
{
    match syntaxes.set.find_syntax_by_token(token) {
        Some(reference) => Some(Syntax { reference, found_by: Ghost(Some(token@)) }),
        None => None,
    }
}

/// Calls `ClassedHTMLGenerator::new_with_class_style` with `ClassStyle::SpacedPrefixed` and the
/// given prefix. Trusted: the generator is for that syntax and prefix and was handed no line.
#[verifier::external_body]
fn classed_generator<'a>(
    syntax: &Syntax<'a>,
    syntaxes: &'a DefaultSyntaxes,
    prefix: &'static str,
) -> (r: Highlighter<'a>)
    ensures
        r.syntax@ == syntax@,
        r.prefix@ == prefix@,
        r.lines@ == Seq::<Seq<char>>::empty(),
{
    let style = ClassStyle::SpacedPrefixed { prefix };
    let generator = ClassedHTMLGenerator::new_with_class_style(syntax.reference, &syntaxes.set, style);
    Highlighter { generator, syntax: Ghost(syntax@), prefix: Ghost(prefix@), lines: Ghost(Seq::empty()) }
}

/// Calls `ClassedHTMLGenerator::parse_html_for_line_which_includes_newline`, which adds the HTML
/// of one line. Trusted: whether it succeeds is named by `line_parses`, and the line joins the
/// lines the generator was handed.
#[verifier::external_body]
fn parse_line(h: &mut Highlighter, line: &str) -> (r: bool)
    ensures
        r == line_parses(old(h).syntax@, old(h).prefix@, old(h).lines@, line@),
        final(h).syntax == old(h).syntax,
        final(h).prefix == old(h).prefix,
        final(h).lines@ == old(h).lines@.push(line@),
{
    h.generator.parse_html_for_line_which_includes_newline(line).is_ok()
}

/// Calls `ClassedHTMLGenerator::finalize`: the HTML of all lines, with the spans still open
/// closed. Trusted: it is named by `classed_html`.
#[verifier::external_body]
fn finish_html(h: Highlighter) -> (r: String)
    ensures
        r@ == classed_html(h.syntax@, h.prefix@, h.lines@),
{
    h.generator.finalize()
}

proof fn lemma_first_line_at(t: Seq<char>, k: int)
    requires
        0 <= k <= t.len(),
        forall|m: int| 0 <= m < k ==> #[trigger] t[m] != '\n',
    ensures
        k < t.len() && t[k] == '\n' ==> first_line_len(t) == k + 1,
        k == t.len() ==> first_line_len(t) == t.len(),
    decreases k,
{
    if k > 0 {
        let d = t.drop_first();
        assert forall|m: int| 0 <= m < k - 1 implies #[trigger] d[m] != '\n' by {
            assert(d[m] == t[m + 1]);
        }
        lemma_first_line_len(t);
        lemma_first_line_at(d, k - 1);
        if k < t.len() {
            assert(d[k - 1] == t[k]);
        }
    }
}

/// Cuts a text after every newline, each line keeping its newline, as
/// `syntect::util::LinesWithEndings` does.
fn lines_with_endings(s: &str) -> (r: Vec<String>)
    ensures
        r@.map_values(|l: String| l@) == lines_of(s@),
{
    let n = s.unicode_len();
    let mut lines: Vec<String> = Vec::new();
    let mut start: usize = 0;
    let mut i: usize = 0;
    proof {
        assert(s@.skip(0) =~= s@);
        assert(lines@.map_values(|l: String| l@) + lines_of(s@.skip(0)) =~= lines_of(s@));
    }
    while i < n
        invariant
            n == s@.len(),
            start <= i <= n,
            forall|m: int| start <= m < i ==> #[trigger] s@[m] != '\n',
            lines@.map_values(|l: String| l@) + lines_of(s@.skip(start as int)) == lines_of(s@),
        decreases n - i,
    {
        if s.get_char(i) == '\n' {
            let line = s.substring_char(start, i + 1);
            proof {
                let t = s@.skip(start as int);
                assert forall|m: int| 0 <= m < i - start implies #[trigger] t[m] != '\n' by {
                    assert(t[m] == s@[start + m]);
                }
                assert(t[i - start] == s@[i as int]);
                lemma_first_line_at(t, i - start);
                assert(t.take(i - start + 1) =~= line@);
                assert(t.skip(i - start + 1) =~= s@.skip(i + 1));
                let old = lines@.map_values(|l: String| l@);
                assert(lines_of(t) == seq![line@] + lines_of(s@.skip(i + 1)));
                assert(old.push(line@) + lines_of(s@.skip(i + 1)) =~= old + lines_of(t));
            }
            let ghost before = lines@;
            lines.push(line.to_string());
            proof {
                assert(lines@.map_values(|l: String| l@) =~= before.map_values(|l: String| l@).push(line@));
            }
            start = i + 1;
        }
        i = i + 1;
    }
    if start < n {
        let line = s.substring_char(start, n);
        proof {
            let t = s@.skip(start as int);
            assert forall|m: int| 0 <= m < n - start implies #[trigger] t[m] != '\n' by {
                assert(t[m] == s@[start + m]);
            }
            lemma_first_line_at(t, n - start);
            assert(t.take(n - start) =~= line@);
            assert(t.skip(n - start) =~= Seq::<char>::empty());
            let old = lines@.map_values(|l: String| l@);
            assert(lines_of(t) =~= seq![line@] + lines_of(Seq::<char>::empty()));
            assert(old.push(line@) =~= old + lines_of(t));
        }
        let ghost before = lines@;
        lines.push(line.to_string());
        proof {
            assert(lines@.map_values(|l: String| l@) =~= before.map_values(|l: String| l@).push(line@));
        }
    } else {
        proof {
            assert(s@.skip(start as int) =~= Seq::<char>::empty());
            assert(lines@.map_values(|l: String| l@) + Seq::<Seq<char>>::empty() =~= lines@.map_values(|l: String| l@));
        }
    }
    lines
}

/// Replaces every occurrence of a non-empty pattern, from left to right and without overlap, as
/// `str::replace` does.
fn replace_all(s: &str, from: &str, to: &str) -> (r: String)
    requires
        from@.len() > 0,
    ensures
        r@ == replaced(s@, from@, to@),
{
    let n = s.unicode_len();
    let m = from.unicode_len();
    let mut out = String::new();
    let mut i: usize = 0;
    proof {
        assert(s@.skip(0) =~= s@);
        assert(out@ + replaced(s@.skip(0), from@, to@) =~= replaced(s@, from@, to@));
    }
    while i < n
        invariant
            n == s@.len(),
            m == from@.len(),
            m > 0,
            i <= n,
            out@ + replaced(s@.skip(i as int), from@, to@) == replaced(s@, from@, to@),
        decreases n - i,
    {
        let t = Ghost(s@.skip(i as int));
        if n - i < m {
            let rest = s.substring_char(i, n);
            proof {
                assert(rest@ =~= t@);
                assert(s@.skip(n as int) =~= Seq::<char>::empty());
                assert(replaced(s@.skip(n as int), from@, to@) =~= Seq::<char>::empty());
                assert(out@ + rest@ + Seq::<char>::empty() =~= out@ + rest@);
            }
            out.append(rest);
            i = n;
        } else {
            let piece = s.substring_char(i, i + m);
            proof {
                assert(piece@ =~= t@.take(m as int));
            }
            if str_eq(piece, from) {
                proof {
                    assert(t@.skip(m as int) =~= s@.skip(i + m));
                    assert(out@ + to@ + replaced(s@.skip(i + m), from@, to@) =~= out@ + (to@ + replaced(
                        s@.skip(i + m),
                        from@,
                        to@,
                    )));
                }
                out.append(to);
                i = i + m;
            } else {
                let c = s.substring_char(i, i + 1);
                proof {
                    assert(c@ =~= seq![t@[0]]);
                    assert(t@.drop_first() =~= s@.skip(i + 1));
                    assert(out@ + c@ + replaced(s@.skip(i + 1), from@, to@) =~= out@ + (seq![t@[0]] + replaced(
                        s@.skip(i + 1),
                        from@,
                        to@,
                    )));
                }
                out.append(c);
                i = i + 1;
            }
        }
    }
    proof {
        assert(s@.skip(i as int) =~= Seq::<char>::empty());
        assert(out@ + Seq::<char>::empty() =~= out@);
    }
    out
}

/// Whether a language selects plain-text highlighting: its lower case is `plain`.
pub fn is_plain_language(language: &str) -> (r: bool)
    ensures
        r == (lowercased(language@) == PLAIN_SYNTAX@),
{
    let lower = to_lowercase(language);
    str_eq(lower.as_str(), PLAIN_SYNTAX)
}

/// The syntax a language is highlighted with: plain text (`None`) where the language is
/// `plain` or finds no syntax of the default set, else the one it finds.
pub open spec fn syntax_for(language: Seq<char>) -> Option<Seq<char>> {
    if lowercased(language) == PLAIN_SYNTAX@ || !token_finds_syntax(language) {
        None
    } else {
        Some(language)
    }
}

/// Whether every line parses, each after the lines before it.
pub open spec fn lines_parse(syntax: Option<Seq<char>>, prefix: Seq<char>, lines: Seq<Seq<char>>) -> bool {
    forall|i: int| 0 <= i < lines.len() ==> #[trigger] line_parses(syntax, prefix, lines.take(i), lines[i])
}

/// The highlighted HTML of content in a language: the classed HTML of its lines, with the class
/// of C++ written `cpp`; `None` where a line does not parse.
pub open spec fn highlighted(content: Seq<char>, language: Seq<char>) -> Option<Seq<char>> {
    let syntax = syntax_for(language);
    let lines = lines_of(content);
    if lines_parse(syntax, HIGHLIGHT_CLASS_PREFIX@, lines) {
        Some(replaced(classed_html(syntax, HIGHLIGHT_CLASS_PREFIX@, lines), "highlighted_c++"@, "highlighted_cpp"@))
    } else {
        None
    }
}

/// The syntax to highlight a language with; plain text where the language is `plain` or
/// is not found.
fn get_syntax<'a>(syntaxes: &'a DefaultSyntaxes, language: &str) -> (r: Syntax<'a>)
    ensures
        r@ == syntax_for(language@),
{
    if is_plain_language(language) {
        return plain_text_syntax(syntaxes);
    }
    match syntax_by_token(syntaxes, language) {
        Some(syntax) => syntax,
        None => plain_text_syntax(syntaxes),
    }
}

/// The highlighted HTML as the stylesheet expects it: the class of C++ is written `cpp`.
pub fn finish_highlighting(html: String) -> (r: String)
    ensures
        r@ == replaced(html@, "highlighted_c++"@, "highlighted_cpp"@),
{
    proof {
        reveal_strlit("highlighted_c++");
    }
    replace_all(html.as_str(), "highlighted_c++", "highlighted_cpp")
}

/// Highlights content in the given language: the HTML of its lines, with CSS classes only
/// (the head must use syntax highlighting for them to show). `None` where a line cannot be
/// parsed; empty content has no line, so it is always highlighted.
pub fn highlight_content(content: &str, language: &str) -> (r: Option<String>)
    ensures
        match r {
            Some(h) => highlighted(content@, language@) == Some(h@),
            None => highlighted(content@, language@) is None,
        },
        content@.len() == 0 ==> r is Some,
{
    let syntaxes = load_default_syntaxes();
    let syntax = get_syntax(&syntaxes, language);
    let mut generator = classed_generator(&syntax, &syntaxes, HIGHLIGHT_CLASS_PREFIX);
    let lines = lines_with_endings(content);
    let ghost all = lines@.map_values(|l: String| l@);
    proof {
        assert(all.len() == lines@.len());
        assert(all.take(0) =~= Seq::<Seq<char>>::empty());
    }
    let mut i: usize = 0;
    while i < lines.len()
        invariant
            all == lines@.map_values(|l: String| l@),
            all == lines_of(content@),
            i <= lines@.len(),
            generator.syntax@ == syntax_for(language@),
            generator.prefix@ == HIGHLIGHT_CLASS_PREFIX@,
            generator.lines@ == all.take(i as int),
            forall|j: int| 0 <= j < i ==> #[trigger] line_parses(
                syntax_for(language@),
                HIGHLIGHT_CLASS_PREFIX@,
                all.take(j),
                all[j],
            ),
        decreases lines.len() - i,
    {
        let ok = parse_line(&mut generator, lines[i].as_str());
        if !ok {
            proof {
                assert(!lines_parse(syntax_for(language@), HIGHLIGHT_CLASS_PREFIX@, all)) by {
                    assert(!line_parses(syntax_for(language@), HIGHLIGHT_CLASS_PREFIX@, all.take(i as int), all[i as int]));
                }
            }
            return None;
        }
        proof {
            assert(all.take(i as int).push(all[i as int]) =~= all.take(i + 1));
        }
        i = i + 1;
    }
    proof {
        assert(all.take(i as int) =~= all);
        assert(lines_parse(syntax_for(language@), HIGHLIGHT_CLASS_PREFIX@, all));
    }
    let html = finish_html(generator);
    let r = finish_highlighting(html);
    Some(r)
}

} // verus!
