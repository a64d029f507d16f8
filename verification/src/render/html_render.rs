//! Rendering of Unimarkup elements to HTML, given the HTML of their parts.
use crate::parser::heading::HeadingLevel;
use crate::render::html::{
    elements_text, empty_head, merged_head, AttributeV, ElementV, HeadV, Html, HtmlV, HtmlAttribute, HtmlAttributes,
    HtmlBody, HtmlElement, HtmlHead,
};
use crate::render::highlight::{highlight_content, highlighted, PLAIN_SYNTAX};
use crate::render::tag::{heading_tag, HtmlTag};
use vstd::prelude::*;

verus! {

/// Renders Unimarkup elements to [`Html`].
#[derive(Debug, Default)]
pub struct HtmlRenderer {}

/// The body of `inner` wrapped in one element with the given tag and attributes.
pub open spec fn wrapped(tag: HtmlTag, attributes: Seq<AttributeV>, inner: Seq<ElementV>) -> Seq<ElementV> {
    seq![ElementV { tag, attributes, content: Some(elements_text(inner)) }]
}

/// The values of rendered documents.
pub open spec fn views(es: Seq<Html>) -> Seq<HtmlV> {
    es.map_values(|e: Html| e@)
}

/// The heads of documents, merged in order.
pub open spec fn joined_heads(es: Seq<HtmlV>) -> HeadV
    decreases es.len(),
{
    if es.len() == 0 {
        empty_head()
    } else {
        merged_head(joined_heads(es.drop_last()), es.last().head)
    }
}

/// The body elements of documents, one document after the other.
pub open spec fn joined_bodies(es: Seq<HtmlV>) -> Seq<ElementV>
    decreases es.len(),
{
    if es.len() == 0 {
        Seq::empty()
    } else {
        joined_bodies(es.drop_last()) + es.last().body
    }
}

/// A `style` attribute with the given value.
pub open spec fn style(value: Seq<char>) -> AttributeV {
    AttributeV { name: "style"@, value: Some(value) }
}

fn attribute(name: &str, value: &str) -> (r: HtmlAttribute)
    ensures
        r@ == (AttributeV { name: name@, value: Some(value@) }),
{
    HtmlAttribute { name: name.to_owned(), value: Some(value.to_owned()) }
}

fn one_attribute(a: HtmlAttribute) -> (r: HtmlAttributes)
    ensures
        r@ == seq![a@],
{
    let mut attributes = HtmlAttributes::default();
    attributes.push(a);
    assert(attributes@ =~= seq![a@]);
    attributes
}

/// A document of one element without attributes.
fn single(tag: HtmlTag, content: Option<String>) -> (r: Html)
    ensures
        r@.head == empty_head(),
        r@.body == seq![
            ElementV {
                tag,
                attributes: Seq::empty(),
                content: match content {
                    Some(c) => Some(c@),
                    None => None,
                },
            },
        ],
        r@.lang.len() == 0,
{
    let attributes = HtmlAttributes::default();
    let r = Html::with_body(HtmlBody::from_element(HtmlElement { tag, attributes, content }));
    assert(r@.body[0].attributes =~= Seq::<AttributeV>::empty());
    r
}

/// The HTML of a verbatim block, given its content and what highlighting it gave: the
/// highlighted content (or, where highlighting failed, the content itself) inside
/// `<pre><code>`, with syntax highlighting used in the head.
pub fn verbatim_block_html(content: String, highlighted: Option<String>) -> (r: Html)
    ensures
        r@.head.syntax_highlighting_used,
        !r@.head.paged_js_used,
        r@.head.elements.len() == 0,
        r@.head.styles.len() == 0,
        r@.body == wrapped(
            HtmlTag::Pre,
            Seq::empty(),
            seq![
                ElementV {
                    tag: HtmlTag::Code,
                    attributes: Seq::empty(),
                    content: Some(
                        match highlighted {
                            Some(h) => h@,
                            None => content@,
                        },
                    ),
                },
            ],
        ),
{
    let code = match highlighted {
        Some(h) => h,
        None => content,
    };
    let mut head = HtmlHead::default();
    head.syntax_highlighting_used = true;
    let code_elem = single(HtmlTag::Code, Some(code));
    let inner = Html::with(head, code_elem.body);
    Html::nested(HtmlTag::Pre, HtmlAttributes::default(), inner)
}

/// The code shown for a verbatim block: its content highlighted in its language (`plain` when
/// it has none), or the content itself where highlighting gives nothing.
pub open spec fn verbatim_code(content: Seq<char>, data_lang: Option<String>) -> Seq<char> {
    let language = match data_lang {
        Some(l) => l@,
        None => PLAIN_SYNTAX@,
    };
    match highlighted(content, language) {
        Some(h) => h,
        None => content,
    }
}

impl HtmlRenderer {
    /// A paragraph: its inlines inside `<p>`.
    pub fn render_paragraph(&mut self, inner: Html) -> (r: Html)
        ensures
            r@.head == inner@.head,
            r@.body == wrapped(HtmlTag::P, Seq::empty(), inner@.body),
    {
        Html::nested(HtmlTag::P, HtmlAttributes::default(), inner)
    }

    /// A heading: its inlines inside `<h1>` to `<h6>` with the heading id as `id` attribute.
    pub fn render_heading(&mut self, level: HeadingLevel, id: &str, inner: Html) -> (r: Html)
        ensures
            r@.head == inner@.head,
            r@.body == wrapped(
                heading_tag(level),
                seq![AttributeV { name: "id"@, value: Some(id@) }],
                inner@.body,
            ),
    {
        let tag = HtmlTag::from(level);
        let attributes = one_attribute(attribute("id", id));
        Html::nested(tag, attributes, inner)
    }

    /// A verbatim block: its content highlighted in its language (plain text when it has
    /// none) inside `<pre><code>`, or the content itself where highlighting failed; syntax
    /// highlighting is used in the head.
    pub fn render_verbatim_block(&mut self, content: String, data_lang: Option<String>) -> (r: Html)
        ensures
            r@.head.syntax_highlighting_used,
            !r@.head.paged_js_used,
            r@.head.elements.len() == 0,
            r@.head.styles.len() == 0,
            r@.body == wrapped(
                HtmlTag::Pre,
                Seq::empty(),
                seq![
                    ElementV {
                        tag: HtmlTag::Code,
                        attributes: Seq::empty(),
                        content: Some(verbatim_code(content@, data_lang)),
                    },
                ],
            ),
    {
        let highlighted = match &data_lang {
            Some(lang) => highlight_content(content.as_str(), lang.as_str()),
            None => highlight_content(content.as_str(), PLAIN_SYNTAX),
        };
        verbatim_block_html(content, highlighted)
    }

    /// A bullet list: its rendered entries inside `<ul>`, with their heads merged in order.
    pub fn render_bullet_list(&mut self, entries: Vec<Html>) -> (r: Html)
        ensures
            r@.head == joined_heads(views(entries@)),
            r@.body == wrapped(HtmlTag::Ul, Seq::empty(), joined_bodies(views(entries@))),
    {
        let ghost orig = views(entries@);
        let mut all = Html::default();
        let mut entries = entries;
        proof {
            assert(views(entries@) =~= orig.subrange(0, orig.len() as int));
            assert(orig.take(0) =~= Seq::<HtmlV>::empty());
        }
        while entries.len() > 0
            invariant
                0 <= orig.len() - entries@.len() <= orig.len(),
                views(entries@) =~= orig.subrange(orig.len() - entries@.len(), orig.len() as int),
                all@.head == joined_heads(orig.take(orig.len() - entries@.len())),
                all@.body == joined_bodies(orig.take(orig.len() - entries@.len())),
            decreases entries@.len(),
        {
            let ghost k = orig.len() - entries@.len();
            let ghost before = entries@;
            proof {
                assert(views(before)[0] == orig[k]);
            }
            let e = entries.remove(0);
            proof {
                assert(entries@ =~= before.subrange(1, before.len() as int));
                assert(e@ == orig[k]);
                assert(orig.take(k + 1).drop_last() =~= orig.take(k));
                assert forall|j: int| 0 <= j < entries@.len() implies views(entries@)[j] == orig[k + 1 + j] by {
                    assert(entries@[j] == before[j + 1]);
                    assert(views(before)[j + 1] == orig.subrange(k, orig.len() as int)[j + 1]);
                }
                assert(views(entries@) =~= orig.subrange(k + 1, orig.len() as int));
            }
            all.append(e);
        }
        proof {
            assert(orig.take(orig.len() as int) =~= orig);
        }
        Html::nested(HtmlTag::Ul, HtmlAttributes::default(), all)
    }

    /// A bullet list entry inside `<li>`: its heading alone, or, when the entry has a body,
    /// the heading inside `<p>` followed by the body.
    pub fn render_bullet_list_entry(&mut self, heading: Html, body: Option<Html>) -> (r: Html)
        ensures
            body is None ==> r@.body == wrapped(HtmlTag::Li, Seq::empty(), heading@.body),
            body matches Some(b) ==> r@.body == wrapped(
                HtmlTag::Li,
                Seq::empty(),
                wrapped(HtmlTag::P, Seq::empty(), heading@.body) + b@.body,
            ),
    {
        let entry = match body {
            Some(b) => {
                let mut e = Html::nested(HtmlTag::P, HtmlAttributes::default(), heading);
                e.append(b);
                e
            },
            None => heading,
        };
        Html::nested(HtmlTag::Li, HtmlAttributes::default(), entry)
    }

    /// Bold text inside `<strong>`.
    pub fn render_bold(&mut self, inner: Html) -> (r: Html)
        ensures
            r@.head == inner@.head,
            r@.body == wrapped(HtmlTag::Strong, Seq::empty(), inner@.body),
    {
        Html::nested(HtmlTag::Strong, HtmlAttributes::default(), inner)
    }

    /// Italic text inside `<em>`.
    pub fn render_italic(&mut self, inner: Html) -> (r: Html)
        ensures
            r@.head == inner@.head,
            r@.body == wrapped(HtmlTag::Em, Seq::empty(), inner@.body),
    {
        Html::nested(HtmlTag::Em, HtmlAttributes::default(), inner)
    }

    /// Underlined text: a `<span>` styled `text-decoration: underline;`.
    pub fn render_underline(&mut self, inner: Html) -> (r: Html)
        ensures
            r@.head == inner@.head,
            r@.body == wrapped(HtmlTag::Span, seq![style("text-decoration: underline;"@)], inner@.body),
    {
        let attributes = one_attribute(attribute("style", "text-decoration: underline;"));
        Html::nested(HtmlTag::Span, attributes, inner)
    }

    /// Subscript text inside `<sub>`.
    pub fn render_subscript(&mut self, inner: Html) -> (r: Html)
        ensures
            r@.head == inner@.head,
            r@.body == wrapped(HtmlTag::Sub, Seq::empty(), inner@.body),
    {
        Html::nested(HtmlTag::Sub, HtmlAttributes::default(), inner)
    }

    /// Superscript text inside `<sup>`.
    pub fn render_superscript(&mut self, inner: Html) -> (r: Html)
        ensures
            r@.head == inner@.head,
            r@.body == wrapped(HtmlTag::Sup, Seq::empty(), inner@.body),
    {
        Html::nested(HtmlTag::Sup, HtmlAttributes::default(), inner)
    }

    /// Overlined text: a `<span>` styled `text-decoration: overline;`.
    pub fn render_overline(&mut self, inner: Html) -> (r: Html)
        ensures
            r@.head == inner@.head,
            r@.body == wrapped(HtmlTag::Span, seq![style("text-decoration: overline;"@)], inner@.body),
    {
        let attributes = one_attribute(attribute("style", "text-decoration: overline;"));
        Html::nested(HtmlTag::Span, attributes, inner)
    }

    /// Struck-through text: a `<span>` styled `text-decoration: line-through;`.
    pub fn render_strikethrough(&mut self, inner: Html) -> (r: Html)
        ensures
            r@.head == inner@.head,
            r@.body == wrapped(HtmlTag::Span, seq![style("text-decoration: line-through;"@)], inner@.body),
    {
        let attributes = one_attribute(attribute("style", "text-decoration: line-through;"));
        Html::nested(HtmlTag::Span, attributes, inner)
    }

    /// Highlighted text inside `<mark>`.
    pub fn render_highlight(&mut self, inner: Html) -> (r: Html)
        ensures
            r@.head == inner@.head,
            r@.body == wrapped(HtmlTag::Mark, Seq::empty(), inner@.body),
    {
        Html::nested(HtmlTag::Mark, HtmlAttributes::default(), inner)
    }

    /// Quoted text inside `<q>`.
    pub fn render_quote(&mut self, inner: Html) -> (r: Html)
        ensures
            r@.head == inner@.head,
            r@.body == wrapped(HtmlTag::Q, Seq::empty(), inner@.body),
    {
        Html::nested(HtmlTag::Q, HtmlAttributes::default(), inner)
    }

    /// Inline verbatim text (in its Unimarkup form) inside `<code>`.
    pub fn render_inline_verbatim(&mut self, content: String) -> (r: Html)
        ensures
            r@.head == empty_head(),
            r@.body == seq![ElementV { tag: HtmlTag::Code, attributes: Seq::empty(), content: Some(content@) }],
    {
        single(HtmlTag::Code, Some(content))
    }

    /// Plain text, without tag.
    pub fn render_plain(&mut self, content: String) -> (r: Html)
        ensures
            r@.head == empty_head(),
            r@.body == seq![
                ElementV { tag: HtmlTag::PlainContent, attributes: Seq::empty(), content: Some(content@) },
            ],
    {
        single(HtmlTag::PlainContent, Some(content))
    }

    /// An implicit newline: `<br/>`.
    pub fn render_implicit_newline(&mut self) -> (r: Html)
        ensures
            r@.head == empty_head(),
            r@.body == seq![ElementV { tag: HtmlTag::Br, attributes: Seq::empty(), content: None }],
    {
        single(HtmlTag::Br, None)
    }

    /// An escaped newline: `<br/>`.
    pub fn render_escaped_newline(&mut self) -> (r: Html)
        ensures
            r@.head == empty_head(),
            r@.body == seq![ElementV { tag: HtmlTag::Br, attributes: Seq::empty(), content: None }],
    {
        single(HtmlTag::Br, None)
    }

    /// An escaped plain grapheme, without tag.
    pub fn render_escaped_plain(&mut self, content: String) -> (r: Html)
        ensures
            r@.head == empty_head(),
            r@.body == seq![
                ElementV { tag: HtmlTag::PlainContent, attributes: Seq::empty(), content: Some(content@) },
            ],
    {
        single(HtmlTag::PlainContent, Some(content))
    }
}

/// A verbatim block with a language shows its content highlighted in that language, or the
/// content itself where highlighting gives nothing; a block without one is highlighted as
/// `plain`.
pub proof fn lemma_verbatim_block_language(content: Seq<char>, lang: String)
    ensures
        verbatim_code(content, Some(lang)) == (match highlighted(content, lang@) {
            Some(h) => h,
            None => content,
        }),
        verbatim_code(content, None::<String>) == (match highlighted(content, PLAIN_SYNTAX@) {
            Some(h) => h,
            None => content,
        }),
{
}

} // verus!
