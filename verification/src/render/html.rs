//! HTML produced when rendering Unimarkup: elements with attributes, a head and a body.
use crate::render::tag::{tag_name, HtmlTag};
use vstd::prelude::*;
use vstd::std_specs::convert::FromSpecImpl;
use vstd::string::StringExecFns;

verus! {

/// The value of an optional string.
pub open spec fn opt_view(o: Option<String>) -> Option<Seq<char>> {
    match o {
        Some(s) => Some(s@),
        None => None,
    }
}

/// A HTML attribute: a name with an optional value.
#[derive(Debug)]
pub struct HtmlAttribute {
    pub name: String,
    pub value: Option<String>,
}

/// The value of a [`HtmlAttribute`].
#[verifier::ext_equal]
pub struct AttributeV {
    pub name: Seq<char>,
    pub value: Option<Seq<char>>,
}

impl View for HtmlAttribute {
    type V = AttributeV;

    open spec fn view(&self) -> AttributeV {
        AttributeV { name: self.name@, value: opt_view(self.value) }
    }
}

/// A list of HTML attributes.
#[derive(Debug)]
pub struct HtmlAttributes(Vec<HtmlAttribute>);

impl View for HtmlAttributes {
    type V = Seq<AttributeV>;

    closed spec fn view(&self) -> Seq<AttributeV> {
        self.0@.map_values(|a: HtmlAttribute| a@)
    }
}

/// A HTML element; with tag `PlainContent` the element is its content without a tag.
#[derive(Debug)]
pub struct HtmlElement {
    pub tag: HtmlTag,
    pub attributes: HtmlAttributes,
    pub content: Option<String>,
}

/// The value of a [`HtmlElement`].
#[verifier::ext_equal]
pub struct ElementV {
    pub tag: HtmlTag,
    pub attributes: Seq<AttributeV>,
    pub content: Option<Seq<char>>,
}

impl View for HtmlElement {
    type V = ElementV;

    open spec fn view(&self) -> ElementV {
        ElementV { tag: self.tag, attributes: self.attributes@, content: opt_view(self.content) }
    }
}

/// A list of HTML elements.
#[derive(Debug)]
pub struct HtmlElements(Vec<HtmlElement>);

impl View for HtmlElements {
    type V = Seq<ElementV>;

    closed spec fn view(&self) -> Seq<ElementV> {
        self.0@.map_values(|e: HtmlElement| e@)
    }
}

/// The head of a HTML document.
#[derive(Debug)]
pub struct HtmlHead {
    pub elements: HtmlElements,
    pub syntax_highlighting_used: bool,
    pub paged_js_used: bool,
    pub styles: HtmlAttributes,
}

/// The value of a [`HtmlHead`].
#[verifier::ext_equal]
pub struct HeadV {
    pub elements: Seq<ElementV>,
    pub syntax_highlighting_used: bool,
    pub paged_js_used: bool,
    pub styles: Seq<AttributeV>,
}

impl View for HtmlHead {
    type V = HeadV;

    open spec fn view(&self) -> HeadV {
        HeadV {
            elements: self.elements@,
            syntax_highlighting_used: self.syntax_highlighting_used,
            paged_js_used: self.paged_js_used,
            styles: self.styles@,
        }
    }
}

/// The body of a HTML document.
#[derive(Debug)]
pub struct HtmlBody {
    pub elements: HtmlElements,
}

impl View for HtmlBody {
    type V = Seq<ElementV>;

    open spec fn view(&self) -> Seq<ElementV> {
        self.elements@
    }
}

/// A HTML document: head, body and natural language.
#[derive(Debug)]
pub struct Html {
    pub head: HtmlHead,
    pub body: HtmlBody,
    pub lang: String,
}

/// The value of a [`Html`] document.
#[verifier::ext_equal]
pub struct HtmlV {
    pub head: HeadV,
    pub body: Seq<ElementV>,
    pub lang: Seq<char>,
}

impl View for Html {
    type V = HtmlV;

    open spec fn view(&self) -> HtmlV {
        HtmlV { head: self.head@, body: self.body@, lang: self.lang@ }
    }
}

/// A head without elements, styles or scripts.
pub open spec fn empty_head() -> HeadV {
    HeadV {
        elements: Seq::empty(),
        syntax_highlighting_used: false,
        paged_js_used: false,
        styles: Seq::empty(),
    }
}

/// The head holding the elements and styles of both heads, using what either uses.
pub open spec fn merged_head(a: HeadV, b: HeadV) -> HeadV {
    HeadV {
        elements: a.elements + b.elements,
        syntax_highlighting_used: a.syntax_highlighting_used || b.syntax_highlighting_used,
        paged_js_used: a.paged_js_used || b.paged_js_used,
        styles: a.styles + b.styles,
    }
}

/// Text of an attribute: `name='value'`, or `name` alone.
pub open spec fn attribute_text(a: AttributeV) -> Seq<char> {
    match a.value {
        Some(v) => a.name + "='"@ + v + "'"@,
        None => a.name,
    }
}

/// Text of attributes: each preceded by a space.
pub open spec fn attributes_text(s: Seq<AttributeV>) -> Seq<char>
    decreases s.len(),
{
    if s.len() == 0 {
        Seq::empty()
    } else {
        attributes_text(s.drop_last()) + " "@ + attribute_text(s.last())
    }
}

/// Text of an element: `<tag attributes>content</tag>`, `<tag attributes/>` without content,
/// and the bare content for plain content.
pub open spec fn element_text(e: ElementV) -> Seq<char> {
    if e.tag == HtmlTag::PlainContent {
        match e.content {
            Some(c) => c,
            None => Seq::empty(),
        }
    } else {
        "<"@ + tag_name(e.tag) + attributes_text(e.attributes) + match e.content {
            Some(c) => ">"@ + c + "</"@ + tag_name(e.tag) + ">"@,
            None => "/>"@,
        }
    }
}

/// Text of elements, one after the other.
pub open spec fn elements_text(s: Seq<ElementV>) -> Seq<char>
    decreases s.len(),
{
    if s.len() == 0 {
        Seq::empty()
    } else {
        elements_text(s.drop_last()) + element_text(s.last())
    }
}

/// Text of a body: its elements inside `<body>`.
pub open spec fn body_text(b: Seq<ElementV>) -> Seq<char> {
    "<body>"@ + elements_text(b) + "</body>"@
}

fn clone_string(s: &String) -> (r: String)
    ensures
        r@ == s@,
{
    s.clone()
}

impl HtmlAttribute {
    /// The attribute as text: `name='value'`, or `name` alone.
    pub fn to_string(&self) -> (r: String)
        ensures
            r@ == attribute_text(self@),
    {
        let mut s = clone_string(&self.name);
        match &self.value {
            Some(v) => {
                s.append("='");
                s.append(v.as_str());
                s.append("'");
            },
            None => {},
        }
        s
    }
}

impl Default for HtmlAttributes {
    fn default() -> (r: Self)
        ensures
            r@ == Seq::<AttributeV>::empty(),
    {
        let r = HtmlAttributes(Vec::new());
        assert(r@ =~= Seq::<AttributeV>::empty());
        r
    }
}

impl From<Vec<HtmlAttribute>> for HtmlAttributes {
    fn from(value: Vec<HtmlAttribute>) -> (r: Self)
        ensures
            r@ == value@.map_values(|a: HtmlAttribute| a@),
    {
        HtmlAttributes(value)
    }
}

impl FromSpecImpl<Vec<HtmlAttribute>> for HtmlAttributes {
    open spec fn obeys_from_spec() -> bool {
        true
    }

    closed spec fn from_spec(value: Vec<HtmlAttribute>) -> HtmlAttributes {
        HtmlAttributes(value)
    }
}

impl HtmlAttributes {
    /// The attributes, in order.
    pub closed spec fn list(&self) -> Seq<HtmlAttribute> {
        self.0@
    }

    /// Number of attributes.
    pub fn len(&self) -> (r: usize)
        ensures
            r == self@.len(),
    {
        self.0.len()
    }

    /// Whether there is no attribute.
    pub fn is_empty(&self) -> (r: bool)
        ensures
            r == (self@.len() == 0),
    {
        self.0.len() == 0
    }

    /// Adds an attribute at the end.
    pub fn push(&mut self, a: HtmlAttribute)
        ensures
            final(self)@ == old(self)@.push(a@),
    {
        self.0.push(a);
        assert(self@ =~= old(self)@.push(a@));
    }

    /// Moves all attributes of `other` to the end of these.
    pub fn append(&mut self, other: &mut HtmlAttributes)
        ensures
            final(self)@ == old(self)@ + old(other)@,
            final(other)@.len() == 0,
    {
        self.0.append(&mut other.0);
        assert(self@ =~= old(self)@ + old(other)@);
    }

    /// The attributes as text, each preceded by a space.
    pub fn to_string(&self) -> (r: String)
        ensures
            r@ == attributes_text(self@),
    {
        let mut s = String::new();
        let mut i: usize = 0;
        while i < self.0.len()
            invariant
                i <= self@.len(),
                s@ == attributes_text(self@.take(i as int)),
            decreases self@.len() - i,
        {
            s.append(" ");
            let a = self.0[i].to_string();
            s.append(a.as_str());
            assert(self@.take(i + 1).drop_last() =~= self@.take(i as int));
            i = i + 1;
        }
        assert(self@.take(i as int) =~= self@);
        s
    }
}

impl HtmlElement {
    /// The element as HTML text.
    pub fn to_string(&self) -> (r: String)
        ensures
            r@ == element_text(self@),
    {
        // No tag -> plain content
        if self.tag == HtmlTag::PlainContent {
            return match &self.content {
                Some(c) => clone_string(c),
                None => String::new(),
            };
        }
        let mut element = String::new();
        element.append("<");
        element.append(self.tag.as_str());
        if !self.attributes.is_empty() {
            let a = self.attributes.to_string();
            element.append(a.as_str());
        }
        match &self.content {
            Some(content) => {
                element.append(">");
                element.append(content.as_str());
                element.append("</");
                element.append(self.tag.as_str());
                element.append(">");
            },
            None => {
                element.append("/>");
            },
        }
        element
    }
}

impl Default for HtmlElements {
    fn default() -> (r: Self)
        ensures
            r@ == Seq::<ElementV>::empty(),
    {
        let r = HtmlElements(Vec::new());
        assert(r@ =~= Seq::<ElementV>::empty());
        r
    }
}

impl From<Vec<HtmlElement>> for HtmlElements {
    fn from(value: Vec<HtmlElement>) -> (r: Self)
        ensures
            r@ == value@.map_values(|e: HtmlElement| e@),
    {
        HtmlElements(value)
    }
}

impl FromSpecImpl<Vec<HtmlElement>> for HtmlElements {
    open spec fn obeys_from_spec() -> bool {
        true
    }

    closed spec fn from_spec(value: Vec<HtmlElement>) -> HtmlElements {
        HtmlElements(value)
    }
}

impl HtmlElements {
    /// The elements, in order.
    pub closed spec fn list(&self) -> Seq<HtmlElement> {
        self.0@
    }

    /// Number of elements.
    pub fn len(&self) -> (r: usize)
        ensures
            r == self@.len(),
    {
        self.0.len()
    }

    /// Whether there is no element.
    pub fn is_empty(&self) -> (r: bool)
        ensures
            r == (self@.len() == 0),
    {
        self.0.len() == 0
    }

    /// Adds an element at the end.
    pub fn push(&mut self, e: HtmlElement)
        ensures
            final(self)@ == old(self)@.push(e@),
    {
        self.0.push(e);
        assert(self@ =~= old(self)@.push(e@));
    }

    /// Moves all elements of `other` to the end of these.
    pub fn append(&mut self, other: &mut HtmlElements)
        ensures
            final(self)@ == old(self)@ + old(other)@,
            final(other)@.len() == 0,
    {
        self.0.append(&mut other.0);
        assert(self@ =~= old(self)@ + old(other)@);
    }

    /// The elements as HTML text, one after the other.
    pub fn to_string(&self) -> (r: String)
        ensures
            r@ == elements_text(self@),
    {
        let mut s = String::new();
        let mut i: usize = 0;
        while i < self.0.len()
            invariant
                i <= self@.len(),
                s@ == elements_text(self@.take(i as int)),
            decreases self@.len() - i,
        {
            let e = self.0[i].to_string();
            s.append(e.as_str());
            assert(self@.take(i + 1).drop_last() =~= self@.take(i as int));
            i = i + 1;
        }
        assert(self@.take(i as int) =~= self@);
        s
    }
}

impl Default for HtmlHead {
    fn default() -> (r: Self)
        ensures
            r@ == empty_head(),
    {
        HtmlHead {
            elements: HtmlElements::default(),
            syntax_highlighting_used: false,
            paged_js_used: false,
            styles: HtmlAttributes::default(),
        }
    }
}

impl HtmlHead {
    /// Merges `other` into this head: its elements and styles come after these, and the head
    /// uses syntax highlighting or paged.js when either head did.
    pub fn merge(&mut self, other: Self)
        ensures
            final(self)@ == merged_head(old(self)@, other@),
    {
        let mut other = other;
        self.elements.append(&mut other.elements);
        self.styles.append(&mut other.styles);
        self.syntax_highlighting_used = self.syntax_highlighting_used || other.syntax_highlighting_used;
        self.paged_js_used = self.paged_js_used || other.paged_js_used;
    }
}

impl Default for HtmlBody {
    fn default() -> (r: Self)
        ensures
            r@ == Seq::<ElementV>::empty(),
    {
        HtmlBody { elements: HtmlElements::default() }
    }
}

impl From<Vec<HtmlElement>> for HtmlBody {
    fn from(value: Vec<HtmlElement>) -> (r: Self)
        ensures
            r@ == value@.map_values(|e: HtmlElement| e@),
    {
        HtmlBody { elements: HtmlElements(value) }
    }
}

impl FromSpecImpl<Vec<HtmlElement>> for HtmlBody {
    open spec fn obeys_from_spec() -> bool {
        true
    }

    closed spec fn from_spec(value: Vec<HtmlElement>) -> HtmlBody {
        HtmlBody { elements: HtmlElements(value) }
    }
}

impl HtmlBody {
    /// A body of exactly one element.
    pub fn from_element(value: HtmlElement) -> (r: Self)
        ensures
            r@ == seq![value@],
    {
        let mut v: Vec<HtmlElement> = Vec::new();
        v.push(value);
        let r = HtmlBody { elements: HtmlElements(v) };
        assert(r@ =~= seq![value@]);
        r
    }

    /// The body as HTML text: its elements inside `<body>`.
    pub fn to_string(&self) -> (r: String)
        ensures
            r@ == body_text(self@),
    {
        let mut s = String::new();
        s.append("<body>");
        let e = self.elements.to_string();
        s.append(e.as_str());
        s.append("</body>");
        s
    }
}

impl Default for Html {
    fn default() -> (r: Self)
        ensures
            r@.head == empty_head(),
            r@.body == Seq::<ElementV>::empty(),
            r@.lang.len() == 0,
    {
        Html { head: HtmlHead::default(), body: HtmlBody::default(), lang: String::new() }
    }
}

impl Html {
    /// A document with the given head, an empty body and no language.
    pub fn with_head(head: HtmlHead) -> (r: Self)
        ensures
            r@.head == head@,
            r@.body == Seq::<ElementV>::empty(),
            r@.lang.len() == 0,
    {
        Html { head, body: HtmlBody::default(), lang: String::new() }
    }

    /// A document with the given body, an empty head and no language.
    pub fn with_body(body: HtmlBody) -> (r: Self)
        ensures
            r@.head == empty_head(),
            r@.body == body@,
            r@.lang.len() == 0,
    {
        Html { head: HtmlHead::default(), body, lang: String::new() }
    }

    /// A document with the given head and body, and no language.
    pub fn with(head: HtmlHead, body: HtmlBody) -> (r: Self)
        ensures
            r@.head == head@,
            r@.body == body@,
            r@.lang.len() == 0,
    {
        Html { head, body, lang: String::new() }
    }

    /// Wraps the body of `inner` into one element with the given tag and attributes;
    /// the head of `inner` is kept, its language is not.
    pub fn nested(outer_tag: HtmlTag, outer_attributes: HtmlAttributes, inner: Self) -> (r: Self)
        ensures
            r@.head == inner@.head,
            r@.body == seq![
                ElementV {
                    tag: outer_tag,
                    attributes: outer_attributes@,
                    content: Some(elements_text(inner@.body)),
                },
            ],
            r@.lang.len() == 0,
    {
        let ghost inner_head = inner@.head;
        proof {
            lemma_merge_into_empty(inner_head);
        }
        let content = inner.body.elements.to_string();
        let mut html = Html::with_body(
            HtmlBody::from_element(
                HtmlElement { tag: outer_tag, attributes: outer_attributes, content: Some(content) },
            ),
        );
        html.head.merge(inner.head);
        html
    }

    /// Appends `other` to this document: heads are merged and the body elements of `other`
    /// follow these; the language is kept.
    pub fn append(&mut self, other: Self)
        ensures
            final(self)@.head == merged_head(old(self)@.head, other@.head),
            final(self)@.body == old(self)@.body + other@.body,
            final(self)@.lang == old(self)@.lang,
    {
        let mut other = other;
        self.head.merge(other.head);
        self.body.elements.append(&mut other.body.elements);
    }
}


/// The texts a head embeds: the paged.js script, and the syntax highlighting styles for
/// documents without and with paged.js.
#[derive(Debug)]
pub struct HeadAssets {
    pub paged_js: String,
    pub syntax_highlighting_css: String,
    pub syntax_highlighting_paged_js_css: String,
}

/// Text of a head: its elements, the paged.js script where paged.js is used, and the syntax
/// highlighting styles where syntax highlighting is used, inside `<head>`.
pub open spec fn head_text(h: HeadV, a: HeadAssets) -> Seq<char> {
    "<head>"@ + elements_text(h.elements) + (if h.paged_js_used {
        "<script>"@ + a.paged_js@ + "</script>"@
    } else {
        Seq::empty()
    }) + (if h.syntax_highlighting_used {
        "<style>"@ + (if h.paged_js_used {
            a.syntax_highlighting_paged_js_css@
        } else {
            a.syntax_highlighting_css@
        }) + "</style>"@
    } else {
        Seq::empty()
    }) + "</head>"@
}

/// Text of a document: its head and body inside `<html>` with its language.
pub open spec fn html_text(d: HtmlV, a: HeadAssets) -> Seq<char> {
    "<!DOCTYPE HTML><html lang=\""@ + d.lang + "\">"@ + head_text(d.head, a) + body_text(d.body)
        + "</html>"@
}

impl HtmlHead {
    /// The head as HTML text, embedding the given script and styles as it uses them.
    pub fn to_string(&self, assets: &HeadAssets) -> (r: String)
        ensures
            r@ == head_text(self@, *assets),
    {
        let mut s = String::new();
        s.append("<head>");
        let e = self.elements.to_string();
        s.append(e.as_str());
        if self.paged_js_used {
            s.append("<script>");
            s.append(assets.paged_js.as_str());
            s.append("</script>");
        }
        if self.syntax_highlighting_used {
            s.append("<style>");
            if self.paged_js_used {
                s.append(assets.syntax_highlighting_paged_js_css.as_str());
            } else {
                s.append(assets.syntax_highlighting_css.as_str());
            }
            s.append("</style>");
        }
        s.append("</head>");
        s
    }
}

impl Html {
    /// The document as HTML text, embedding the given script and styles as its head uses them.
    pub fn to_string(&self, assets: &HeadAssets) -> (r: String)
        ensures
            r@ == html_text(self@, *assets),
    {
        let mut s = String::new();
        s.append("<!DOCTYPE HTML><html lang=\"");
        s.append(self.lang.as_str());
        s.append("\">");
        let h = self.head.to_string(assets);
        s.append(h.as_str());
        let b = self.body.to_string();
        s.append(b.as_str());
        s.append("</html>");
        s
    }
}

/// Merging into an empty head gives the merged head itself.
pub proof fn lemma_merge_into_empty(h: HeadV)
    ensures
        merged_head(empty_head(), h) == h,
{
    assert(merged_head(empty_head(), h).elements =~= h.elements);
    assert(merged_head(empty_head(), h).styles =~= h.styles);
}

/// Merging heads is associative.
pub proof fn lemma_merge_associative(a: HeadV, b: HeadV, c: HeadV)
    ensures
        merged_head(merged_head(a, b), c) == merged_head(a, merged_head(b, c)),
{
    assert(merged_head(merged_head(a, b), c).elements =~= merged_head(a, merged_head(b, c)).elements);
    assert(merged_head(merged_head(a, b), c).styles =~= merged_head(a, merged_head(b, c)).styles);
}

} // verus!
