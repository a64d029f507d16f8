use unimarkup::parser::heading::HeadingLevel;
use unimarkup::render::csl::{CslCitationCitationItemsItemLabel, CslCitationSchema, CslItemType};
use unimarkup::render::html::{
    HeadAssets, Html, HtmlAttribute, HtmlAttributes, HtmlBody, HtmlElement, HtmlElements, HtmlHead,
};
use unimarkup::render::highlight::{finish_highlighting, highlight_content, is_plain_language};
use unimarkup::render::html_render::{verbatim_block_html, HtmlRenderer};
use unimarkup::render::html_text::{self, render_html};
use unimarkup::render::log_id::UmiParserError;
use unimarkup::render::tag::HtmlTag;
use unimarkup::render::umi::UmiRow;

fn plain(text: &str) -> Html {
    HtmlRenderer::default().render_plain(text.to_string())
}

#[test]
fn attribute_text() {
    let a = HtmlAttribute { name: "id".to_string(), value: Some("x".to_string()) };
    assert_eq!(a.to_string(), "id='x'");
    let b = HtmlAttribute { name: "hidden".to_string(), value: None };
    assert_eq!(b.to_string(), "hidden");
    let attrs = HtmlAttributes::from(vec![a, b]);
    assert_eq!(attrs.len(), 2);
    assert_eq!(attrs.to_string(), " id='x' hidden");
}

#[test]
fn element_text() {
    let e = HtmlElement {
        tag: HtmlTag::P,
        attributes: HtmlAttributes::default(),
        content: Some("hi".to_string()),
    };
    assert_eq!(e.to_string(), "<p>hi</p>");
    let br = HtmlElement { tag: HtmlTag::Br, attributes: HtmlAttributes::default(), content: None };
    assert_eq!(br.to_string(), "<br/>");
    let text = HtmlElement {
        tag: HtmlTag::PlainContent,
        attributes: HtmlAttributes::default(),
        content: Some("just text".to_string()),
    };
    assert_eq!(text.to_string(), "just text");
    let body = HtmlBody::from(vec![e, br, text]);
    assert_eq!(body.to_string(), "<body><p>hi</p><br/>just text</body>");
}

#[test]
fn nested_wraps_the_inner_body() {
    let mut attrs = HtmlAttributes::default();
    attrs.push(HtmlAttribute { name: "class".to_string(), value: Some("c".to_string()) });
    let mut inner = plain("a");
    inner.append(plain("b"));
    let html = Html::nested(HtmlTag::Span, attrs, inner);
    assert_eq!(html.body.to_string(), "<body><span class='c'>ab</span></body>");
    assert!(!html.head.syntax_highlighting_used);
}

#[test]
fn head_merge_keeps_order_and_flags() {
    let mut a = HtmlHead::default();
    a.elements.push(HtmlElement {
        tag: HtmlTag::Script,
        attributes: HtmlAttributes::default(),
        content: Some("1".to_string()),
    });
    let mut b = HtmlHead::default();
    b.paged_js_used = true;
    b.elements.push(HtmlElement {
        tag: HtmlTag::Script,
        attributes: HtmlAttributes::default(),
        content: Some("2".to_string()),
    });
    a.merge(b);
    assert!(a.paged_js_used);
    assert!(!a.syntax_highlighting_used);
    assert_eq!(a.elements.to_string(), "<script>1</script><script>2</script>");
}

#[test]
fn merging_into_an_empty_head_gives_that_head() {
    let mut h = HtmlHead::default();
    let mut other = HtmlHead::default();
    other.syntax_highlighting_used = true;
    other.styles.push(HtmlAttribute { name: "s".to_string(), value: None });
    h.merge(other);
    assert!(h.syntax_highlighting_used);
    assert_eq!(h.styles.to_string(), " s");
    assert!(h.elements.is_empty());
}

#[test]
fn render_inline_formats() {
    let mut r = HtmlRenderer::default();
    let bold = r.render_bold(plain("b"));
    assert_eq!(bold.body.to_string(), "<body><strong>b</strong></body>");
    let under = r.render_underline(plain("u"));
    assert_eq!(
        under.body.to_string(),
        "<body><span style='text-decoration: underline;'>u</span></body>"
    );
    let verb = r.render_inline_verbatim("`x`".to_string());
    assert_eq!(verb.body.to_string(), "<body><code>`x`</code></body>");
    let nl = r.render_implicit_newline();
    assert_eq!(nl.body.to_string(), "<body><br/></body>");
}

#[test]
fn render_heading_and_paragraph() {
    let mut r = HtmlRenderer::default();
    let h = r.render_heading(HeadingLevel::Level2, "title", plain("Title"));
    assert_eq!(h.body.to_string(), "<body><h2 id='title'>Title</h2></body>");
    let p = r.render_paragraph(plain("text"));
    assert_eq!(p.body.to_string(), "<body><p>text</p></body>");
    assert_eq!(HtmlTag::from(HeadingLevel::Level6), HtmlTag::H6);
}

#[test]
fn verbatim_block_html_prefers_highlighted_content() {
    let v = verbatim_block_html("fn x".to_string(), Some("<b>fn</b> x".to_string()));
    assert!(v.head.syntax_highlighting_used);
    assert_eq!(v.body.to_string(), "<body><pre><code><b>fn</b> x</code></pre></body>");
    let fallback = verbatim_block_html("fn x".to_string(), None);
    assert_eq!(fallback.body.to_string(), "<body><pre><code>fn x</code></pre></body>");
}

#[test]
fn render_verbatim_block_highlights() {
    let mut r = HtmlRenderer::default();
    let v = r.render_verbatim_block("fn main() {}\n".to_string(), Some("rust".to_string()));
    assert!(v.head.syntax_highlighting_used);
    let text = v.body.to_string();
    assert!(text.starts_with("<body><pre><code>"));
    assert!(text.ends_with("</code></pre></body>"));
    assert!(text.contains("highlighted_"));
    assert!(text.contains("main"));
    let plain = r.render_verbatim_block("just text".to_string(), None);
    assert!(plain.body.to_string().contains("just text"));
}

#[test]
fn highlighting_helpers() {
    assert!(is_plain_language("PLAIN"));
    assert!(is_plain_language("plain"));
    assert!(!is_plain_language("rust"));
    assert_eq!(
        finish_highlighting("<span class=\"highlighted_c++\">x</span>".to_string()),
        "<span class=\"highlighted_cpp\">x</span>"
    );
    let html = highlight_content("int x;\n", "c++").unwrap();
    assert!(!html.contains("highlighted_c++"));
    let plain = highlight_content("a < b\n", "plain").unwrap();
    assert!(plain.contains("a &lt; b"));
}

#[test]
fn render_bullet_list_of_entries() {
    let mut r = HtmlRenderer::default();
    let first = r.render_bullet_list_entry(plain("one"), None);
    let second = r.render_bullet_list_entry(plain("two"), Some(plain("more")));
    let list = r.render_bullet_list(vec![first, second]);
    assert_eq!(
        list.body.to_string(),
        "<body><ul><li>one</li><li><p>two</p>more</li></ul></body>"
    );
}

#[test]
fn render_html_joins_parts_or_fails() {
    let blocks: Vec<Result<(&str, &str), &str>> = vec![Ok(("h1", "b1")), Ok(("h2", "b2"))];
    let render = |b: &Result<(&str, &str), &str>| match b {
        Ok((h, body)) => Ok(html_text::Html { head: h.to_string(), body: body.to_string() }),
        Err(e) => Err(e.to_string()),
    };
    let joined = render_html(&blocks, render).unwrap();
    assert_eq!(joined.head, "h1h2");
    assert_eq!(joined.body, "b1b2");

    let calls = std::cell::Cell::new(0);
    let failing: Vec<Result<(&str, &str), &str>> = vec![Ok(("h1", "b1")), Err("first"), Err("second"), Ok(("h", "b"))];
    let counted = |b: &Result<(&str, &str), &str>| {
        calls.set(calls.get() + 1);
        render(b)
    };
    assert_eq!(render_html(&failing, counted).unwrap_err(), "first");
    assert_eq!(calls.get(), 2);
    let none: Vec<Result<(&str, &str), &str>> = vec![];
    let empty = render_html(&none, render).unwrap();
    assert_eq!(empty.head, "");
    assert_eq!(empty.body, "");
}

#[test]
fn html_elements_append_moves_all() {
    let mut a = HtmlElements::default();
    let mut b = HtmlElements::from(vec![HtmlElement {
        tag: HtmlTag::Li,
        attributes: HtmlAttributes::default(),
        content: None,
    }]);
    a.append(&mut b);
    assert_eq!(a.len(), 1);
    assert!(b.is_empty());
}

#[test]
fn csl_names_round_trip() {
    assert_eq!(CslItemType::ArticleJournal.to_string(), "article-journal");
    assert_eq!(CslItemType::from_str("article-journal"), Ok(CslItemType::ArticleJournal));
    assert_eq!(CslItemType::from_str("Article"), Err("invalid value"));
    assert_eq!(
        CslCitationCitationItemsItemLabel::try_from("chapter"),
        Ok(CslCitationCitationItemsItemLabel::Chapter)
    );
    assert_eq!(
        CslCitationCitationItemsItemLabel::try_from(&"nope".to_string()),
        Err("invalid value")
    );
    let schema = CslCitationSchema::HttpsResourceCitationstylesOrgSchemaLatestInputJsonCslCitationJson;
    assert_eq!(CslCitationSchema::try_from(schema.to_string()), Ok(schema));
    assert_eq!(HtmlTag::Strong.to_string(), "strong");
}

fn assets() -> HeadAssets {
    HeadAssets {
        paged_js: "PJS".to_string(),
        syntax_highlighting_css: "CSS".to_string(),
        syntax_highlighting_paged_js_css: "PCSS".to_string(),
    }
}

#[test]
fn document_text() {
    let mut doc = HtmlRenderer::default().render_paragraph(plain("hi"));
    doc.lang = "en".to_string();
    assert_eq!(
        doc.to_string(&assets()),
        "<!DOCTYPE HTML><html lang=\"en\"><head></head><body><p>hi</p></body></html>"
    );
    doc.head.syntax_highlighting_used = true;
    assert_eq!(doc.head.to_string(&assets()), "<head><style>CSS</style></head>");
    doc.head.paged_js_used = true;
    assert_eq!(
        doc.head.to_string(&assets()),
        "<head><script>PJS</script><style>PCSS</style></head>"
    );
    doc.head.syntax_highlighting_used = false;
    assert_eq!(doc.head.to_string(&assets()), "<head><script>PJS</script></head>");
}

#[test]
fn render_more_inline_formats() {
    let mut r = HtmlRenderer::default();
    assert_eq!(r.render_italic(plain("i")).body.to_string(), "<body><em>i</em></body>");
    assert_eq!(r.render_subscript(plain("s")).body.to_string(), "<body><sub>s</sub></body>");
    assert_eq!(r.render_superscript(plain("s")).body.to_string(), "<body><sup>s</sup></body>");
    assert_eq!(r.render_highlight(plain("h")).body.to_string(), "<body><mark>h</mark></body>");
    assert_eq!(r.render_quote(plain("q")).body.to_string(), "<body><q>q</q></body>");
    assert_eq!(
        r.render_overline(plain("o")).body.to_string(),
        "<body><span style='text-decoration: overline;'>o</span></body>"
    );
    assert_eq!(
        r.render_strikethrough(plain("x")).body.to_string(),
        "<body><span style='text-decoration: line-through;'>x</span></body>"
    );
    assert_eq!(r.render_escaped_newline().body.to_string(), "<body><br/></body>");
    assert_eq!(r.render_escaped_plain("*".to_string()).body.to_string(), "<body>*</body>");
    let with_head = Html::with_head(HtmlHead::default());
    assert!(with_head.body.elements.is_empty());
}

#[test]
fn umi_error_messages() {
    assert_eq!(
        UmiParserError::UnknownKind(7).to_string(),
        "The UMI Parser failed to parse the Element Kind at Position 7."
    );
    assert_eq!(
        UmiParserError::MissingProperty("level".to_string(), 42).to_string(),
        "The UMI Parser failed to parse Property level from Element at Position 42."
    );
    assert_eq!(
        UmiParserError::InvalidPropertyValue("x".to_string(), 255).to_string(),
        "The UMI Parser failed to parse Property Value x from Element at Position 255."
    );
    assert_eq!(
        UmiParserError::NoUnimarkupDetected.to_string(),
        "The UMI Parser failed to parse the corresponding Document."
    );
    assert_eq!(
        UmiParserError::MissingParentElement(100).to_string(),
        "The UMI Parser failed to parse the Element at Position 100, because it has not Parent Element wwith Depth 0."
    );
}

#[test]
fn umi_row_holds_its_values() {
    let row = UmiRow::new(
        1,
        "id".to_string(),
        "heading".to_string(),
        "{}".to_string(),
        0,
        "Title".to_string(),
        "".to_string(),
    );
    let copy = row.clone();
    assert_eq!(format!("{:?}", row), format!("{:?}", copy));
}

#[test]
fn empty_content_is_highlighted() {
    assert_eq!(highlight_content("", "rust"), Some(String::new()));
}

#[test]
fn csl_names_parse_through_from_str() {
    assert_eq!("article-journal".parse::<CslItemType>(), Ok(CslItemType::ArticleJournal));
    assert_eq!("nope".parse::<CslItemType>(), Err("invalid value"));
    assert_eq!(
        "chapter".parse::<CslCitationCitationItemsItemLabel>(),
        Ok(CslCitationCitationItemsItemLabel::Chapter)
    );
    assert!("x".parse::<CslCitationSchema>().is_err());
}
