//! Supported HTML tags.
use crate::parser::heading::{level_depth, HeadingLevel};
use vstd::prelude::*;
use vstd::std_specs::convert::FromSpecImpl;

verus! {

/// Supported HTML tags.
#[derive(Debug, Clone, Copy, PartialEq, Eq, Structural)]
pub enum HtmlTag {
    /// This tag may be used to create an element without HTML tags.
    PlainContent,
    /// The `<html>` tag.
    Html,
    /// The `<head>` tag.
    Head,
    /// The `<body>` tag.
    Body,
    /// The `<p>` tag.
    P,
    /// The `<h1>` tag.
    H1,
    /// The `<h2>` tag.
    H2,
    /// The `<h3>` tag.
    H3,
    /// The `<h4>` tag.
    H4,
    /// The `<h5>` tag.
    H5,
    /// The `<h6>` tag.
    H6,
    /// The `<code>` tag.
    Code,
    /// The `<pre>` tag.
    Pre,
    /// The `<strong>` tag.
    Strong,
    /// The `<em>` tag.
    Em,
    /// The `<span>` tag.
    Span,
    /// The `<sub>` tag.
    Sub,
    /// The `<sup>` tag.
    Sup,
    /// The `<mark>` tag.
    Mark,
    /// The `<q>` tag.
    Q,
    /// The `<br>` tag.
    Br,
    /// The `<ul>` tag.
    Ul,
    /// The `<li>` tag.
    Li,
    /// The `<a>` tag.
    A,
    /// The `<script>` tag.
    Script,
}

impl Default for HtmlTag {
    fn default() -> (r: Self)
        ensures
            r == HtmlTag::PlainContent,
    {
        HtmlTag::PlainContent
    }
}

/// The name of each tag; plain content has none.
pub open spec fn tag_name(t: HtmlTag) -> Seq<char> {
    match t {
        HtmlTag::PlainContent => ""@,
        HtmlTag::Html => "html"@,
        HtmlTag::Head => "head"@,
        HtmlTag::Body => "body"@,
        HtmlTag::P => "p"@,
        HtmlTag::H1 => "h1"@,
        HtmlTag::H2 => "h2"@,
        HtmlTag::H3 => "h3"@,
        HtmlTag::H4 => "h4"@,
        HtmlTag::H5 => "h5"@,
        HtmlTag::H6 => "h6"@,
        HtmlTag::Code => "code"@,
        HtmlTag::Pre => "pre"@,
        HtmlTag::Strong => "strong"@,
        HtmlTag::Em => "em"@,
        HtmlTag::Span => "span"@,
        HtmlTag::Sub => "sub"@,
        HtmlTag::Sup => "sup"@,
        HtmlTag::Mark => "mark"@,
        HtmlTag::Q => "q"@,
        HtmlTag::Br => "br"@,
        HtmlTag::Ul => "ul"@,
        HtmlTag::Li => "li"@,
        HtmlTag::A => "a"@,
        HtmlTag::Script => "script"@,
    }
}

/// The heading tag of each heading level.
pub open spec fn heading_tag(l: HeadingLevel) -> HtmlTag {
    match l {
        HeadingLevel::Level1 => HtmlTag::H1,
        HeadingLevel::Level2 => HtmlTag::H2,
        HeadingLevel::Level3 => HtmlTag::H3,
        HeadingLevel::Level4 => HtmlTag::H4,
        HeadingLevel::Level5 => HtmlTag::H5,
        HeadingLevel::Level6 => HtmlTag::H6,
    }
}

impl HtmlTag {
    /// The name of the tag, e.g. `p` for `<p>`; empty for plain content.
    pub fn as_str(&self) -> (r: &'static str)
        ensures
            r@ == tag_name(*self),
    {
        match *self {
            HtmlTag::PlainContent => "",
            HtmlTag::Html => "html",
            HtmlTag::Head => "head",
            HtmlTag::Body => "body",
            HtmlTag::P => "p",
            HtmlTag::H1 => "h1",
            HtmlTag::H2 => "h2",
            HtmlTag::H3 => "h3",
            HtmlTag::H4 => "h4",
            HtmlTag::H5 => "h5",
            HtmlTag::H6 => "h6",
            HtmlTag::Code => "code",
            HtmlTag::Pre => "pre",
            HtmlTag::Strong => "strong",
            HtmlTag::Em => "em",
            HtmlTag::Span => "span",
            HtmlTag::Sub => "sub",
            HtmlTag::Sup => "sup",
            HtmlTag::Mark => "mark",
            HtmlTag::Q => "q",
            HtmlTag::Br => "br",
            HtmlTag::Ul => "ul",
            HtmlTag::Li => "li",
            HtmlTag::A => "a",
            HtmlTag::Script => "script",
        }
    }

    /// The name of the tag as a string.
    pub fn to_string(&self) -> (r: String)
        ensures
            r@ == tag_name(*self),
    {
        self.as_str().to_owned()
    }
}

impl From<HeadingLevel> for HtmlTag {
    /// `h1` to `h6` by heading level.
    fn from(value: HeadingLevel) -> (r: Self)
        ensures
            r == heading_tag(value),
    {
        match value {
            HeadingLevel::Level1 => HtmlTag::H1,
            HeadingLevel::Level2 => HtmlTag::H2,
            HeadingLevel::Level3 => HtmlTag::H3,
            HeadingLevel::Level4 => HtmlTag::H4,
            HeadingLevel::Level5 => HtmlTag::H5,
            HeadingLevel::Level6 => HtmlTag::H6,
        }
    }
}

impl FromSpecImpl<HeadingLevel> for HtmlTag {
    open spec fn obeys_from_spec() -> bool {
        true
    }

    open spec fn from_spec(value: HeadingLevel) -> HtmlTag {
        heading_tag(value)
    }
}

} // verus!
