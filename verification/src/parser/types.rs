//! The Unimarkup type system: the kinds of content elements and their names.
use crate::text::{ascii_lower, eq_ignore_ascii_case};
use vstd::prelude::*;

verus! {

/// Delimiter used in the string representation of [`ElementType`].
pub const ELEMENT_TYPE_DELIMITER: char = '-';

/// Type variants available in a Unimarkup document for Unimarkup content elements.
#[derive(Debug, Clone, Copy, PartialEq, Eq, Structural)]
pub enum ElementType {
    /// A block of text.
    Paragraph,
    /// A line of text starting with 1 to 6 `#` symbols.
    Heading,
    /// An unnumbered (unordered) list.
    BulletList,
    /// A numbered (ordered) list.
    NumberedList,
    /// A task list.
    TaskList,
    /// An unnumbered list with a definition term, description and optional class.
    DefinitionList,
    /// A table element.
    Table,
    /// A verbatim block.
    Verbatim,
    /// A render block enclosed with 3 or more `'` symbols.
    RenderBlock,
    /// A math block enclosed with 3 or more `$` symbols.
    MathBlock,
    /// A figure insert block.
    FigureInsert,
    /// A verbatim block which inserts a whole file as is.
    VerbatimInsert,
    /// A render block which inserts another file as render block.
    RenderBlockInsert,
    /// A text block enclosed between 3 or more pairs of `[]`.
    TextBlock,
    /// A block for quoting longer text.
    QuotationBlock,
    /// A line block preserving all spaces, tabs and new lines.
    LineBlock,
    /// A definition block with a term, an optional classifier and a definition.
    DefinitionBlock,
    /// An explicit column layout.
    ExplicitColumn,
    /// An implicit column layout.
    ImplicitColumn,
    /// A field block.
    FieldBlock,
    /// An output block.
    OutputBlock,
    /// A media insert.
    MediaInsert,
    /// A macro definition.
    MacroDefinition,
    /// A macro usage.
    MacroUsage,
    /// A variable definition.
    VariableDefinition,
    /// A variable usage.
    VariableUsage,
}

/// Names of the element types, in kebab case.
pub open spec fn element_type_name(t: ElementType) -> Seq<char> {
    match t {
        ElementType::Paragraph => "paragraph"@,
        ElementType::Heading => "heading"@,
        ElementType::BulletList => "bullet-list"@,
        ElementType::NumberedList => "numbered-list"@,
        ElementType::TaskList => "task-list"@,
        ElementType::DefinitionList => "definition-list"@,
        ElementType::Table => "table"@,
        ElementType::Verbatim => "verbatim"@,
        ElementType::RenderBlock => "render-block"@,
        ElementType::MathBlock => "math-block"@,
        ElementType::FigureInsert => "figure-insert"@,
        ElementType::VerbatimInsert => "verbatim-insert"@,
        ElementType::RenderBlockInsert => "render-block-insert"@,
        ElementType::TextBlock => "text-block"@,
        ElementType::QuotationBlock => "quotation-block"@,
        ElementType::LineBlock => "line-block"@,
        ElementType::DefinitionBlock => "definition-block"@,
        ElementType::ExplicitColumn => "explicit-column"@,
        ElementType::ImplicitColumn => "implicit-column"@,
        ElementType::FieldBlock => "field-block"@,
        ElementType::OutputBlock => "output-block"@,
        ElementType::MediaInsert => "media-insert"@,
        ElementType::MacroDefinition => "macro-definition"@,
        ElementType::MacroUsage => "macro-usage"@,
        ElementType::VariableDefinition => "variable-definition"@,
        ElementType::VariableUsage => "variable-usage"@,
    }
}

/// Whether `s` names an element type, ignoring ASCII case.
pub open spec fn names_element_type(s: Seq<char>, t: ElementType) -> bool {
    ascii_lower(s) == ascii_lower(element_type_name(t))
}

/// Error when a string names no element type.
#[derive(Debug, Clone, Copy, PartialEq, Eq, Structural)]
pub enum ElementTypeParseError {
    /// No element type has this name.
    VariantNotFound,
}

impl ElementType {
    /// The name of the element type in kebab case, e.g. `bullet-list`.
    pub fn as_str(&self) -> (r: &'static str)
        ensures
            r@ == element_type_name(*self),
    {
        match self {
            ElementType::Paragraph => "paragraph",
            ElementType::Heading => "heading",
            ElementType::BulletList => "bullet-list",
            ElementType::NumberedList => "numbered-list",
            ElementType::TaskList => "task-list",
            ElementType::DefinitionList => "definition-list",
            ElementType::Table => "table",
            ElementType::Verbatim => "verbatim",
            ElementType::RenderBlock => "render-block",
            ElementType::MathBlock => "math-block",
            ElementType::FigureInsert => "figure-insert",
            ElementType::VerbatimInsert => "verbatim-insert",
            ElementType::RenderBlockInsert => "render-block-insert",
            ElementType::TextBlock => "text-block",
            ElementType::QuotationBlock => "quotation-block",
            ElementType::LineBlock => "line-block",
            ElementType::DefinitionBlock => "definition-block",
            ElementType::ExplicitColumn => "explicit-column",
            ElementType::ImplicitColumn => "implicit-column",
            ElementType::FieldBlock => "field-block",
            ElementType::OutputBlock => "output-block",
            ElementType::MediaInsert => "media-insert",
            ElementType::MacroDefinition => "macro-definition",
            ElementType::MacroUsage => "macro-usage",
            ElementType::VariableDefinition => "variable-definition",
            ElementType::VariableUsage => "variable-usage",
        }
    }

    /// The name of the element type in kebab case, e.g. `bullet-list`.
    pub fn to_string(&self) -> (r: String)
        ensures
            r@ == element_type_name(*self),
    {
        self.as_str().to_owned()
    }

    /// The element type named by `s` in kebab case, ignoring ASCII case.
    pub fn from_name(s: &str) -> (r: Result<ElementType, ElementTypeParseError>)
        ensures
            r matches Ok(t) ==> names_element_type(s@, t),
            r is Err ==> forall|t: ElementType| !names_element_type(s@, t),
    {
        if eq_ignore_ascii_case(s, "paragraph") {
            return Ok(ElementType::Paragraph);
        }
        if eq_ignore_ascii_case(s, "heading") {
            return Ok(ElementType::Heading);
        }
        if eq_ignore_ascii_case(s, "bullet-list") {
            return Ok(ElementType::BulletList);
        }
        if eq_ignore_ascii_case(s, "numbered-list") {
            return Ok(ElementType::NumberedList);
        }
        if eq_ignore_ascii_case(s, "task-list") {
            return Ok(ElementType::TaskList);
        }
        if eq_ignore_ascii_case(s, "definition-list") {
            return Ok(ElementType::DefinitionList);
        }
        if eq_ignore_ascii_case(s, "table") {
            return Ok(ElementType::Table);
        }
        if eq_ignore_ascii_case(s, "verbatim") {
            return Ok(ElementType::Verbatim);
        }
        if eq_ignore_ascii_case(s, "render-block") {
            return Ok(ElementType::RenderBlock);
        }
        if eq_ignore_ascii_case(s, "math-block") {
            return Ok(ElementType::MathBlock);
        }
        if eq_ignore_ascii_case(s, "figure-insert") {
            return Ok(ElementType::FigureInsert);
        }
        if eq_ignore_ascii_case(s, "verbatim-insert") {
            return Ok(ElementType::VerbatimInsert);
        }
        if eq_ignore_ascii_case(s, "render-block-insert") {
            return Ok(ElementType::RenderBlockInsert);
        }
        if eq_ignore_ascii_case(s, "text-block") {
            return Ok(ElementType::TextBlock);
        }
        if eq_ignore_ascii_case(s, "quotation-block") {
            return Ok(ElementType::QuotationBlock);
        }
        if eq_ignore_ascii_case(s, "line-block") {
            return Ok(ElementType::LineBlock);
        }
        if eq_ignore_ascii_case(s, "definition-block") {
            return Ok(ElementType::DefinitionBlock);
        }
        if eq_ignore_ascii_case(s, "explicit-column") {
            return Ok(ElementType::ExplicitColumn);
        }
        if eq_ignore_ascii_case(s, "implicit-column") {
            return Ok(ElementType::ImplicitColumn);
        }
        if eq_ignore_ascii_case(s, "field-block") {
            return Ok(ElementType::FieldBlock);
        }
        if eq_ignore_ascii_case(s, "output-block") {
            return Ok(ElementType::OutputBlock);
        }
        if eq_ignore_ascii_case(s, "media-insert") {
            return Ok(ElementType::MediaInsert);
        }
        if eq_ignore_ascii_case(s, "macro-definition") {
            return Ok(ElementType::MacroDefinition);
        }
        if eq_ignore_ascii_case(s, "macro-usage") {
            return Ok(ElementType::MacroUsage);
        }
        if eq_ignore_ascii_case(s, "variable-definition") {
            return Ok(ElementType::VariableDefinition);
        }
        if eq_ignore_ascii_case(s, "variable-usage") {
            return Ok(ElementType::VariableUsage);
        }
        proof {
            assert forall|t: ElementType| !names_element_type(s@, t) by {
                match t {
                    ElementType::Paragraph => {},
                    ElementType::Heading => {},
                    ElementType::BulletList => {},
                    ElementType::NumberedList => {},
                    ElementType::TaskList => {},
                    ElementType::DefinitionList => {},
                    ElementType::Table => {},
                    ElementType::Verbatim => {},
                    ElementType::RenderBlock => {},
                    ElementType::MathBlock => {},
                    ElementType::FigureInsert => {},
                    ElementType::VerbatimInsert => {},
                    ElementType::RenderBlockInsert => {},
                    ElementType::TextBlock => {},
                    ElementType::QuotationBlock => {},
                    ElementType::LineBlock => {},
                    ElementType::DefinitionBlock => {},
                    ElementType::ExplicitColumn => {},
                    ElementType::ImplicitColumn => {},
                    ElementType::FieldBlock => {},
                    ElementType::OutputBlock => {},
                    ElementType::MediaInsert => {},
                    ElementType::MacroDefinition => {},
                    ElementType::MacroUsage => {},
                    ElementType::VariableDefinition => {},
                    ElementType::VariableUsage => {},
                }
            }
        }
        Err(ElementTypeParseError::VariantNotFound)
    }
}


/// The names of the element types are lower case: ignoring ASCII case changes nothing.
proof fn lemma_names_lower(t: ElementType)
    ensures
        ascii_lower(element_type_name(t)) == element_type_name(t),
{
    reveal_strlit("paragraph");
    reveal_strlit("heading");
    reveal_strlit("bullet-list");
    reveal_strlit("numbered-list");
    reveal_strlit("task-list");
    reveal_strlit("definition-list");
    reveal_strlit("table");
    reveal_strlit("verbatim");
    reveal_strlit("render-block");
    reveal_strlit("math-block");
    reveal_strlit("figure-insert");
    reveal_strlit("verbatim-insert");
    reveal_strlit("render-block-insert");
    reveal_strlit("text-block");
    reveal_strlit("quotation-block");
    reveal_strlit("line-block");
    reveal_strlit("definition-block");
    reveal_strlit("explicit-column");
    reveal_strlit("implicit-column");
    reveal_strlit("field-block");
    reveal_strlit("output-block");
    reveal_strlit("media-insert");
    reveal_strlit("macro-definition");
    reveal_strlit("macro-usage");
    reveal_strlit("variable-definition");
    reveal_strlit("variable-usage");
    assert(ascii_lower(element_type_name(t)) =~= element_type_name(t));
}

/// Reading the name of an element type, in any ASCII case, gives back that element type and
/// no other: no two element types share a name.
pub proof fn lemma_element_type_name_round_trip(t: ElementType, other: ElementType)
    ensures
        names_element_type(element_type_name(t), t),
        names_element_type(element_type_name(t), other) ==> other == t,
{
    lemma_names_lower(t);
    lemma_names_lower(other);
    reveal_strlit("paragraph");
    reveal_strlit("heading");
    reveal_strlit("bullet-list");
    reveal_strlit("numbered-list");
    reveal_strlit("task-list");
    reveal_strlit("definition-list");
    reveal_strlit("table");
    reveal_strlit("verbatim");
    reveal_strlit("render-block");
    reveal_strlit("math-block");
    reveal_strlit("figure-insert");
    reveal_strlit("verbatim-insert");
    reveal_strlit("render-block-insert");
    reveal_strlit("text-block");
    reveal_strlit("quotation-block");
    reveal_strlit("line-block");
    reveal_strlit("definition-block");
    reveal_strlit("explicit-column");
    reveal_strlit("implicit-column");
    reveal_strlit("field-block");
    reveal_strlit("output-block");
    reveal_strlit("media-insert");
    reveal_strlit("macro-definition");
    reveal_strlit("macro-usage");
    reveal_strlit("variable-definition");
    reveal_strlit("variable-usage");
    if element_type_name(t) == element_type_name(other) && other != t {
        assert(element_type_name(t).len() == element_type_name(other).len());
        assert(element_type_name(t)[0] == element_type_name(other)[0]);
        assert(element_type_name(t)[1] == element_type_name(other)[1]);
        assert(element_type_name(t)[2] == element_type_name(other)[2]);
        assert(element_type_name(t)[3] == element_type_name(other)[3]);
        assert(element_type_name(t)[5] == element_type_name(other)[5]);
        assert(element_type_name(t)[6] == element_type_name(other)[6]);
    }
}

} // verus!
