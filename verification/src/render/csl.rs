//! String-valued enumerations of CSL-JSON bibliography data: item types, locator labels
//! and the citation schema.
use crate::text::str_eq;
use vstd::prelude::*;
use vstd::std_specs::convert::TryFromSpecImpl;

verus! {

/// Label of a locator in a citation item.
#[derive(Debug, Clone, Copy, PartialEq, Eq, Hash, Structural)]
pub enum CslCitationCitationItemsItemLabel {
    /// `act`
    Act,
    /// `appendix`
    Appendix,
    /// `article-locator`
    ArticleLocator,
    /// `book`
    Book,
    /// `canon`
    Canon,
    /// `chapter`
    Chapter,
    /// `column`
    Column,
    /// `elocation`
    Elocation,
    /// `equation`
    Equation,
    /// `figure`
    Figure,
    /// `folio`
    Folio,
    /// `issue`
    Issue,
    /// `line`
    Line,
    /// `note`
    Note,
    /// `opus`
    Opus,
    /// `page`
    Page,
    /// `paragraph`
    Paragraph,
    /// `part`
    Part,
    /// `rule`
    Rule,
    /// `scene`
    Scene,
    /// `section`
    Section,
    /// `sub-verbo`
    SubVerbo,
    /// `supplement`
    Supplement,
    /// `table`
    Table,
    /// `timestamp`
    Timestamp,
    /// `title-locator`
    TitleLocator,
    /// `verse`
    Verse,
    /// `version`
    Version,
    /// `volume`
    Volume,
}

/// The name of each variant.
pub open spec fn label_name(t: CslCitationCitationItemsItemLabel) -> Seq<char> {
    match t {
        CslCitationCitationItemsItemLabel::Act => "act"@,
        CslCitationCitationItemsItemLabel::Appendix => "appendix"@,
        CslCitationCitationItemsItemLabel::ArticleLocator => "article-locator"@,
        CslCitationCitationItemsItemLabel::Book => "book"@,
        CslCitationCitationItemsItemLabel::Canon => "canon"@,
        CslCitationCitationItemsItemLabel::Chapter => "chapter"@,
        CslCitationCitationItemsItemLabel::Column => "column"@,
        CslCitationCitationItemsItemLabel::Elocation => "elocation"@,
        CslCitationCitationItemsItemLabel::Equation => "equation"@,
        CslCitationCitationItemsItemLabel::Figure => "figure"@,
        CslCitationCitationItemsItemLabel::Folio => "folio"@,
        CslCitationCitationItemsItemLabel::Issue => "issue"@,
        CslCitationCitationItemsItemLabel::Line => "line"@,
        CslCitationCitationItemsItemLabel::Note => "note"@,
        CslCitationCitationItemsItemLabel::Opus => "opus"@,
        CslCitationCitationItemsItemLabel::Page => "page"@,
        CslCitationCitationItemsItemLabel::Paragraph => "paragraph"@,
        CslCitationCitationItemsItemLabel::Part => "part"@,
        CslCitationCitationItemsItemLabel::Rule => "rule"@,
        CslCitationCitationItemsItemLabel::Scene => "scene"@,
        CslCitationCitationItemsItemLabel::Section => "section"@,
        CslCitationCitationItemsItemLabel::SubVerbo => "sub-verbo"@,
        CslCitationCitationItemsItemLabel::Supplement => "supplement"@,
        CslCitationCitationItemsItemLabel::Table => "table"@,
        CslCitationCitationItemsItemLabel::Timestamp => "timestamp"@,
        CslCitationCitationItemsItemLabel::TitleLocator => "title-locator"@,
        CslCitationCitationItemsItemLabel::Verse => "verse"@,
        CslCitationCitationItemsItemLabel::Version => "version"@,
        CslCitationCitationItemsItemLabel::Volume => "volume"@,
    }
}

/// The variant named `s`: the first in declaration order whose name is `s`.
pub open spec fn label_of_name(s: Seq<char>) -> Option<CslCitationCitationItemsItemLabel> {
    if s == "act"@ {
        Some(CslCitationCitationItemsItemLabel::Act)
    } else if s == "appendix"@ {
        Some(CslCitationCitationItemsItemLabel::Appendix)
    } else if s == "article-locator"@ {
        Some(CslCitationCitationItemsItemLabel::ArticleLocator)
    } else if s == "book"@ {
        Some(CslCitationCitationItemsItemLabel::Book)
    } else if s == "canon"@ {
        Some(CslCitationCitationItemsItemLabel::Canon)
    } else if s == "chapter"@ {
        Some(CslCitationCitationItemsItemLabel::Chapter)
    } else if s == "column"@ {
        Some(CslCitationCitationItemsItemLabel::Column)
    } else if s == "elocation"@ {
        Some(CslCitationCitationItemsItemLabel::Elocation)
    } else if s == "equation"@ {
        Some(CslCitationCitationItemsItemLabel::Equation)
    } else if s == "figure"@ {
        Some(CslCitationCitationItemsItemLabel::Figure)
    } else if s == "folio"@ {
        Some(CslCitationCitationItemsItemLabel::Folio)
    } else if s == "issue"@ {
        Some(CslCitationCitationItemsItemLabel::Issue)
    } else if s == "line"@ {
        Some(CslCitationCitationItemsItemLabel::Line)
    } else if s == "note"@ {
        Some(CslCitationCitationItemsItemLabel::Note)
    } else if s == "opus"@ {
        Some(CslCitationCitationItemsItemLabel::Opus)
    } else if s == "page"@ {
        Some(CslCitationCitationItemsItemLabel::Page)
    } else if s == "paragraph"@ {
        Some(CslCitationCitationItemsItemLabel::Paragraph)
    } else if s == "part"@ {
        Some(CslCitationCitationItemsItemLabel::Part)
    } else if s == "rule"@ {
        Some(CslCitationCitationItemsItemLabel::Rule)
    } else if s == "scene"@ {
        Some(CslCitationCitationItemsItemLabel::Scene)
    } else if s == "section"@ {
        Some(CslCitationCitationItemsItemLabel::Section)
    } else if s == "sub-verbo"@ {
        Some(CslCitationCitationItemsItemLabel::SubVerbo)
    } else if s == "supplement"@ {
        Some(CslCitationCitationItemsItemLabel::Supplement)
    } else if s == "table"@ {
        Some(CslCitationCitationItemsItemLabel::Table)
    } else if s == "timestamp"@ {
        Some(CslCitationCitationItemsItemLabel::Timestamp)
    } else if s == "title-locator"@ {
        Some(CslCitationCitationItemsItemLabel::TitleLocator)
    } else if s == "verse"@ {
        Some(CslCitationCitationItemsItemLabel::Verse)
    } else if s == "version"@ {
        Some(CslCitationCitationItemsItemLabel::Version)
    } else if s == "volume"@ {
        Some(CslCitationCitationItemsItemLabel::Volume)
    } else {
        None
    }
}

impl CslCitationCitationItemsItemLabel {
    /// The name of the variant.
    pub fn as_str(&self) -> (r: &'static str)
        ensures
            r@ == label_name(*self),
    {
        match self {
            CslCitationCitationItemsItemLabel::Act => "act",
            CslCitationCitationItemsItemLabel::Appendix => "appendix",
            CslCitationCitationItemsItemLabel::ArticleLocator => "article-locator",
            CslCitationCitationItemsItemLabel::Book => "book",
            CslCitationCitationItemsItemLabel::Canon => "canon",
            CslCitationCitationItemsItemLabel::Chapter => "chapter",
            CslCitationCitationItemsItemLabel::Column => "column",
            CslCitationCitationItemsItemLabel::Elocation => "elocation",
            CslCitationCitationItemsItemLabel::Equation => "equation",
            CslCitationCitationItemsItemLabel::Figure => "figure",
            CslCitationCitationItemsItemLabel::Folio => "folio",
            CslCitationCitationItemsItemLabel::Issue => "issue",
            CslCitationCitationItemsItemLabel::Line => "line",
            CslCitationCitationItemsItemLabel::Note => "note",
            CslCitationCitationItemsItemLabel::Opus => "opus",
            CslCitationCitationItemsItemLabel::Page => "page",
            CslCitationCitationItemsItemLabel::Paragraph => "paragraph",
            CslCitationCitationItemsItemLabel::Part => "part",
            CslCitationCitationItemsItemLabel::Rule => "rule",
            CslCitationCitationItemsItemLabel::Scene => "scene",
            CslCitationCitationItemsItemLabel::Section => "section",
            CslCitationCitationItemsItemLabel::SubVerbo => "sub-verbo",
            CslCitationCitationItemsItemLabel::Supplement => "supplement",
            CslCitationCitationItemsItemLabel::Table => "table",
            CslCitationCitationItemsItemLabel::Timestamp => "timestamp",
            CslCitationCitationItemsItemLabel::TitleLocator => "title-locator",
            CslCitationCitationItemsItemLabel::Verse => "verse",
            CslCitationCitationItemsItemLabel::Version => "version",
            CslCitationCitationItemsItemLabel::Volume => "volume",
        }
    }

    /// The name of the variant as a string.
    pub fn to_string(&self) -> (r: String)
        ensures
            r@ == label_name(*self),
    {
        self.as_str().to_owned()
    }

    /// The variant named `value`; `"invalid value"` if no variant has this name.
    pub fn from_str(value: &str) -> (r: Result<Self, &'static str>)
        ensures
            r matches Ok(t) ==> label_of_name(value@) == Some(t),
            r matches Err(m) ==> label_of_name(value@) is None && m == "invalid value",
    {
        if str_eq(value, "act") {
            return Ok(CslCitationCitationItemsItemLabel::Act);
        }
        if str_eq(value, "appendix") {
            return Ok(CslCitationCitationItemsItemLabel::Appendix);
        }
        if str_eq(value, "article-locator") {
            return Ok(CslCitationCitationItemsItemLabel::ArticleLocator);
        }
        if str_eq(value, "book") {
            return Ok(CslCitationCitationItemsItemLabel::Book);
        }
        if str_eq(value, "canon") {
            return Ok(CslCitationCitationItemsItemLabel::Canon);
        }
        if str_eq(value, "chapter") {
            return Ok(CslCitationCitationItemsItemLabel::Chapter);
        }
        if str_eq(value, "column") {
            return Ok(CslCitationCitationItemsItemLabel::Column);
        }
        if str_eq(value, "elocation") {
            return Ok(CslCitationCitationItemsItemLabel::Elocation);
        }
        if str_eq(value, "equation") {
            return Ok(CslCitationCitationItemsItemLabel::Equation);
        }
        if str_eq(value, "figure") {
            return Ok(CslCitationCitationItemsItemLabel::Figure);
        }
        if str_eq(value, "folio") {
            return Ok(CslCitationCitationItemsItemLabel::Folio);
        }
        if str_eq(value, "issue") {
            return Ok(CslCitationCitationItemsItemLabel::Issue);
        }
        if str_eq(value, "line") {
            return Ok(CslCitationCitationItemsItemLabel::Line);
        }
        if str_eq(value, "note") {
            return Ok(CslCitationCitationItemsItemLabel::Note);
        }
        if str_eq(value, "opus") {
            return Ok(CslCitationCitationItemsItemLabel::Opus);
        }
        if str_eq(value, "page") {
            return Ok(CslCitationCitationItemsItemLabel::Page);
        }
        if str_eq(value, "paragraph") {
            return Ok(CslCitationCitationItemsItemLabel::Paragraph);
        }
        if str_eq(value, "part") {
            return Ok(CslCitationCitationItemsItemLabel::Part);
        }
        if str_eq(value, "rule") {
            return Ok(CslCitationCitationItemsItemLabel::Rule);
        }
        if str_eq(value, "scene") {
            return Ok(CslCitationCitationItemsItemLabel::Scene);
        }
        if str_eq(value, "section") {
            return Ok(CslCitationCitationItemsItemLabel::Section);
        }
        if str_eq(value, "sub-verbo") {
            return Ok(CslCitationCitationItemsItemLabel::SubVerbo);
        }
        if str_eq(value, "supplement") {
            return Ok(CslCitationCitationItemsItemLabel::Supplement);
        }
        if str_eq(value, "table") {
            return Ok(CslCitationCitationItemsItemLabel::Table);
        }
        if str_eq(value, "timestamp") {
            return Ok(CslCitationCitationItemsItemLabel::Timestamp);
        }
        if str_eq(value, "title-locator") {
            return Ok(CslCitationCitationItemsItemLabel::TitleLocator);
        }
        if str_eq(value, "verse") {
            return Ok(CslCitationCitationItemsItemLabel::Verse);
        }
        if str_eq(value, "version") {
            return Ok(CslCitationCitationItemsItemLabel::Version);
        }
        if str_eq(value, "volume") {
            return Ok(CslCitationCitationItemsItemLabel::Volume);
        }
        Err("invalid value")
    }
}

impl std::str::FromStr for CslCitationCitationItemsItemLabel {
    type Err = &'static str;

    fn from_str(value: &str) -> (r: Result<Self, &'static str>)
        ensures
            r matches Ok(t) ==> label_of_name(value@) == Some(t),
            r matches Err(m) ==> label_of_name(value@) is None && m == "invalid value",
    {
        CslCitationCitationItemsItemLabel::from_str(value)
    }
}

impl<'a> TryFrom<&'a str> for CslCitationCitationItemsItemLabel {
    type Error = &'static str;

    fn try_from(value: &'a str) -> (r: Result<Self, &'static str>)
        ensures
            r matches Ok(t) ==> label_of_name(value@) == Some(t),
            r matches Err(m) ==> label_of_name(value@) is None && m == "invalid value",
    {
        CslCitationCitationItemsItemLabel::from_str(value)
    }
}

impl<'a> TryFromSpecImpl<&'a str> for CslCitationCitationItemsItemLabel {
    open spec fn obeys_try_from_spec() -> bool {
        true
    }

    open spec fn try_from_spec(value: &'a str) -> Result<Self, &'static str> {
        match label_of_name(value@) {
            Some(t) => Ok(t),
            None => Err("invalid value"),
        }
    }
}

impl<'a> TryFrom<&'a String> for CslCitationCitationItemsItemLabel {
    type Error = &'static str;

    fn try_from(value: &'a String) -> (r: Result<Self, &'static str>)
        ensures
            r matches Ok(t) ==> label_of_name(value@) == Some(t),
            r matches Err(m) ==> label_of_name(value@) is None && m == "invalid value",
    {
        CslCitationCitationItemsItemLabel::from_str(value.as_str())
    }
}

impl<'a> TryFromSpecImpl<&'a String> for CslCitationCitationItemsItemLabel {
    open spec fn obeys_try_from_spec() -> bool {
        true
    }

    open spec fn try_from_spec(value: &'a String) -> Result<Self, &'static str> {
        match label_of_name(value@) {
            Some(t) => Ok(t),
            None => Err("invalid value"),
        }
    }
}

impl TryFrom<String> for CslCitationCitationItemsItemLabel {
    type Error = &'static str;

    fn try_from(value: String) -> (r: Result<Self, &'static str>)
        ensures
            r matches Ok(t) ==> label_of_name(value@) == Some(t),
            r matches Err(m) ==> label_of_name(value@) is None && m == "invalid value",
    {
        CslCitationCitationItemsItemLabel::from_str(value.as_str())
    }
}

impl TryFromSpecImpl<String> for CslCitationCitationItemsItemLabel {
    open spec fn obeys_try_from_spec() -> bool {
        true
    }

    open spec fn try_from_spec(value: String) -> Result<Self, &'static str> {
        match label_of_name(value@) {
            Some(t) => Ok(t),
            None => Err("invalid value"),
        }
    }
}

/// The CSL citation schema.
#[derive(Debug, Clone, Copy, PartialEq, Eq, Hash, Structural)]
pub enum CslCitationSchema {
    /// `https://resource.citationstyles.org/schema/latest/input/json/csl-citation.json`
    HttpsResourceCitationstylesOrgSchemaLatestInputJsonCslCitationJson,
}

/// The name of each variant.
pub open spec fn schema_name(t: CslCitationSchema) -> Seq<char> {
    match t {
        CslCitationSchema::HttpsResourceCitationstylesOrgSchemaLatestInputJsonCslCitationJson => "https://resource.citationstyles.org/schema/latest/input/json/csl-citation.json"@,
    }
}

/// The variant named `s`: the first in declaration order whose name is `s`.
pub open spec fn schema_of_name(s: Seq<char>) -> Option<CslCitationSchema> {
    if s == "https://resource.citationstyles.org/schema/latest/input/json/csl-citation.json"@ {
        Some(CslCitationSchema::HttpsResourceCitationstylesOrgSchemaLatestInputJsonCslCitationJson)
    } else {
        None
    }
}

impl CslCitationSchema {
    /// The name of the variant.
    pub fn as_str(&self) -> (r: &'static str)
        ensures
            r@ == schema_name(*self),
    {
        match self {
            CslCitationSchema::HttpsResourceCitationstylesOrgSchemaLatestInputJsonCslCitationJson => "https://resource.citationstyles.org/schema/latest/input/json/csl-citation.json",
        }
    }

    /// The name of the variant as a string.
    pub fn to_string(&self) -> (r: String)
        ensures
            r@ == schema_name(*self),
    {
        self.as_str().to_owned()
    }

    /// The variant named `value`; `"invalid value"` if no variant has this name.
    pub fn from_str(value: &str) -> (r: Result<Self, &'static str>)
        ensures
            r matches Ok(t) ==> schema_of_name(value@) == Some(t),
            r matches Err(m) ==> schema_of_name(value@) is None && m == "invalid value",
    {
        if str_eq(value, "https://resource.citationstyles.org/schema/latest/input/json/csl-citation.json") {
            return Ok(CslCitationSchema::HttpsResourceCitationstylesOrgSchemaLatestInputJsonCslCitationJson);
        }
        Err("invalid value")
    }
}

impl std::str::FromStr for CslCitationSchema {
    type Err = &'static str;

    fn from_str(value: &str) -> (r: Result<Self, &'static str>)
        ensures
            r matches Ok(t) ==> schema_of_name(value@) == Some(t),
            r matches Err(m) ==> schema_of_name(value@) is None && m == "invalid value",
    {
        CslCitationSchema::from_str(value)
    }
}

impl<'a> TryFrom<&'a str> for CslCitationSchema {
    type Error = &'static str;

    fn try_from(value: &'a str) -> (r: Result<Self, &'static str>)
        ensures
            r matches Ok(t) ==> schema_of_name(value@) == Some(t),
            r matches Err(m) ==> schema_of_name(value@) is None && m == "invalid value",
    {
        CslCitationSchema::from_str(value)
    }
}

impl<'a> TryFromSpecImpl<&'a str> for CslCitationSchema {
    open spec fn obeys_try_from_spec() -> bool {
        true
    }

    open spec fn try_from_spec(value: &'a str) -> Result<Self, &'static str> {
        match schema_of_name(value@) {
            Some(t) => Ok(t),
            None => Err("invalid value"),
        }
    }
}

impl<'a> TryFrom<&'a String> for CslCitationSchema {
    type Error = &'static str;

    fn try_from(value: &'a String) -> (r: Result<Self, &'static str>)
        ensures
            r matches Ok(t) ==> schema_of_name(value@) == Some(t),
            r matches Err(m) ==> schema_of_name(value@) is None && m == "invalid value",
    {
        CslCitationSchema::from_str(value.as_str())
    }
}

impl<'a> TryFromSpecImpl<&'a String> for CslCitationSchema {
    open spec fn obeys_try_from_spec() -> bool {
        true
    }

    open spec fn try_from_spec(value: &'a String) -> Result<Self, &'static str> {
        match schema_of_name(value@) {
            Some(t) => Ok(t),
            None => Err("invalid value"),
        }
    }
}

impl TryFrom<String> for CslCitationSchema {
    type Error = &'static str;

    fn try_from(value: String) -> (r: Result<Self, &'static str>)
        ensures
            r matches Ok(t) ==> schema_of_name(value@) == Some(t),
            r matches Err(m) ==> schema_of_name(value@) is None && m == "invalid value",
    {
        CslCitationSchema::from_str(value.as_str())
    }
}

impl TryFromSpecImpl<String> for CslCitationSchema {
    open spec fn obeys_try_from_spec() -> bool {
        true
    }

    open spec fn try_from_spec(value: String) -> Result<Self, &'static str> {
        match schema_of_name(value@) {
            Some(t) => Ok(t),
            None => Err("invalid value"),
        }
    }
}

/// Type of a bibliography item.
#[derive(Debug, Clone, Copy, PartialEq, Eq, Hash, Structural)]
pub enum CslItemType {
    /// `article`
    Article,
    /// `article-journal`
    ArticleJournal,
    /// `article-magazine`
    ArticleMagazine,
    /// `article-newspaper`
    ArticleNewspaper,
    /// `bill`
    Bill,
    /// `book`
    Book,
    /// `broadcast`
    Broadcast,
    /// `chapter`
    Chapter,
    /// `classic`
    Classic,
    /// `collection`
    Collection,
    /// `dataset`
    Dataset,
    /// `document`
    Document,
    /// `entry`
    Entry,
    /// `entry-dictionary`
    EntryDictionary,
    /// `entry-encyclopedia`
    EntryEncyclopedia,
    /// `event`
    Event,
    /// `figure`
    Figure,
    /// `graphic`
    Graphic,
    /// `hearing`
    Hearing,
    /// `interview`
    Interview,
    /// `legal_case`
    LegalCase,
    /// `legislation`
    Legislation,
    /// `manuscript`
    Manuscript,
    /// `map`
    MapItem,
    /// `motion_picture`
    MotionPicture,
    /// `musical_score`
    MusicalScore,
    /// `pamphlet`
    Pamphlet,
    /// `paper-conference`
    PaperConference,
    /// `patent`
    Patent,
    /// `performance`
    Performance,
    /// `periodical`
    Periodical,
    /// `personal_communication`
    PersonalCommunication,
    /// `post`
    Post,
    /// `post-weblog`
    PostWeblog,
    /// `regulation`
    Regulation,
    /// `report`
    Report,
    /// `review`
    Review,
    /// `review-book`
    ReviewBook,
    /// `software`
    Software,
    /// `song`
    Song,
    /// `speech`
    Speech,
    /// `standard`
    Standard,
    /// `thesis`
    Thesis,
    /// `treaty`
    Treaty,
    /// `webpage`
    Webpage,
}

/// The name of each variant.
pub open spec fn item_type_name(t: CslItemType) -> Seq<char> {
    match t {
        CslItemType::Article => "article"@,
        CslItemType::ArticleJournal => "article-journal"@,
        CslItemType::ArticleMagazine => "article-magazine"@,
        CslItemType::ArticleNewspaper => "article-newspaper"@,
        CslItemType::Bill => "bill"@,
        CslItemType::Book => "book"@,
        CslItemType::Broadcast => "broadcast"@,
        CslItemType::Chapter => "chapter"@,
        CslItemType::Classic => "classic"@,
        CslItemType::Collection => "collection"@,
        CslItemType::Dataset => "dataset"@,
        CslItemType::Document => "document"@,
        CslItemType::Entry => "entry"@,
        CslItemType::EntryDictionary => "entry-dictionary"@,
        CslItemType::EntryEncyclopedia => "entry-encyclopedia"@,
        CslItemType::Event => "event"@,
        CslItemType::Figure => "figure"@,
        CslItemType::Graphic => "graphic"@,
        CslItemType::Hearing => "hearing"@,
        CslItemType::Interview => "interview"@,
        CslItemType::LegalCase => "legal_case"@,
        CslItemType::Legislation => "legislation"@,
        CslItemType::Manuscript => "manuscript"@,
        CslItemType::MapItem => "map"@,
        CslItemType::MotionPicture => "motion_picture"@,
        CslItemType::MusicalScore => "musical_score"@,
        CslItemType::Pamphlet => "pamphlet"@,
        CslItemType::PaperConference => "paper-conference"@,
        CslItemType::Patent => "patent"@,
        CslItemType::Performance => "performance"@,
        CslItemType::Periodical => "periodical"@,
        CslItemType::PersonalCommunication => "personal_communication"@,
        CslItemType::Post => "post"@,
        CslItemType::PostWeblog => "post-weblog"@,
        CslItemType::Regulation => "regulation"@,
        CslItemType::Report => "report"@,
        CslItemType::Review => "review"@,
        CslItemType::ReviewBook => "review-book"@,
        CslItemType::Software => "software"@,
        CslItemType::Song => "song"@,
        CslItemType::Speech => "speech"@,
        CslItemType::Standard => "standard"@,
        CslItemType::Thesis => "thesis"@,
        CslItemType::Treaty => "treaty"@,
        CslItemType::Webpage => "webpage"@,
    }
}

/// The variant named `s`: the first in declaration order whose name is `s`.
pub open spec fn item_type_of_name(s: Seq<char>) -> Option<CslItemType> {
    if s == "article"@ {
        Some(CslItemType::Article)
    } else if s == "article-journal"@ {
        Some(CslItemType::ArticleJournal)
    } else if s == "article-magazine"@ {
        Some(CslItemType::ArticleMagazine)
    } else if s == "article-newspaper"@ {
        Some(CslItemType::ArticleNewspaper)
    } else if s == "bill"@ {
        Some(CslItemType::Bill)
    } else if s == "book"@ {
        Some(CslItemType::Book)
    } else if s == "broadcast"@ {
        Some(CslItemType::Broadcast)
    } else if s == "chapter"@ {
        Some(CslItemType::Chapter)
    } else if s == "classic"@ {
        Some(CslItemType::Classic)
    } else if s == "collection"@ {
        Some(CslItemType::Collection)
    } else if s == "dataset"@ {
        Some(CslItemType::Dataset)
    } else if s == "document"@ {
        Some(CslItemType::Document)
    } else if s == "entry"@ {
        Some(CslItemType::Entry)
    } else if s == "entry-dictionary"@ {
        Some(CslItemType::EntryDictionary)
    } else if s == "entry-encyclopedia"@ {
        Some(CslItemType::EntryEncyclopedia)
    } else if s == "event"@ {
        Some(CslItemType::Event)
    } else if s == "figure"@ {
        Some(CslItemType::Figure)
    } else if s == "graphic"@ {
        Some(CslItemType::Graphic)
    } else if s == "hearing"@ {
        Some(CslItemType::Hearing)
    } else if s == "interview"@ {
        Some(CslItemType::Interview)
    } else if s == "legal_case"@ {
        Some(CslItemType::LegalCase)
    } else if s == "legislation"@ {
        Some(CslItemType::Legislation)
    } else if s == "manuscript"@ {
        Some(CslItemType::Manuscript)
    } else if s == "map"@ {
        Some(CslItemType::MapItem)
    } else if s == "motion_picture"@ {
        Some(CslItemType::MotionPicture)
    } else if s == "musical_score"@ {
        Some(CslItemType::MusicalScore)
    } else if s == "pamphlet"@ {
        Some(CslItemType::Pamphlet)
    } else if s == "paper-conference"@ {
        Some(CslItemType::PaperConference)
    } else if s == "patent"@ {
        Some(CslItemType::Patent)
    } else if s == "performance"@ {
        Some(CslItemType::Performance)
    } else if s == "periodical"@ {
        Some(CslItemType::Periodical)
    } else if s == "personal_communication"@ {
        Some(CslItemType::PersonalCommunication)
    } else if s == "post"@ {
        Some(CslItemType::Post)
    } else if s == "post-weblog"@ {
        Some(CslItemType::PostWeblog)
    } else if s == "regulation"@ {
        Some(CslItemType::Regulation)
    } else if s == "report"@ {
        Some(CslItemType::Report)
    } else if s == "review"@ {
        Some(CslItemType::Review)
    } else if s == "review-book"@ {
        Some(CslItemType::ReviewBook)
    } else if s == "software"@ {
        Some(CslItemType::Software)
    } else if s == "song"@ {
        Some(CslItemType::Song)
    } else if s == "speech"@ {
        Some(CslItemType::Speech)
    } else if s == "standard"@ {
        Some(CslItemType::Standard)
    } else if s == "thesis"@ {
        Some(CslItemType::Thesis)
    } else if s == "treaty"@ {
        Some(CslItemType::Treaty)
    } else if s == "webpage"@ {
        Some(CslItemType::Webpage)
    } else {
        None
    }
}

impl CslItemType {
    /// The name of the variant.
    pub fn as_str(&self) -> (r: &'static str)
        ensures
            r@ == item_type_name(*self),
    {
        match self {
            CslItemType::Article => "article",
            CslItemType::ArticleJournal => "article-journal",
            CslItemType::ArticleMagazine => "article-magazine",
            CslItemType::ArticleNewspaper => "article-newspaper",
            CslItemType::Bill => "bill",
            CslItemType::Book => "book",
            CslItemType::Broadcast => "broadcast",
            CslItemType::Chapter => "chapter",
            CslItemType::Classic => "classic",
            CslItemType::Collection => "collection",
            CslItemType::Dataset => "dataset",
            CslItemType::Document => "document",
            CslItemType::Entry => "entry",
            CslItemType::EntryDictionary => "entry-dictionary",
            CslItemType::EntryEncyclopedia => "entry-encyclopedia",
            CslItemType::Event => "event",
            CslItemType::Figure => "figure",
            CslItemType::Graphic => "graphic",
            CslItemType::Hearing => "hearing",
            CslItemType::Interview => "interview",
            CslItemType::LegalCase => "legal_case",
            CslItemType::Legislation => "legislation",
            CslItemType::Manuscript => "manuscript",
            CslItemType::MapItem => "map",
            CslItemType::MotionPicture => "motion_picture",
            CslItemType::MusicalScore => "musical_score",
            CslItemType::Pamphlet => "pamphlet",
            CslItemType::PaperConference => "paper-conference",
            CslItemType::Patent => "patent",
            CslItemType::Performance => "performance",
            CslItemType::Periodical => "periodical",
            CslItemType::PersonalCommunication => "personal_communication",
            CslItemType::Post => "post",
            CslItemType::PostWeblog => "post-weblog",
            CslItemType::Regulation => "regulation",
            CslItemType::Report => "report",
            CslItemType::Review => "review",
            CslItemType::ReviewBook => "review-book",
            CslItemType::Software => "software",
            CslItemType::Song => "song",
            CslItemType::Speech => "speech",
            CslItemType::Standard => "standard",
            CslItemType::Thesis => "thesis",
            CslItemType::Treaty => "treaty",
            CslItemType::Webpage => "webpage",
        }
    }

    /// The name of the variant as a string.
    pub fn to_string(&self) -> (r: String)
        ensures
            r@ == item_type_name(*self),
    {
        self.as_str().to_owned()
    }

    /// The variant named `value`; `"invalid value"` if no variant has this name.
    pub fn from_str(value: &str) -> (r: Result<Self, &'static str>)
        ensures
            r matches Ok(t) ==> item_type_of_name(value@) == Some(t),
            r matches Err(m) ==> item_type_of_name(value@) is None && m == "invalid value",
    {
        if str_eq(value, "article") {
            return Ok(CslItemType::Article);
        }
        if str_eq(value, "article-journal") {
            return Ok(CslItemType::ArticleJournal);
        }
        if str_eq(value, "article-magazine") {
            return Ok(CslItemType::ArticleMagazine);
        }
        if str_eq(value, "article-newspaper") {
            return Ok(CslItemType::ArticleNewspaper);
        }
        if str_eq(value, "bill") {
            return Ok(CslItemType::Bill);
        }
        if str_eq(value, "book") {
            return Ok(CslItemType::Book);
        }
        if str_eq(value, "broadcast") {
            return Ok(CslItemType::Broadcast);
        }
        if str_eq(value, "chapter") {
            return Ok(CslItemType::Chapter);
        }
        if str_eq(value, "classic") {
            return Ok(CslItemType::Classic);
        }
        if str_eq(value, "collection") {
            return Ok(CslItemType::Collection);
        }
        if str_eq(value, "dataset") {
            return Ok(CslItemType::Dataset);
        }
        if str_eq(value, "document") {
            return Ok(CslItemType::Document);
        }
        if str_eq(value, "entry") {
            return Ok(CslItemType::Entry);
        }
        if str_eq(value, "entry-dictionary") {
            return Ok(CslItemType::EntryDictionary);
        }
        if str_eq(value, "entry-encyclopedia") {
            return Ok(CslItemType::EntryEncyclopedia);
        }
        if str_eq(value, "event") {
            return Ok(CslItemType::Event);
        }
        if str_eq(value, "figure") {
            return Ok(CslItemType::Figure);
        }
        if str_eq(value, "graphic") {
            return Ok(CslItemType::Graphic);
        }
        if str_eq(value, "hearing") {
            return Ok(CslItemType::Hearing);
        }
        if str_eq(value, "interview") {
            return Ok(CslItemType::Interview);
        }
        if str_eq(value, "legal_case") {
            return Ok(CslItemType::LegalCase);
        }
        if str_eq(value, "legislation") {
            return Ok(CslItemType::Legislation);
        }
        if str_eq(value, "manuscript") {
            return Ok(CslItemType::Manuscript);
        }
        if str_eq(value, "map") {
            return Ok(CslItemType::MapItem);
        }
        if str_eq(value, "motion_picture") {
            return Ok(CslItemType::MotionPicture);
        }
        if str_eq(value, "musical_score") {
            return Ok(CslItemType::MusicalScore);
        }
        if str_eq(value, "pamphlet") {
            return Ok(CslItemType::Pamphlet);
        }
        if str_eq(value, "paper-conference") {
            return Ok(CslItemType::PaperConference);
        }
        if str_eq(value, "patent") {
            return Ok(CslItemType::Patent);
        }
        if str_eq(value, "performance") {
            return Ok(CslItemType::Performance);
        }
        if str_eq(value, "periodical") {
            return Ok(CslItemType::Periodical);
        }
        if str_eq(value, "personal_communication") {
            return Ok(CslItemType::PersonalCommunication);
        }
        if str_eq(value, "post") {
            return Ok(CslItemType::Post);
        }
        if str_eq(value, "post-weblog") {
            return Ok(CslItemType::PostWeblog);
        }
        if str_eq(value, "regulation") {
            return Ok(CslItemType::Regulation);
        }
        if str_eq(value, "report") {
            return Ok(CslItemType::Report);
        }
        if str_eq(value, "review") {
            return Ok(CslItemType::Review);
        }
        if str_eq(value, "review-book") {
            return Ok(CslItemType::ReviewBook);
        }
        if str_eq(value, "software") {
            return Ok(CslItemType::Software);
        }
        if str_eq(value, "song") {
            return Ok(CslItemType::Song);
        }
        if str_eq(value, "speech") {
            return Ok(CslItemType::Speech);
        }
        if str_eq(value, "standard") {
            return Ok(CslItemType::Standard);
        }
        if str_eq(value, "thesis") {
            return Ok(CslItemType::Thesis);
        }
        if str_eq(value, "treaty") {
            return Ok(CslItemType::Treaty);
        }
        if str_eq(value, "webpage") {
            return Ok(CslItemType::Webpage);
        }
        Err("invalid value")
    }
}

impl std::str::FromStr for CslItemType {
    type Err = &'static str;

    fn from_str(value: &str) -> (r: Result<Self, &'static str>)
        ensures
            r matches Ok(t) ==> item_type_of_name(value@) == Some(t),
            r matches Err(m) ==> item_type_of_name(value@) is None && m == "invalid value",
    {
        CslItemType::from_str(value)
    }
}

impl<'a> TryFrom<&'a str> for CslItemType {
    type Error = &'static str;

    fn try_from(value: &'a str) -> (r: Result<Self, &'static str>)
        ensures
            r matches Ok(t) ==> item_type_of_name(value@) == Some(t),
            r matches Err(m) ==> item_type_of_name(value@) is None && m == "invalid value",
    {
        CslItemType::from_str(value)
    }
}

impl<'a> TryFromSpecImpl<&'a str> for CslItemType {
    open spec fn obeys_try_from_spec() -> bool {
        true
    }

    open spec fn try_from_spec(value: &'a str) -> Result<Self, &'static str> {
        match item_type_of_name(value@) {
            Some(t) => Ok(t),
            None => Err("invalid value"),
        }
    }
}

impl<'a> TryFrom<&'a String> for CslItemType {
    type Error = &'static str;

    fn try_from(value: &'a String) -> (r: Result<Self, &'static str>)
        ensures
            r matches Ok(t) ==> item_type_of_name(value@) == Some(t),
            r matches Err(m) ==> item_type_of_name(value@) is None && m == "invalid value",
    {
        CslItemType::from_str(value.as_str())
    }
}

impl<'a> TryFromSpecImpl<&'a String> for CslItemType {
    open spec fn obeys_try_from_spec() -> bool {
        true
    }

    open spec fn try_from_spec(value: &'a String) -> Result<Self, &'static str> {
        match item_type_of_name(value@) {
            Some(t) => Ok(t),
            None => Err("invalid value"),
        }
    }
}

impl TryFrom<String> for CslItemType {
    type Error = &'static str;

    fn try_from(value: String) -> (r: Result<Self, &'static str>)
        ensures
            r matches Ok(t) ==> item_type_of_name(value@) == Some(t),
            r matches Err(m) ==> item_type_of_name(value@) is None && m == "invalid value",
    {
        CslItemType::from_str(value.as_str())
    }
}

impl TryFromSpecImpl<String> for CslItemType {
    open spec fn obeys_try_from_spec() -> bool {
        true
    }

    open spec fn try_from_spec(value: String) -> Result<Self, &'static str> {
        match item_type_of_name(value@) {
            Some(t) => Ok(t),
            None => Err("invalid value"),
        }
    }
}





/// Reading the name of a label gives back the label.
pub proof fn lemma_label_name_round_trip(t: CslCitationCitationItemsItemLabel)
    ensures
        label_of_name(label_name(t)) == Some(t),
{
    reveal_strlit("act");
    reveal_strlit("appendix");
    reveal_strlit("article-locator");
    reveal_strlit("book");
    reveal_strlit("canon");
    reveal_strlit("chapter");
    reveal_strlit("column");
    reveal_strlit("elocation");
    reveal_strlit("equation");
    reveal_strlit("figure");
    reveal_strlit("folio");
    reveal_strlit("issue");
    reveal_strlit("line");
    reveal_strlit("note");
    reveal_strlit("opus");
    reveal_strlit("page");
    reveal_strlit("paragraph");
    reveal_strlit("part");
    reveal_strlit("rule");
    reveal_strlit("scene");
    reveal_strlit("section");
    reveal_strlit("sub-verbo");
    reveal_strlit("supplement");
    reveal_strlit("table");
    reveal_strlit("timestamp");
    reveal_strlit("title-locator");
    reveal_strlit("verse");
    reveal_strlit("version");
    reveal_strlit("volume");
    match t {
        CslCitationCitationItemsItemLabel::Act => {
            assert(label_name(t).len() == 3);
        },
        CslCitationCitationItemsItemLabel::Appendix => {
            assert(label_name(t).len() == 8);
        },
        CslCitationCitationItemsItemLabel::ArticleLocator => {
            assert(label_name(t).len() == 15);
        },
        CslCitationCitationItemsItemLabel::Book => {
            assert(label_name(t).len() == 4);
        },
        CslCitationCitationItemsItemLabel::Canon => {
            assert(label_name(t).len() == 5);
        },
        CslCitationCitationItemsItemLabel::Chapter => {
            assert(label_name(t).len() == 7);
        },
        CslCitationCitationItemsItemLabel::Column => {
            assert(label_name(t).len() == 6);
        },
        CslCitationCitationItemsItemLabel::Elocation => {
            assert(label_name(t).len() == 9);
        },
        CslCitationCitationItemsItemLabel::Equation => {
            assert(label_name(t).len() == 8);
            assert("appendix"@[0] != "equation"@[0]);
        },
        CslCitationCitationItemsItemLabel::Figure => {
            assert(label_name(t).len() == 6);
            assert("column"@[0] != "figure"@[0]);
        },
        CslCitationCitationItemsItemLabel::Folio => {
            assert(label_name(t).len() == 5);
            assert("canon"@[0] != "folio"@[0]);
        },
        CslCitationCitationItemsItemLabel::Issue => {
            assert(label_name(t).len() == 5);
            assert("canon"@[0] != "issue"@[0]);
            assert("folio"@[0] != "issue"@[0]);
        },
        CslCitationCitationItemsItemLabel::Line => {
            assert(label_name(t).len() == 4);
            assert("book"@[0] != "line"@[0]);
        },
        CslCitationCitationItemsItemLabel::Note => {
            assert(label_name(t).len() == 4);
            assert("book"@[0] != "note"@[0]);
            assert("line"@[0] != "note"@[0]);
        },
        CslCitationCitationItemsItemLabel::Opus => {
            assert(label_name(t).len() == 4);
            assert("book"@[0] != "opus"@[0]);
            assert("line"@[0] != "opus"@[0]);
            assert("note"@[0] != "opus"@[0]);
        },
        CslCitationCitationItemsItemLabel::Page => {
            assert(label_name(t).len() == 4);
            assert("book"@[0] != "page"@[0]);
            assert("line"@[0] != "page"@[0]);
            assert("note"@[0] != "page"@[0]);
            assert("opus"@[0] != "page"@[0]);
        },
        CslCitationCitationItemsItemLabel::Paragraph => {
            assert(label_name(t).len() == 9);
            assert("elocation"@[0] != "paragraph"@[0]);
        },
        CslCitationCitationItemsItemLabel::Part => {
            assert(label_name(t).len() == 4);
            assert("book"@[0] != "part"@[0]);
            assert("line"@[0] != "part"@[0]);
            assert("note"@[0] != "part"@[0]);
            assert("opus"@[0] != "part"@[0]);
            assert("page"@[2] != "part"@[2]);
        },
        CslCitationCitationItemsItemLabel::Rule => {
            assert(label_name(t).len() == 4);
            assert("book"@[0] != "rule"@[0]);
            assert("line"@[0] != "rule"@[0]);
            assert("note"@[0] != "rule"@[0]);
            assert("opus"@[0] != "rule"@[0]);
            assert("page"@[0] != "rule"@[0]);
            assert("part"@[0] != "rule"@[0]);
        },
        CslCitationCitationItemsItemLabel::Scene => {
            assert(label_name(t).len() == 5);
            assert("canon"@[0] != "scene"@[0]);
            assert("folio"@[0] != "scene"@[0]);
            assert("issue"@[0] != "scene"@[0]);
        },
        CslCitationCitationItemsItemLabel::Section => {
            assert(label_name(t).len() == 7);
            assert("chapter"@[0] != "section"@[0]);
        },
        CslCitationCitationItemsItemLabel::SubVerbo => {
            assert(label_name(t).len() == 9);
            assert("elocation"@[0] != "sub-verbo"@[0]);
            assert("paragraph"@[0] != "sub-verbo"@[0]);
        },
        CslCitationCitationItemsItemLabel::Supplement => {
            assert(label_name(t).len() == 10);
        },
        CslCitationCitationItemsItemLabel::Table => {
            assert(label_name(t).len() == 5);
            assert("canon"@[0] != "table"@[0]);
            assert("folio"@[0] != "table"@[0]);
            assert("issue"@[0] != "table"@[0]);
            assert("scene"@[0] != "table"@[0]);
        },
        CslCitationCitationItemsItemLabel::Timestamp => {
            assert(label_name(t).len() == 9);
            assert("elocation"@[0] != "timestamp"@[0]);
            assert("paragraph"@[0] != "timestamp"@[0]);
            assert("sub-verbo"@[0] != "timestamp"@[0]);
        },
        CslCitationCitationItemsItemLabel::TitleLocator => {
            assert(label_name(t).len() == 13);
        },
        CslCitationCitationItemsItemLabel::Verse => {
            assert(label_name(t).len() == 5);
            assert("canon"@[0] != "verse"@[0]);
            assert("folio"@[0] != "verse"@[0]);
            assert("issue"@[0] != "verse"@[0]);
            assert("scene"@[0] != "verse"@[0]);
            assert("table"@[0] != "verse"@[0]);
        },
        CslCitationCitationItemsItemLabel::Version => {
            assert(label_name(t).len() == 7);
            assert("chapter"@[0] != "version"@[0]);
            assert("section"@[0] != "version"@[0]);
        },
        CslCitationCitationItemsItemLabel::Volume => {
            assert(label_name(t).len() == 6);
            assert("column"@[0] != "volume"@[0]);
            assert("figure"@[0] != "volume"@[0]);
        },
    }
}

/// Reading the name of the schema gives back the schema.
pub proof fn lemma_schema_name_round_trip(t: CslCitationSchema)
    ensures
        schema_of_name(schema_name(t)) == Some(t),
{
    reveal_strlit("https://resource.citationstyles.org/schema/latest/input/json/csl-citation.json");
}

/// Reading the name of an item type gives back the item type.
pub proof fn lemma_item_type_name_round_trip(t: CslItemType)
    ensures
        item_type_of_name(item_type_name(t)) == Some(t),
{
    reveal_strlit("article");
    reveal_strlit("article-journal");
    reveal_strlit("article-magazine");
    reveal_strlit("article-newspaper");
    reveal_strlit("bill");
    reveal_strlit("book");
    reveal_strlit("broadcast");
    reveal_strlit("chapter");
    reveal_strlit("classic");
    reveal_strlit("collection");
    reveal_strlit("dataset");
    reveal_strlit("document");
    reveal_strlit("entry");
    reveal_strlit("entry-dictionary");
    reveal_strlit("entry-encyclopedia");
    reveal_strlit("event");
    reveal_strlit("figure");
    reveal_strlit("graphic");
    reveal_strlit("hearing");
    reveal_strlit("interview");
    reveal_strlit("legal_case");
    reveal_strlit("legislation");
    reveal_strlit("manuscript");
    reveal_strlit("map");
    reveal_strlit("motion_picture");
    reveal_strlit("musical_score");
    reveal_strlit("pamphlet");
    reveal_strlit("paper-conference");
    reveal_strlit("patent");
    reveal_strlit("performance");
    reveal_strlit("periodical");
    reveal_strlit("personal_communication");
    reveal_strlit("post");
    reveal_strlit("post-weblog");
    reveal_strlit("regulation");
    reveal_strlit("report");
    reveal_strlit("review");
    reveal_strlit("review-book");
    reveal_strlit("software");
    reveal_strlit("song");
    reveal_strlit("speech");
    reveal_strlit("standard");
    reveal_strlit("thesis");
    reveal_strlit("treaty");
    reveal_strlit("webpage");
    match t {
        CslItemType::Article => {
            assert(item_type_name(t).len() == 7);
        },
        CslItemType::ArticleJournal => {
            assert(item_type_name(t).len() == 15);
        },
        CslItemType::ArticleMagazine => {
            assert(item_type_name(t).len() == 16);
        },
        CslItemType::ArticleNewspaper => {
            assert(item_type_name(t).len() == 17);
        },
        CslItemType::Bill => {
            assert(item_type_name(t).len() == 4);
        },
        CslItemType::Book => {
            assert(item_type_name(t).len() == 4);
            assert("bill"@[1] != "book"@[1]);
        },
        CslItemType::Broadcast => {
            assert(item_type_name(t).len() == 9);
        },
        CslItemType::Chapter => {
            assert(item_type_name(t).len() == 7);
            assert("article"@[0] != "chapter"@[0]);
        },
        CslItemType::Classic => {
            assert(item_type_name(t).len() == 7);
            assert("article"@[0] != "classic"@[0]);
            assert("chapter"@[1] != "classic"@[1]);
        },
        CslItemType::Collection => {
            assert(item_type_name(t).len() == 10);
        },
        CslItemType::Dataset => {
            assert(item_type_name(t).len() == 7);
            assert("article"@[0] != "dataset"@[0]);
            assert("chapter"@[0] != "dataset"@[0]);
            assert("classic"@[0] != "dataset"@[0]);
        },
        CslItemType::Document => {
            assert(item_type_name(t).len() == 8);
        },
        CslItemType::Entry => {
            assert(item_type_name(t).len() == 5);
        },
        CslItemType::EntryDictionary => {
            assert(item_type_name(t).len() == 16);
            assert("article-magazine"@[0] != "entry-dictionary"@[0]);
        },
        CslItemType::EntryEncyclopedia => {
            assert(item_type_name(t).len() == 18);
        },
        CslItemType::Event => {
            assert(item_type_name(t).len() == 5);
            assert("entry"@[1] != "event"@[1]);
        },
        CslItemType::Figure => {
            assert(item_type_name(t).len() == 6);
        },
        CslItemType::Graphic => {
            assert(item_type_name(t).len() == 7);
            assert("article"@[0] != "graphic"@[0]);
            assert("chapter"@[0] != "graphic"@[0]);
            assert("classic"@[0] != "graphic"@[0]);
            assert("dataset"@[0] != "graphic"@[0]);
        },
        CslItemType::Hearing => {
            assert(item_type_name(t).len() == 7);
            assert("article"@[0] != "hearing"@[0]);
            assert("chapter"@[0] != "hearing"@[0]);
            assert("classic"@[0] != "hearing"@[0]);
            assert("dataset"@[0] != "hearing"@[0]);
            assert("graphic"@[0] != "hearing"@[0]);
        },
        CslItemType::Interview => {
            assert(item_type_name(t).len() == 9);
            assert("broadcast"@[0] != "interview"@[0]);
        },
        CslItemType::LegalCase => {
            assert(item_type_name(t).len() == 10);
            assert("collection"@[0] != "legal_case"@[0]);
        },
        CslItemType::Legislation => {
            assert(item_type_name(t).len() == 11);
        },
        CslItemType::Manuscript => {
            assert(item_type_name(t).len() == 10);
            assert("collection"@[0] != "manuscript"@[0]);
            assert("legal_case"@[0] != "manuscript"@[0]);
        },
        CslItemType::MapItem => {
            assert(item_type_name(t).len() == 3);
        },
        CslItemType::MotionPicture => {
            assert(item_type_name(t).len() == 14);
        },
        CslItemType::MusicalScore => {
            assert(item_type_name(t).len() == 13);
        },
        CslItemType::Pamphlet => {
            assert(item_type_name(t).len() == 8);
            assert("document"@[0] != "pamphlet"@[0]);
        },
        CslItemType::PaperConference => {
            assert(item_type_name(t).len() == 16);
            assert("article-magazine"@[0] != "paper-conference"@[0]);
            assert("entry-dictionary"@[0] != "paper-conference"@[0]);
        },
        CslItemType::Patent => {
            assert(item_type_name(t).len() == 6);
            assert("figure"@[0] != "patent"@[0]);
        },
        CslItemType::Performance => {
            assert(item_type_name(t).len() == 11);
            assert("legislation"@[0] != "performance"@[0]);
        },
        CslItemType::Periodical => {
            assert(item_type_name(t).len() == 10);
            assert("collection"@[0] != "periodical"@[0]);
            assert("legal_case"@[0] != "periodical"@[0]);
            assert("manuscript"@[0] != "periodical"@[0]);
        },
        CslItemType::PersonalCommunication => {
            assert(item_type_name(t).len() == 22);
        },
        CslItemType::Post => {
            assert(item_type_name(t).len() == 4);
            assert("bill"@[0] != "post"@[0]);
            assert("book"@[0] != "post"@[0]);
        },
        CslItemType::PostWeblog => {
            assert(item_type_name(t).len() == 11);
            assert("legislation"@[0] != "post-weblog"@[0]);
            assert("performance"@[1] != "post-weblog"@[1]);
        },
        CslItemType::Regulation => {
            assert(item_type_name(t).len() == 10);
            assert("collection"@[0] != "regulation"@[0]);
            assert("legal_case"@[0] != "regulation"@[0]);
            assert("manuscript"@[0] != "regulation"@[0]);
            assert("periodical"@[0] != "regulation"@[0]);
        },
        CslItemType::Report => {
            assert(item_type_name(t).len() == 6);
            assert("figure"@[0] != "report"@[0]);
            assert("patent"@[0] != "report"@[0]);
        },
        CslItemType::Review => {
            assert(item_type_name(t).len() == 6);
            assert("figure"@[0] != "review"@[0]);
            assert("patent"@[0] != "review"@[0]);
            assert("report"@[2] != "review"@[2]);
        },
        CslItemType::ReviewBook => {
            assert(item_type_name(t).len() == 11);
            assert("legislation"@[0] != "review-book"@[0]);
            assert("performance"@[0] != "review-book"@[0]);
            assert("post-weblog"@[0] != "review-book"@[0]);
        },
        CslItemType::Software => {
            assert(item_type_name(t).len() == 8);
            assert("document"@[0] != "software"@[0]);
            assert("pamphlet"@[0] != "software"@[0]);
        },
        CslItemType::Song => {
            assert(item_type_name(t).len() == 4);
            assert("bill"@[0] != "song"@[0]);
            assert("book"@[0] != "song"@[0]);
            assert("post"@[0] != "song"@[0]);
        },
        CslItemType::Speech => {
            assert(item_type_name(t).len() == 6);
            assert("figure"@[0] != "speech"@[0]);
            assert("patent"@[0] != "speech"@[0]);
            assert("report"@[0] != "speech"@[0]);
            assert("review"@[0] != "speech"@[0]);
        },
        CslItemType::Standard => {
            assert(item_type_name(t).len() == 8);
            assert("document"@[0] != "standard"@[0]);
            assert("pamphlet"@[0] != "standard"@[0]);
            assert("software"@[1] != "standard"@[1]);
        },
        CslItemType::Thesis => {
            assert(item_type_name(t).len() == 6);
            assert("figure"@[0] != "thesis"@[0]);
            assert("patent"@[0] != "thesis"@[0]);
            assert("report"@[0] != "thesis"@[0]);
            assert("review"@[0] != "thesis"@[0]);
            assert("speech"@[0] != "thesis"@[0]);
        },
        CslItemType::Treaty => {
            assert(item_type_name(t).len() == 6);
            assert("figure"@[0] != "treaty"@[0]);
            assert("patent"@[0] != "treaty"@[0]);
            assert("report"@[0] != "treaty"@[0]);
            assert("review"@[0] != "treaty"@[0]);
            assert("speech"@[0] != "treaty"@[0]);
            assert("thesis"@[1] != "treaty"@[1]);
        },
        CslItemType::Webpage => {
            assert(item_type_name(t).len() == 7);
            assert("article"@[0] != "webpage"@[0]);
            assert("chapter"@[0] != "webpage"@[0]);
            assert("classic"@[0] != "webpage"@[0]);
            assert("dataset"@[0] != "webpage"@[0]);
            assert("graphic"@[0] != "webpage"@[0]);
            assert("hearing"@[0] != "webpage"@[0]);
        },
    }
}

} // verus!
