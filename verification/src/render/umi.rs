//! Rows of the Unimarkup interchange format (UMI): one row per element, and the blocks that
//! rows are read back into.
use crate::parser::bullet_list::{keyword_str, BulletListEntryKeyword};
use crate::parser::heading::{level_of_str, HeadingLevel};
use crate::render::log_id::{UmiParserError, UmiParserErrorV};
use crate::text::str_eq;
use std::collections::HashMap;
use vstd::prelude::*;
use vstd::string::StringExecFns;

verus! {

/// One row of a UMI table.
#[derive(Debug, Default, Clone)]
pub struct UmiRow {
    position: u8,
    id: String,
    kind: String,
    properties: String,
    depth: u8,
    content: String,
    attributes: String,
}

/// The value of a [`UmiRow`].
pub struct UmiRowV {
    pub position: u8,
    pub id: Seq<char>,
    pub kind: Seq<char>,
    pub properties: Seq<char>,
    pub depth: u8,
    pub content: Seq<char>,
    pub attributes: Seq<char>,
}

impl View for UmiRow {
    type V = UmiRowV;

    closed spec fn view(&self) -> UmiRowV {
        UmiRowV {
            position: self.position,
            id: self.id@,
            kind: self.kind@,
            properties: self.properties@,
            depth: self.depth,
            content: self.content@,
            attributes: self.attributes@,
        }
    }
}

impl UmiRow {
    /// A row holding exactly the given values.
    pub fn new(
        position: u8,
        id: String,
        kind: String,
        properties: String,
        depth: u8,
        content: String,
        attributes: String,
    ) -> (r: Self)
        ensures
            r@ == (UmiRowV {
                position,
                id: id@,
                kind: kind@,
                properties: properties@,
                depth,
                content: content@,
                attributes: attributes@,
            }),
    {
        UmiRow { position, id, kind, properties, depth, content, attributes }
    }
}

/// What `serde_json::from_str` reads from a text as a JSON object whose values are all strings:
/// the map from its keys to its values, or `None` where the text is no such object.
pub uninterp spec fn json_string_object(text: Seq<char>) -> Option<Map<Seq<char>, Seq<char>>>;

/// The map that key-value pairs make.
pub open spec fn pairs_map(s: Seq<(String, String)>) -> Map<Seq<char>, Seq<char>>
    decreases s.len(),
{
    if s.len() == 0 {
        Map::empty()
    } else {
        pairs_map(s.drop_last()).insert(s.last().0@, s.last().1@)
    }
}

/// No key occurs twice among the pairs.
pub open spec fn keys_distinct(s: Seq<(String, String)>) -> bool {
    forall|i: int, j: int| 0 <= i < j < s.len() ==> #[trigger] s[i].0@ != #[trigger] s[j].0@
}

/// Calls `serde_json::from_str` for a map from strings to strings, and hands out its pairs.
/// Trusted: the pairs make the map that `json_string_object` names, each key once; `None` where
/// there is no such map. The order of the pairs is that of the hash map and is not stated.
#[verifier::external_body]
fn parse_string_object(text: &str) -> (r: Option<Vec<(String, String)>>)
    ensures
        match r {
            Some(pairs) => json_string_object(text@) == Some(pairs_map(pairs@)) && keys_distinct(pairs@),
            None => json_string_object(text@) is None,
        },
{
    match serde_json::from_str::<HashMap<String, String>>(text) {
        Ok(map) => Some(map.into_iter().collect()),
        Err(_) => None,
    }
}

proof fn lemma_pairs_map(s: Seq<(String, String)>, key: Seq<char>)
    requires
        keys_distinct(s),
    ensures
        pairs_map(s).contains_key(key) <==> exists|i: int| 0 <= i < s.len() && #[trigger] s[i].0@ == key,
        forall|i: int| 0 <= i < s.len() && #[trigger] s[i].0@ == key ==> pairs_map(s)[key] == s[i].1@,
    decreases s.len(),
{
    if s.len() > 0 {
        let t = s.drop_last();
        assert forall|i: int, j: int| 0 <= i < j < t.len() implies #[trigger] t[i].0@ != #[trigger] t[j].0@ by {
            assert(t[i] == s[i] && t[j] == s[j]);
        }
        lemma_pairs_map(t, key);
        if s.last().0@ == key {
            assert(s[s.len() - 1].0@ == key);
            assert forall|i: int| 0 <= i < s.len() && #[trigger] s[i].0@ == key implies pairs_map(s)[key] == s[i].1@ by {
                if i < s.len() - 1 {
                    assert(s[i].0@ != s[s.len() - 1].0@);
                }
            }
        } else {
            if pairs_map(s).contains_key(key) {
                let i = choose|i: int| 0 <= i < t.len() && #[trigger] t[i].0@ == key;
                assert(s[i] == t[i]);
            }
            if exists|i: int| 0 <= i < s.len() && #[trigger] s[i].0@ == key {
                let i = choose|i: int| 0 <= i < s.len() && #[trigger] s[i].0@ == key;
                assert(t[i] == s[i]);
            }
            assert forall|i: int| 0 <= i < s.len() && #[trigger] s[i].0@ == key implies pairs_map(s)[key] == s[i].1@ by {
                assert(t[i] == s[i]);
            }
        }
    }
}

/// The value of a key among pairs with distinct keys.
fn lookup<'a>(pairs: &'a Vec<(String, String)>, key: &str) -> (r: Option<&'a String>)
    requires
        keys_distinct(pairs@),
    ensures
        match r {
            Some(v) => pairs_map(pairs@).contains_key(key@) && pairs_map(pairs@)[key@] == v@,
            None => !pairs_map(pairs@).contains_key(key@),
        },
{
    proof {
        lemma_pairs_map(pairs@, key@);
    }
    let mut i: usize = 0;
    while i < pairs.len()
        invariant
            keys_distinct(pairs@),
            i <= pairs@.len(),
            forall|k: int| 0 <= k < i ==> #[trigger] pairs@[k].0@ != key@,
        decreases pairs.len() - i,
    {
        let pair = &pairs[i];
        if str_eq(pair.0.as_str(), key) {
            proof {
                lemma_pairs_map(pairs@, key@);
                assert(pairs@[i as int].0@ == key@);
            }
            return Some(&pair.1);
        }
        i = i + 1;
    }
    None
}

/// The properties of a row: the JSON object of string values that its properties text holds,
/// or no property where it holds none.
pub open spec fn row_properties(row: UmiRowV) -> Map<Seq<char>, Seq<char>> {
    match json_string_object(row.properties) {
        Some(m) => m,
        None => Map::empty(),
    }
}

/// The value of a property of a row, if it has the property.
pub open spec fn property(row: UmiRowV, key: Seq<char>) -> Option<Seq<char>> {
    if row_properties(row).contains_key(key) {
        Some(row_properties(row)[key])
    } else {
        None
    }
}

fn properties_of(row: &UmiRow) -> (r: Vec<(String, String)>)
    ensures
        keys_distinct(r@),
        pairs_map(r@) == row_properties(row@),
{
    match parse_string_object(row.properties.as_str()) {
        Some(pairs) => pairs,
        None => {
            let empty: Vec<(String, String)> = Vec::new();
            assert(pairs_map(empty@) =~= Map::<Seq<char>, Seq<char>>::empty());
            empty
        },
    }
}

/// The value of decimal digits.
pub open spec fn digits_value(s: Seq<char>) -> nat
    decreases s.len(),
{
    if s.len() == 0 {
        0
    } else {
        digits_value(s.drop_last()) * 10 + (s.last() as nat - '0' as nat) as nat
    }
}

/// One or more decimal digits.
pub open spec fn is_digits(s: Seq<char>) -> bool {
    s.len() > 0 && forall|i: int| 0 <= i < s.len() ==> '0' <= #[trigger] s[i] <= '9'
}

/// The `usize` a text reads as: decimal digits after an optional `+`, with a value that fits.
pub open spec fn parsed_usize(s: Seq<char>) -> Option<usize> {
    let digits = if s.len() > 0 && s[0] == '+' {
        s.drop_first()
    } else {
        s
    };
    if is_digits(digits) && digits_value(digits) <= usize::MAX {
        Some(digits_value(digits) as usize)
    } else {
        None
    }
}

proof fn lemma_digits_grow(d: Seq<char>, j: int, k: int)
    requires
        0 <= j <= k <= d.len(),
    ensures
        digits_value(d.take(j)) <= digits_value(d.take(k)),
    decreases k - j,
{
    if j < k {
        lemma_digits_grow(d, j, k - 1);
        assert(d.take(k).drop_last() =~= d.take(k - 1));
    }
}

/// Reads a `usize` as `str::parse::<usize>` does: decimal digits after an optional `+`; `None`
/// where anything else stands in the text or the value does not fit.
fn parse_usize(s: &str) -> (r: Option<usize>)
    ensures
        r == parsed_usize(s@),
{
    let n = s.unicode_len();
    let mut i: usize = 0;
    if n > 0 && s.get_char(0) == '+' {
        i = 1;
    }
    let ghost d = s@.skip(i as int);
    proof {
        if i == 1 {
            assert(d =~= s@.drop_first());
        } else {
            assert(d =~= s@);
        }
    }
    if i >= n {
        return None;
    }
    let mut v: usize = 0;
    let mut k: usize = i;
    proof {
        assert(d.take(0) =~= Seq::<char>::empty());
    }
    while k < n
        invariant
            n == s@.len(),
            d == s@.skip(i as int),
            d == (if s@.len() > 0 && s@[0] == '+' {
                s@.drop_first()
            } else {
                s@
            }),
            i < n,
            i <= k <= n,
            forall|m: int| 0 <= m < k - i ==> '0' <= #[trigger] d[m] <= '9',
            v == digits_value(d.take(k - i)),
        decreases n - k,
    {
        let c = s.get_char(k);
        assert(d[k - i] == c);
        if c < '0' || c > '9' {
            assert(!is_digits(d));
            return None;
        }
        let digit = (c as u32 - '0' as u32) as usize;
        proof {
            assert(d.take(k - i + 1).drop_last() =~= d.take(k - i));
            assert(d.take(k - i + 1).last() == c);
            assert(digits_value(d.take(k - i + 1)) == v * 10 + digit);
        }
        let next = match v.checked_mul(10) {
            Some(x) => x.checked_add(digit),
            None => None,
        };
        match next {
            Some(y) => {
                v = y;
            },
            None => {
                proof {
                    lemma_digits_grow(d, k - i + 1, d.len() as int);
                    assert(d.take(d.len() as int) =~= d);
                }
                return None;
            },
        }
        k = k + 1;
    }
    proof {
        assert(d.take(k - i) =~= d);
    }
    Some(v)
}

/// A block read back from UMI rows. Inline content stays the Unimarkup text of the row.
#[derive(Debug)]
pub enum UmiBlock {
    /// A heading with its id, level, content and attributes.
    Heading { id: String, level: HeadingLevel, content: String, attributes: Option<String> },
    /// A paragraph with its content.
    Paragraph { content: String },
    /// A verbatim block.
    VerbatimBlock {
        content: String,
        data_lang: Option<String>,
        attributes: Option<String>,
        implicit_closed: bool,
        tick_len: usize,
    },
    /// A bullet list with its entries.
    BulletList { entries: Vec<UmiBlock> },
    /// A bullet list entry with its keyword, heading and body.
    BulletListEntry { keyword: BulletListEntryKeyword, heading: String, body: Vec<UmiBlock> },
}

/// The value of a [`UmiBlock`].
pub enum UmiBlockV {
    Heading { id: Seq<char>, level: HeadingLevel, content: Seq<char>, attributes: Option<Seq<char>> },
    Paragraph { content: Seq<char> },
    VerbatimBlock {
        content: Seq<char>,
        data_lang: Option<Seq<char>>,
        attributes: Option<Seq<char>>,
        implicit_closed: bool,
        tick_len: usize,
    },
    BulletList { entries: Seq<UmiBlockV> },
    BulletListEntry { keyword: BulletListEntryKeyword, heading: Seq<char>, body: Seq<UmiBlockV> },
}

/// The value of an optional string.
pub open spec fn opt_view(o: Option<String>) -> Option<Seq<char>> {
    match o {
        Some(s) => Some(s@),
        None => None,
    }
}

/// Whether a block has the given value.
pub open spec fn block_is(b: UmiBlock, v: UmiBlockV) -> bool
    decreases v,
{
    match v {
        UmiBlockV::Heading { id, level, content, attributes } => match b {
            UmiBlock::Heading { id: bid, level: blevel, content: bcontent, attributes: battributes } => {
                bid@ == id && blevel == level && bcontent@ == content && opt_view(battributes) == attributes
            },
            _ => false,
        },
        UmiBlockV::Paragraph { content } => match b {
            UmiBlock::Paragraph { content: bcontent } => bcontent@ == content,
            _ => false,
        },
        UmiBlockV::VerbatimBlock { content, data_lang, attributes, implicit_closed, tick_len } => match b {
            UmiBlock::VerbatimBlock {
                content: bcontent,
                data_lang: blang,
                attributes: battributes,
                implicit_closed: bclosed,
                tick_len: bticks,
            } => {
                &&& bcontent@ == content
                &&& opt_view(blang) == data_lang
                &&& opt_view(battributes) == attributes
                &&& bclosed == implicit_closed
                &&& bticks == tick_len
            },
            _ => false,
        },
        UmiBlockV::BulletList { entries } => match b {
            UmiBlock::BulletList { entries: bentries } => {
                &&& bentries@.len() == entries.len()
                &&& forall|i: int| 0 <= i < entries.len() ==> block_is(#[trigger] bentries@[i], entries[i])
            },
            _ => false,
        },
        UmiBlockV::BulletListEntry { keyword, heading, body } => match b {
            UmiBlock::BulletListEntry { keyword: bkeyword, heading: bheading, body: bbody } => {
                &&& bkeyword == keyword
                &&& bheading@ == heading
                &&& bbody@.len() == body.len()
                &&& forall|i: int| 0 <= i < body.len() ==> block_is(#[trigger] bbody@[i], body[i])
            },
            _ => false,
        },
    }
}

/// Whether blocks have the given values, one by one.
pub open spec fn blocks_are(bs: Seq<UmiBlock>, vs: Seq<UmiBlockV>) -> bool {
    bs.len() == vs.len() && forall|i: int| 0 <= i < vs.len() ==> block_is(#[trigger] bs[i], vs[i])
}

/// Whether a result of reading has the given value.
pub open spec fn read_is(r: Result<UmiBlock, UmiParserError>, v: Result<UmiBlockV, UmiParserErrorV>) -> bool {
    match (r, v) {
        (Ok(b), Ok(bv)) => block_is(b, bv),
        (Err(e), Err(ev)) => e@ == ev,
        _ => false,
    }
}

/// The values of rows.
pub open spec fn rows_view(rows: Seq<UmiRow>) -> Seq<UmiRowV> {
    rows.map_values(|r: UmiRow| r@)
}

/// A text, or nothing where it is empty.
pub open spec fn non_empty(s: Seq<char>) -> Option<Seq<char>> {
    if s.len() == 0 {
        None
    } else {
        Some(s)
    }
}

/// The keyword a property text names: `-`, `+` or `*`.
pub open spec fn keyword_named(s: Seq<char>) -> Option<BulletListEntryKeyword> {
    if s == seq!['-'] {
        Some(BulletListEntryKeyword::Minus)
    } else if s == seq!['+'] {
        Some(BulletListEntryKeyword::Plus)
    } else if s == seq!['*'] {
        Some(BulletListEntryKeyword::Star)
    } else {
        None
    }
}

/// The block that the row at `line` reads as, its children being the rows after it that are one
/// level deeper, up to the first row that is not deeper than it.
/// - `Heading`: its `level` property (`1` to `6` or `#` to `######`) is required and must be
///   valid.
/// - `Paragraph`: its content.
/// - `VerbatimBlock`: its `implicit_closed` and `tick_len` properties are required; the first
///   is true only when it is `true`, the second is `0` where it is not a number.
/// - `BulletList`: its entries, up to the first child that does not read as an entry.
/// - `BulletListEntry`: its `keyword` (`-`, `+` or `*`) and `heading` properties are required;
///   its body holds its children, and the first child that fails fails the entry.
/// - Any other kind fails.
pub open spec fn spec_read_row(rows: Seq<UmiRowV>, line: int) -> Result<UmiBlockV, UmiParserErrorV>
    decreases 2 * (rows.len() - line) + 1,
{
    if !(0 <= line < rows.len()) {
        Err(UmiParserErrorV::NoUnimarkupDetected)
    } else {
        let row = rows[line];
        let p = row.position;
        if row.kind == "Heading"@ {
            match property(row, "level"@) {
                None => Err(UmiParserErrorV::MissingProperty("level"@, p)),
                Some(l) => match level_of_str(l) {
                    None => Err(UmiParserErrorV::InvalidPropertyValue("level"@, p)),
                    Some(level) => Ok(
                        UmiBlockV::Heading { id: row.id, level, content: row.content, attributes: non_empty(row.attributes) },
                    ),
                },
            }
        } else if row.kind == "Paragraph"@ {
            Ok(UmiBlockV::Paragraph { content: row.content })
        } else if row.kind == "VerbatimBlock"@ {
            match property(row, "implicit_closed"@) {
                None => Err(UmiParserErrorV::MissingProperty("implicit_closed"@, p)),
                Some(closed) => match property(row, "tick_len"@) {
                    None => Err(UmiParserErrorV::MissingProperty("tick_len"@, p)),
                    Some(ticks) => Ok(
                        UmiBlockV::VerbatimBlock {
                            content: row.content,
                            data_lang: property(row, "data_lang"@),
                            attributes: non_empty(row.attributes),
                            implicit_closed: closed == "true"@,
                            tick_len: match parsed_usize(ticks) {
                                Some(n) => n,
                                None => 0,
                            },
                        },
                    ),
                },
            }
        } else if row.kind == "BulletList"@ {
            Ok(UmiBlockV::BulletList { entries: spec_list_entries(rows, row.depth, line + 1) })
        } else if row.kind == "BulletListEntry"@ {
            match property(row, "keyword"@) {
                None => Err(UmiParserErrorV::MissingProperty("keyword"@, p)),
                Some(k) => match keyword_named(k) {
                    None => Err(UmiParserErrorV::InvalidPropertyValue("keyword"@, p)),
                    Some(keyword) => match property(row, "heading"@) {
                        None => Err(UmiParserErrorV::MissingProperty("heading"@, p)),
                        Some(heading) => match spec_entry_body(rows, row.depth, line + 1) {
                            Err(e) => Err(e),
                            Ok(body) => Ok(UmiBlockV::BulletListEntry { keyword, heading, body }),
                        },
                    },
                },
            }
        } else {
            Err(UmiParserErrorV::UnknownKind(p))
        }
    }
}

/// The entries of a bullet list at depth `d`, read from row `j` on.
pub open spec fn spec_list_entries(rows: Seq<UmiRowV>, d: u8, j: int) -> Seq<UmiBlockV>
    decreases 2 * (rows.len() - j) + 2,
{
    if !(0 <= j < rows.len()) || rows[j].depth <= d {
        Seq::empty()
    } else if rows[j].depth == d + 1 {
        match spec_read_row(rows, j) {
            Ok(b) => if b is BulletListEntry {
                seq![b] + spec_list_entries(rows, d, j + 1)
            } else {
                Seq::empty()
            },
            Err(_) => Seq::empty(),
        }
    } else {
        spec_list_entries(rows, d, j + 1)
    }
}

/// The body of a bullet list entry at depth `d`, read from row `j` on.
pub open spec fn spec_entry_body(rows: Seq<UmiRowV>, d: u8, j: int) -> Result<Seq<UmiBlockV>, UmiParserErrorV>
    decreases 2 * (rows.len() - j) + 2,
{
    if !(0 <= j < rows.len()) || rows[j].depth <= d {
        Ok(Seq::empty())
    } else if rows[j].depth == d + 1 {
        match spec_read_row(rows, j) {
            Err(e) => Err(e),
            Ok(b) => match spec_entry_body(rows, d, j + 1) {
                Err(e) => Err(e),
                Ok(rest) => Ok(seq![b] + rest),
            },
        }
    } else {
        spec_entry_body(rows, d, j + 1)
    }
}

fn non_empty_text(s: &String) -> (r: Option<String>)
    ensures
        opt_view(r) == non_empty(s@),
{
    if s.as_str().is_empty() {
        None
    } else {
        Some(s.clone())
    }
}

fn keyword_from_text(s: &str) -> (r: Option<BulletListEntryKeyword>)
    ensures
        r == keyword_named(s@),
{
    proof {
        reveal_strlit("-");
        reveal_strlit("+");
        reveal_strlit("*");
        assert("-"@ =~= seq!['-']);
        assert("+"@ =~= seq!['+']);
        assert("*"@ =~= seq!['*']);
    }
    if str_eq(s, "-") {
        Some(BulletListEntryKeyword::Minus)
    } else if str_eq(s, "+") {
        Some(BulletListEntryKeyword::Plus)
    } else if str_eq(s, "*") {
        Some(BulletListEntryKeyword::Star)
    } else {
        None
    }
}

fn missing(name: &str, position: u8) -> (r: UmiParserError)
    ensures
        r@ == UmiParserErrorV::MissingProperty(name@, position),
{
    UmiParserError::MissingProperty(name.to_owned(), position)
}

fn invalid(name: &str, position: u8) -> (r: UmiParserError)
    ensures
        r@ == UmiParserErrorV::InvalidPropertyValue(name@, position),
{
    UmiParserError::InvalidPropertyValue(name.to_owned(), position)
}

/// Reads the row at `line` back into a block, together with the rows below it: see
/// `spec_read_row`.
pub fn read_row(rows: &Vec<UmiRow>, line: usize) -> (r: Result<UmiBlock, UmiParserError>)
    requires
        line < rows.len(),
    ensures
        read_is(r, spec_read_row(rows_view(rows@), line as int)),
    decreases rows.len() - line,
{
    let ghost rv = rows_view(rows@);
    let row = &rows[line];
    let p = row.position;
    let props = properties_of(row);
    proof {
        assert(row@ == rv[line as int]);
    }
    if str_eq(row.kind.as_str(), "Heading") {
        match lookup(&props, "level") {
            None => Err(missing("level", p)),
            Some(l) => match HeadingLevel::try_from(l.as_str()) {
                Ok(level) => Ok(
                    UmiBlock::Heading {
                        id: row.id.clone(),
                        level,
                        content: row.content.clone(),
                        attributes: non_empty_text(&row.attributes),
                    },
                ),
                Err(_) => Err(invalid("level", p)),
            },
        }
    } else if str_eq(row.kind.as_str(), "Paragraph") {
        Ok(UmiBlock::Paragraph { content: row.content.clone() })
    } else if str_eq(row.kind.as_str(), "VerbatimBlock") {
        match lookup(&props, "implicit_closed") {
            None => Err(missing("implicit_closed", p)),
            Some(closed) => match lookup(&props, "tick_len") {
                None => Err(missing("tick_len", p)),
                Some(ticks) => {
                    let implicit_closed = str_eq(closed.as_str(), "true");
                    let tick_len = match parse_usize(ticks.as_str()) {
                        Some(n) => n,
                        None => 0,
                    };
                    let data_lang = match lookup(&props, "data_lang") {
                        Some(lang) => Some(lang.clone()),
                        None => None,
                    };
                    Ok(
                        UmiBlock::VerbatimBlock {
                            content: row.content.clone(),
                            data_lang,
                            attributes: non_empty_text(&row.attributes),
                            implicit_closed,
                            tick_len,
                        },
                    )
                },
            },
        }
    } else if str_eq(row.kind.as_str(), "BulletList") {
        let d = row.depth;
        let mut entries: Vec<UmiBlock> = Vec::new();
        let ghost mut acc: Seq<UmiBlockV> = Seq::empty();
        let mut j: usize = line + 1;
        let mut stop = false;
        proof {
            assert(acc + spec_list_entries(rv, d, j as int) =~= spec_list_entries(rv, d, j as int));
        }
        while !stop && j < rows.len() && rows[j].depth > d
            invariant
                rv == rows_view(rows@),
                line < j <= rows@.len(),
                blocks_are(entries@, acc),
                stop ==> spec_list_entries(rv, d, j as int) == Seq::<UmiBlockV>::empty(),
                acc + spec_list_entries(rv, d, j as int) == spec_list_entries(rv, d, line + 1),
            decreases rows.len() - j, (if stop { 0int } else { 1int }),
        {
            proof {
                assert(rows@[j as int]@ == rv[j as int]);
            }
            if rows[j].depth == d + 1 {
                let b = read_row(rows, j);
                match b {
                    Ok(blk) => {
                        let ghost bv = spec_read_row(rv, j as int)->Ok_0;
                        if let UmiBlock::BulletListEntry { .. } = blk {
                            entries.push(blk);
                            proof {
                                assert(acc.push(bv) + spec_list_entries(rv, d, j + 1) =~= acc + (seq![bv]
                                    + spec_list_entries(rv, d, j + 1)));
                                acc = acc.push(bv);
                            }
                            j = j + 1;
                        } else {
                            stop = true;
                        }
                    },
                    Err(_) => {
                        stop = true;
                    },
                }
            } else {
                j = j + 1;
            }
        }
        proof {
            assert(acc + spec_list_entries(rv, d, j as int) =~= acc);
        }
        Ok(UmiBlock::BulletList { entries })
    } else if str_eq(row.kind.as_str(), "BulletListEntry") {
        match lookup(&props, "keyword") {
            None => Err(missing("keyword", p)),
            Some(k) => match keyword_from_text(k.as_str()) {
                None => Err(invalid("keyword", p)),
                Some(keyword) => match lookup(&props, "heading") {
                    None => Err(missing("heading", p)),
                    Some(h) => {
                        let heading = h.clone();
                        let d = row.depth;
                        let mut body: Vec<UmiBlock> = Vec::new();
                        let ghost mut acc: Seq<UmiBlockV> = Seq::empty();
                        let mut j: usize = line + 1;
                        let ghost whole = spec_read_row(rv, line as int);
                        proof {
                            assert(acc + spec_entry_body(rv, d, j as int)->Ok_0 =~= spec_entry_body(rv, d, j as int)->Ok_0);
                            assert(whole == match spec_entry_body(rv, d, line + 1) {
                                Err(e) => Err(e),
                                Ok(body) => Ok(UmiBlockV::BulletListEntry { keyword, heading: heading@, body }),
                            });
                        }
                        while j < rows.len() && rows[j].depth > d
                            invariant
                                rv == rows_view(rows@),
                                line < j <= rows@.len(),
                                whole == spec_read_row(rv, line as int),
                                whole == match spec_entry_body(rv, d, line + 1) {
                                    Err(e) => Err(e),
                                    Ok(body) => Ok(UmiBlockV::BulletListEntry { keyword, heading: heading@, body }),
                                },
                                blocks_are(body@, acc),
                                spec_entry_body(rv, d, line + 1) == (match spec_entry_body(rv, d, j as int) {
                                    Ok(rest) => Ok(acc + rest),
                                    Err(e) => Err(e),
                                }),
                            decreases rows.len() - j,
                        {
                            proof {
                                assert(rows@[j as int]@ == rv[j as int]);
                            }
                            if rows[j].depth == d + 1 {
                                let b = read_row(rows, j);
                                match b {
                                    Ok(blk) => {
                                        let ghost bv = spec_read_row(rv, j as int)->Ok_0;
                                        body.push(blk);
                                        proof {
                                            if let Ok(rest) = spec_entry_body(rv, d, j + 1) {
                                                assert(acc.push(bv) + rest =~= acc + (seq![bv] + rest));
                                            }
                                            acc = acc.push(bv);
                                        }
                                    },
                                    Err(e) => {
                                        proof {
                                            assert(spec_entry_body(rv, d, j as int) == Err::<Seq<UmiBlockV>, UmiParserErrorV>(e@));
                                            assert(spec_entry_body(rv, d, line + 1) == Err::<Seq<UmiBlockV>, UmiParserErrorV>(e@));
                                        }
                                        return Err(e);
                                    },
                                }
                            }
                            j = j + 1;
                        }
                        proof {
                            assert(acc + Seq::<UmiBlockV>::empty() =~= acc);
                        }
                        Ok(UmiBlock::BulletListEntry { keyword, heading, body })
                    },
                },
            },
        }
    } else {
        Err(UmiParserError::UnknownKind(p))
    }
}

/// The blocks of a document read back from its rows: each top-level row (depth `0`) read with
/// the rows below it, in order; the first failure fails the document.
pub open spec fn spec_read_blocks(rows: Seq<UmiRowV>, j: int) -> Result<Seq<UmiBlockV>, UmiParserErrorV>
    decreases rows.len() - j,
{
    if !(0 <= j < rows.len()) {
        Ok(Seq::empty())
    } else if rows[j].depth == 0 {
        match spec_read_row(rows, j) {
            Err(e) => Err(e),
            Ok(b) => match spec_read_blocks(rows, j + 1) {
                Err(e) => Err(e),
                Ok(rest) => Ok(seq![b] + rest),
            },
        }
    } else {
        spec_read_blocks(rows, j + 1)
    }
}

/// Reads the top-level blocks of a document back from its rows: see `spec_read_blocks`.
pub fn read_blocks(rows: &Vec<UmiRow>) -> (r: Result<Vec<UmiBlock>, UmiParserError>)
    ensures
        match (r, spec_read_blocks(rows_view(rows@), 0)) {
            (Ok(bs), Ok(vs)) => blocks_are(bs@, vs),
            (Err(e), Err(ev)) => e@ == ev,
            _ => false,
        },
{
    let ghost rv = rows_view(rows@);
    let mut blocks: Vec<UmiBlock> = Vec::new();
    let ghost mut acc: Seq<UmiBlockV> = Seq::empty();
    let mut j: usize = 0;
    proof {
        assert(acc + spec_read_blocks(rv, 0)->Ok_0 =~= spec_read_blocks(rv, 0)->Ok_0);
    }
    while j < rows.len()
        invariant
            rv == rows_view(rows@),
            j <= rows@.len(),
            blocks_are(blocks@, acc),
            spec_read_blocks(rv, 0) == (match spec_read_blocks(rv, j as int) {
                Ok(rest) => Ok(acc + rest),
                Err(e) => Err(e),
            }),
        decreases rows.len() - j,
    {
        proof {
            assert(rows@[j as int]@ == rv[j as int]);
        }
        if rows[j].depth == 0 {
            match read_row(rows, j) {
                Ok(b) => {
                    let ghost bv = spec_read_row(rv, j as int)->Ok_0;
                    blocks.push(b);
                    proof {
                        if let Ok(rest) = spec_read_blocks(rv, j + 1) {
                            assert(acc.push(bv) + rest =~= acc + (seq![bv] + rest));
                        }
                        acc = acc.push(bv);
                    }
                },
                Err(e) => {
                    proof {
                        assert(spec_read_blocks(rv, j as int) == Err::<Seq<UmiBlockV>, UmiParserErrorV>(e@));
                    }
                    return Err(e);
                },
            }
        }
        j = j + 1;
    }
    proof {
        assert(acc + Seq::<UmiBlockV>::empty() =~= acc);
    }
    Ok(blocks)
}

/// Reading a row's keyword inverts writing it: the text of each keyword reads as that keyword,
/// and a text that reads as a keyword is that keyword's text.
pub proof fn lemma_keyword_text_round_trip(k: BulletListEntryKeyword, s: Seq<char>)
    ensures
        keyword_named(keyword_str(k)) == Some(k),
        keyword_named(s) matches Some(k2) ==> s == keyword_str(k2),
{
    assert(seq!['-'] != seq!['+']) by {
        assert(seq!['-'][0] != seq!['+'][0]);
    }
    assert(seq!['-'] != seq!['*']) by {
        assert(seq!['-'][0] != seq!['*'][0]);
    }
    assert(seq!['+'] != seq!['*']) by {
        assert(seq!['+'][0] != seq!['*'][0]);
    }
}

} // verus!
