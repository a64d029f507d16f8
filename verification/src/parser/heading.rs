//! Heading levels of Unimarkup headings.
use crate::lexer::TokenKind;
use crate::text::{is_white_space, is_white_space_char, lowercased, str_eq, to_lowercase};
use vstd::string::StringExecFns;
use vstd::prelude::*;
use vstd::std_specs::convert::{FromSpecImpl, TryFromSpecImpl};

verus! {

/// Atomic error log-ids for the element section.
#[derive(Debug, Clone, Copy, PartialEq, Eq, Structural)]
pub enum AtomicError {
    /// Log-id denoting an invalid heading level.
    InvalidHeadingLvl,
}

impl AtomicError {
    /// The message of the error.
    pub fn message(&self) -> (r: &'static str)
        ensures
            r@ == "Invalid heading level detected."@,
    {
        "Invalid heading level detected."
    }
}

/// Possible heading levels for Unimarkup headings.
#[derive(Debug, Clone, Copy, PartialEq, Eq, Structural)]
pub enum HeadingLevel {
    /// Heading level 1, corresponds to `# ` in Unimarkup.
    Level1,
    /// Heading level 2, corresponds to `## ` in Unimarkup.
    Level2,
    /// Heading level 3, corresponds to `### ` in Unimarkup.
    Level3,
    /// Heading level 4, corresponds to `#### ` in Unimarkup.
    Level4,
    /// Heading level 5, corresponds to `##### ` in Unimarkup.
    Level5,
    /// Heading level 6, corresponds to `###### ` in Unimarkup.
    Level6,
}

/// The depth of a heading level, `1` to `6`.
pub open spec fn level_depth(l: HeadingLevel) -> nat {
    match l {
        HeadingLevel::Level1 => 1,
        HeadingLevel::Level2 => 2,
        HeadingLevel::Level3 => 3,
        HeadingLevel::Level4 => 4,
        HeadingLevel::Level5 => 5,
        HeadingLevel::Level6 => 6,
    }
}

/// The heading level of a depth, if the depth is one of `1` to `6`.
pub open spec fn level_of_depth(d: int) -> Option<HeadingLevel> {
    if d == 1 {
        Some(HeadingLevel::Level1)
    } else if d == 2 {
        Some(HeadingLevel::Level2)
    } else if d == 3 {
        Some(HeadingLevel::Level3)
    } else if d == 4 {
        Some(HeadingLevel::Level4)
    } else if d == 5 {
        Some(HeadingLevel::Level5)
    } else if d == 6 {
        Some(HeadingLevel::Level6)
    } else {
        None
    }
}

/// `depth` hashes.
pub open spec fn hashes(depth: nat) -> Seq<char> {
    Seq::new(depth, |i: int| '#')
}

/// The heading level written as `s`: its digit or its hashes.
pub open spec fn level_of_str(s: Seq<char>) -> Option<HeadingLevel> {
    if s == seq!['1'] || s == hashes(1) {
        Some(HeadingLevel::Level1)
    } else if s == seq!['2'] || s == hashes(2) {
        Some(HeadingLevel::Level2)
    } else if s == seq!['3'] || s == hashes(3) {
        Some(HeadingLevel::Level3)
    } else if s == seq!['4'] || s == hashes(4) {
        Some(HeadingLevel::Level4)
    } else if s == seq!['5'] || s == hashes(5) {
        Some(HeadingLevel::Level5)
    } else if s == seq!['6'] || s == hashes(6) {
        Some(HeadingLevel::Level6)
    } else {
        None
    }
}

impl HeadingLevel {
    /// The `str` representation of the heading level: as many `#` as its depth.
    pub fn as_str(&self) -> (r: &'static str)
        ensures
            r@ == hashes(level_depth(*self)),
    {
        match self {
            HeadingLevel::Level1 => {
                proof {
                    reveal_strlit("#");
                    assert("#"@ =~= hashes(1));
                }
                "#"
            },
            HeadingLevel::Level2 => {
                proof {
                    reveal_strlit("##");
                    assert("##"@ =~= hashes(2));
                }
                "##"
            },
            HeadingLevel::Level3 => {
                proof {
                    reveal_strlit("###");
                    assert("###"@ =~= hashes(3));
                }
                "###"
            },
            HeadingLevel::Level4 => {
                proof {
                    reveal_strlit("####");
                    assert("####"@ =~= hashes(4));
                }
                "####"
            },
            HeadingLevel::Level5 => {
                proof {
                    reveal_strlit("#####");
                    assert("#####"@ =~= hashes(5));
                }
                "#####"
            },
            HeadingLevel::Level6 => {
                proof {
                    reveal_strlit("######");
                    assert("######"@ =~= hashes(6));
                }
                "######"
            },
        }
    }
}


impl HeadingLevel {
    /// Whether `s` is the digit or the hashes of this level.
    fn is_written_as(&self, s: &str) -> (r: bool)
        ensures
            r == (s@ == hashes(level_depth(*self)) || s@ == seq![('0' as int + level_depth(*self)) as char]),
    {
        let (d, h) = match self {
            HeadingLevel::Level1 => {
                proof {
                    reveal_strlit("1");
                    assert("1"@ =~= seq!['1']);
                }
                ("1", self.as_str())
            },
            HeadingLevel::Level2 => {
                proof {
                    reveal_strlit("2");
                    assert("2"@ =~= seq!['2']);
                }
                ("2", self.as_str())
            },
            HeadingLevel::Level3 => {
                proof {
                    reveal_strlit("3");
                    assert("3"@ =~= seq!['3']);
                }
                ("3", self.as_str())
            },
            HeadingLevel::Level4 => {
                proof {
                    reveal_strlit("4");
                    assert("4"@ =~= seq!['4']);
                }
                ("4", self.as_str())
            },
            HeadingLevel::Level5 => {
                proof {
                    reveal_strlit("5");
                    assert("5"@ =~= seq!['5']);
                }
                ("5", self.as_str())
            },
            HeadingLevel::Level6 => {
                proof {
                    reveal_strlit("6");
                    assert("6"@ =~= seq!['6']);
                }
                ("6", self.as_str())
            },
        };
        str_eq(s, d) || str_eq(s, h)
    }
}

impl<'a> TryFrom<&'a str> for HeadingLevel {
    type Error = AtomicError;

    /// Accepts `1` to `6`, or `#` to `######`.
    fn try_from(input: &'a str) -> (r: Result<Self, Self::Error>)
        ensures
            r == (match level_of_str(input@) {
                Some(l) => Ok(l),
                None => Err(AtomicError::InvalidHeadingLvl),
            }),
    {
        if HeadingLevel::Level1.is_written_as(input) {
            Ok(HeadingLevel::Level1)
        } else if HeadingLevel::Level2.is_written_as(input) {
            Ok(HeadingLevel::Level2)
        } else if HeadingLevel::Level3.is_written_as(input) {
            Ok(HeadingLevel::Level3)
        } else if HeadingLevel::Level4.is_written_as(input) {
            Ok(HeadingLevel::Level4)
        } else if HeadingLevel::Level5.is_written_as(input) {
            Ok(HeadingLevel::Level5)
        } else if HeadingLevel::Level6.is_written_as(input) {
            Ok(HeadingLevel::Level6)
        } else {
            Err(AtomicError::InvalidHeadingLvl)
        }
    }
}

impl<'a> TryFromSpecImpl<&'a str> for HeadingLevel {
    open spec fn obeys_try_from_spec() -> bool {
        true
    }

    open spec fn try_from_spec(input: &'a str) -> Result<Self, AtomicError> {
        match level_of_str(input@) {
            Some(l) => Ok(l),
            None => Err(AtomicError::InvalidHeadingLvl),
        }
    }
}

impl TryFrom<usize> for HeadingLevel {
    type Error = AtomicError;

    /// Accepts the depths `1` to `6`.
    fn try_from(level_depth: usize) -> (r: Result<Self, Self::Error>)
        ensures
            r == (match level_of_depth(level_depth as int) {
                Some(l) => Ok(l),
                None => Err(AtomicError::InvalidHeadingLvl),
            }),
    {
        match level_depth {
            1 => Ok(HeadingLevel::Level1),
            2 => Ok(HeadingLevel::Level2),
            3 => Ok(HeadingLevel::Level3),
            4 => Ok(HeadingLevel::Level4),
            5 => Ok(HeadingLevel::Level5),
            6 => Ok(HeadingLevel::Level6),
            _ => Err(AtomicError::InvalidHeadingLvl),
        }
    }
}

impl TryFromSpecImpl<usize> for HeadingLevel {
    open spec fn obeys_try_from_spec() -> bool {
        true
    }

    open spec fn try_from_spec(level_depth: usize) -> Result<Self, AtomicError> {
        match level_of_depth(level_depth as int) {
            Some(l) => Ok(l),
            None => Err(AtomicError::InvalidHeadingLvl),
        }
    }
}

impl From<HeadingLevel> for u8 {
    /// The depth of the level.
    fn from(level: HeadingLevel) -> (r: u8)
        ensures
            r == level_depth(level),
    {
        match level {
            HeadingLevel::Level1 => 1,
            HeadingLevel::Level2 => 2,
            HeadingLevel::Level3 => 3,
            HeadingLevel::Level4 => 4,
            HeadingLevel::Level5 => 5,
            HeadingLevel::Level6 => 6,
        }
    }
}

impl FromSpecImpl<HeadingLevel> for u8 {
    open spec fn obeys_from_spec() -> bool {
        true
    }

    open spec fn from_spec(level: HeadingLevel) -> u8 {
        level_depth(level) as u8
    }
}


/// Reading the hashes of a heading level gives back the level.
pub proof fn lemma_level_str_round_trip(l: HeadingLevel)
    ensures
        level_of_str(hashes(level_depth(l))) == Some(l),
{
    let h = hashes(level_depth(l));
    assert(h.len() == level_depth(l));
    assert(h[0] == '#');
}

/// Reading the depth of a heading level gives back the level; depths are `1` to `6`.
pub proof fn lemma_level_depth_round_trip(l: HeadingLevel)
    ensures
        level_of_depth(level_depth(l) as int) == Some(l),
        1 <= level_depth(l) <= 6,
{
}

/// The number of hashes that a heading prefix of `hashes_len` is matched with:
/// `hashes_len` itself from one to five, else six.
pub open spec fn prefix_depth(hashes_len: usize) -> nat {
    if 1 <= hashes_len <= 5 {
        hashes_len as nat
    } else {
        6
    }
}

/// The tokens that start a continuation line of a heading written with `hashes_len` hashes:
/// its hashes followed by a space, or one space more than it has hashes.
pub open spec fn heading_prefixes(hashes_len: usize) -> (Seq<TokenKind>, Seq<TokenKind>) {
    let depth = prefix_depth(hashes_len);
    (
        seq![TokenKind::Hash(depth as usize), TokenKind::Space],
        Seq::new(depth + 1, |i: int| TokenKind::Space),
    )
}

/// The tokens that start a sub-heading of a heading written with `hashes_len` hashes:
/// a newline, one hash more (six at most), and a space.
pub open spec fn sub_heading_prefix(hashes_len: usize) -> Seq<TokenKind> {
    let depth: usize = if 1 <= hashes_len <= 4 {
        (hashes_len + 1) as usize
    } else {
        6
    };
    seq![TokenKind::Newline, TokenKind::Hash(depth), TokenKind::Space]
}

/// `n` space tokens.
fn spaces(n: usize) -> (r: Vec<TokenKind>)
    ensures
        r@ == Seq::new(n as nat, |i: int| TokenKind::Space),
{
    let mut r: Vec<TokenKind> = Vec::new();
    let mut i: usize = 0;
    while i < n
        invariant
            i <= n,
            r@ == Seq::new(i as nat, |j: int| TokenKind::Space),
        decreases n - i,
    {
        r.push(TokenKind::Space);
        i = i + 1;
    }
    r
}

/// Returns the matching sequences for the continuation lines of a heading with the
/// parsed number of hashes: the hash prefix and the space prefix.
pub fn heading_prefix_sequences(hashes_len: usize) -> (r: (Vec<TokenKind>, Vec<TokenKind>))
    ensures
        r.0@ == heading_prefixes(hashes_len).0,
        r.1@ == heading_prefixes(hashes_len).1,
{
    let depth: usize = if hashes_len == 1 {
        1
    } else if hashes_len == 2 {
        2
    } else if hashes_len == 3 {
        3
    } else if hashes_len == 4 {
        4
    } else if hashes_len == 5 {
        5
    } else {
        6
    };
    (vec![TokenKind::Hash(depth), TokenKind::Space], spaces(depth + 1))
}

/// Returns the matching sequence that starts a sub-heading of a heading with the parsed
/// number of hashes.
pub fn sub_heading_start(hashes_len: usize) -> (r: Vec<TokenKind>)
    ensures
        r@ == sub_heading_prefix(hashes_len),
{
    let depth: usize = if hashes_len == 1 {
        2
    } else if hashes_len == 2 {
        3
    } else if hashes_len == 3 {
        4
    } else if hashes_len == 4 {
        5
    } else {
        6
    };
    vec![TokenKind::Newline, TokenKind::Hash(depth), TokenKind::Space]
}


/// The id text of a heading text: whitespace becomes `-`; backslashes (which would start HTML
/// escapes) and quotes (which would end an attribute early) are removed.
pub open spec fn id_text(s: Seq<char>) -> Seq<char>
    decreases s.len(),
{
    if s.len() == 0 {
        Seq::empty()
    } else {
        let c = s.last();
        id_text(s.drop_last()) + if is_white_space(c) {
            seq!['-']
        } else if c == '\\' || c == '\'' || c == '"' {
            Seq::empty()
        } else {
            seq![c]
        }
    }
}

/// Converts the Unimarkup text of a heading's content into a valid id: the text is lower
/// cased, whitespace is replaced with `-`, and backslashes and quotes are removed.
pub fn as_id(content: &str) -> (r: String)
    ensures
        r@ == id_text(lowercased(content@)),
{
    let lower = to_lowercase(content);
    let text = lower.as_str();
    let n = text.unicode_len();
    let mut id = String::new();
    let mut i: usize = 0;
    proof {
        assert(text@.take(0) =~= Seq::<char>::empty());
    }
    while i < n
        invariant
            n == text@.len(),
            text@ == lowercased(content@),
            i <= n,
            id@ == id_text(text@.take(i as int)),
        decreases n - i,
    {
        let c = text.get_char(i);
        assert(text@.take(i + 1).drop_last() =~= text@.take(i as int));
        assert(text@.take(i + 1).last() == c);
        if is_white_space_char(c) {
            proof {
                reveal_strlit("-");
                assert("-"@ =~= seq!['-']);
            }
            id.append("-");
        } else if c == '\\' || c == '\'' || c == '"' {
        } else {
            let one = text.substring_char(i, i + 1);
            assert(one@ =~= seq![c]);
            id.append(one);
        }
        i = i + 1;
    }
    assert(text@.take(n as int) =~= text@);
    id
}

/// The level of a heading that starts with the given token kinds: a run of one to six hashes
/// followed by a space. Anything else starts no heading.
pub open spec fn spec_heading_level(kinds: Seq<TokenKind>) -> Option<HeadingLevel> {
    if kinds.len() >= 2 && kinds[1] == TokenKind::Space {
        match kinds[0] {
            TokenKind::Hash(n) => level_of_depth(n as int),
            _ => None,
        }
    } else {
        None
    }
}

/// Decides whether the tokens that start a block open a heading, and of which level.
pub fn heading_level(kinds: &Vec<TokenKind>) -> (r: Option<HeadingLevel>)
    ensures
        r == spec_heading_level(kinds@),
{
    if kinds.len() < 2 || kinds[1] != TokenKind::Space {
        return None;
    }
    match kinds[0] {
        TokenKind::Hash(n) => match HeadingLevel::try_from(n) {
            Ok(level) => Some(level),
            Err(_) => None,
        },
        _ => None,
    }
}

/// The id of a heading, given whether its lines ended before its prefix did, the id of the
/// attribute block that follows it (`None` where none follows or it does not parse; `Some(None)`
/// where it has no id) and the Unimarkup text of its content. `None` where no heading is made:
/// its lines ended early and no attribute block follows.
pub open spec fn spec_heading_id(
    prefix_mismatch: bool,
    attribute_id: Option<Option<Seq<char>>>,
    content: Seq<char>,
) -> Option<Seq<char>> {
    if prefix_mismatch {
        match attribute_id {
            None => None,
            Some(Some(id)) => Some(id),
            Some(None) => Some(id_text(lowercased(content))),
        }
    } else {
        Some(id_text(lowercased(content)))
    }
}

/// Decides the id of a heading once its content was parsed: the id the attributes give, or the
/// one made from its content.
pub fn heading_id(prefix_mismatch: bool, attribute_id: Option<Option<String>>, content: &str) -> (r: Option<String>)
    ensures
        match r {
            Some(id) => spec_heading_id(
                prefix_mismatch,
                match attribute_id {
                    Some(Some(i)) => Some(Some(i@)),
                    Some(None) => Some(None),
                    None => None,
                },
                content@,
            ) == Some(id@),
            None => spec_heading_id(
                prefix_mismatch,
                match attribute_id {
                    Some(Some(i)) => Some(Some(i@)),
                    Some(None) => Some(None),
                    None => None,
                },
                content@,
            ) is None,
        },
{
    if prefix_mismatch {
        match attribute_id {
            None => None,
            Some(Some(id)) => Some(id),
            Some(None) => Some(as_id(content)),
        }
    } else {
        Some(as_id(content))
    }
}

/// A character an id keeps as it is: no whitespace, backslash or quote.
pub open spec fn kept_in_id(c: char) -> bool {
    !is_white_space(c) && c != '\\' && c != '\'' && c != '"'
}

/// Each further character of a heading text adds to its id what it stands for: a kept character
/// itself, whitespace a `-`, a backslash or quote nothing.
pub proof fn lemma_id_text_push(s: Seq<char>, c: char)
    ensures
        kept_in_id(c) ==> id_text(s.push(c)) == id_text(s).push(c),
        is_white_space(c) ==> id_text(s.push(c)) == id_text(s).push('-'),
        (c == '\\' || c == '\'' || c == '"') ==> id_text(s.push(c)) == id_text(s),
{
    assert(s.push(c).drop_last() =~= s);
    assert(id_text(s) + seq![c] =~= id_text(s).push(c));
    assert(id_text(s) + seq!['-'] =~= id_text(s).push('-'));
    assert(id_text(s) + Seq::<char>::empty() =~= id_text(s));
}

/// A text of kept characters is its own id, and an id holds only kept characters and `-`.
pub proof fn lemma_id_text_keeps(s: Seq<char>)
    ensures
        (forall|i: int| 0 <= i < s.len() ==> kept_in_id(#[trigger] s[i])) ==> id_text(s) == s,
        forall|i: int| 0 <= i < id_text(s).len() ==> kept_in_id(#[trigger] id_text(s)[i]) || id_text(s)[i] == '-',
        id_text(s).len() <= s.len(),
    decreases s.len(),
{
    if s.len() > 0 {
        let d = s.drop_last();
        lemma_id_text_keeps(d);
        lemma_id_text_push(d, s.last());
        assert(d.push(s.last()) =~= s);
        if forall|i: int| 0 <= i < s.len() ==> kept_in_id(#[trigger] s[i]) {
            assert forall|i: int| 0 <= i < d.len() implies kept_in_id(#[trigger] d[i]) by {
                assert(d[i] == s[i]);
            }
            assert(kept_in_id(s[s.len() - 1]));
            assert(d.push(s.last()) =~= s);
        }
        let r = id_text(s);
        assert forall|i: int| 0 <= i < r.len() implies kept_in_id(#[trigger] r[i]) || r[i] == '-' by {
            if i < id_text(d).len() {
                assert(r[i] == id_text(d)[i]);
            }
        }
    } else {
        assert(id_text(s) =~= s);
    }
}

} // verus!
