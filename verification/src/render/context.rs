//! The citation texts that rendering a document uses: what the citation engine gave, or an
//! error marker in place of each part it could not give.
use vstd::prelude::*;

verus! {

/// The text that stands in place of a citation, the footnotes or the bibliography where the
/// citation engine failed.
pub const CITATION_ERROR: &'static str = "########### CITATION ERROR ###########";

/// The citation texts of a rendering.
pub struct Context {
    rendered_citations: Vec<String>,
    /// The rendered footnotes.
    pub footnotes: String,
    /// The rendered bibliography.
    pub bibliography: String,
}

/// The values of strings.
pub open spec fn texts(v: Seq<String>) -> Seq<Seq<char>> {
    v.map_values(|s: String| s@)
}

/// A text, or the error marker where the engine gave none.
pub open spec fn or_error(t: Option<String>) -> Seq<char> {
    match t {
        Some(s) => s@,
        None => CITATION_ERROR@,
    }
}

/// The rendered citations: those the engine gave, or one error marker per citation of the
/// document where it gave none.
pub open spec fn citations_or_errors(citation_count: nat, citations: Option<Vec<String>>) -> Seq<Seq<char>> {
    match citations {
        Some(c) => texts(c@),
        None => Seq::new(citation_count, |i: int| CITATION_ERROR@),
    }
}

impl Context {
    /// The rendered citations, in order.
    pub closed spec fn citation_texts(&self) -> Seq<Seq<char>> {
        texts(self.rendered_citations@)
    }

    /// The rendered footnotes.
    pub closed spec fn footnotes_text(&self) -> Seq<char> {
        self.footnotes@
    }

    /// The rendered bibliography.
    pub closed spec fn bibliography_text(&self) -> Seq<char> {
        self.bibliography@
    }

    /// The context of a document with `citation_count` citations, given what the citation engine
    /// gave: its rendered citations, footnotes and bibliography, each `None` where the engine
    /// could not be started or failed on that part.
    pub fn new(
        citation_count: usize,
        citations: Option<Vec<String>>,
        footnotes: Option<String>,
        bibliography: Option<String>,
    ) -> (r: Context)
        ensures
            r.citation_texts() == citations_or_errors(citation_count as nat, citations),
            r.footnotes_text() == or_error(footnotes),
            r.bibliography_text() == or_error(bibliography),
    {
        let rendered_citations = match citations {
            Some(c) => c,
            None => {
                let mut errors: Vec<String> = Vec::new();
                let mut i: usize = 0;
                while i < citation_count
                    invariant
                        i <= citation_count,
                        errors@.len() == i,
                        texts(errors@) == Seq::new(i as nat, |k: int| CITATION_ERROR@),
                    decreases citation_count - i,
                {
                    let ghost before = errors@;
                    let marker = CITATION_ERROR.to_owned();
                    errors.push(marker);
                    proof {
                        assert forall|k: int| 0 <= k < i + 1 implies #[trigger] texts(errors@)[k] == CITATION_ERROR@ by {
                            if k < i {
                                assert(errors@[k] == before[k]);
                                assert(texts(before)[k] == CITATION_ERROR@);
                            }
                        }
                        assert(texts(errors@) =~= Seq::new((i + 1) as nat, |k: int| CITATION_ERROR@));
                    }
                    i = i + 1;
                }
                errors
            },
        };
        let footnotes = match footnotes {
            Some(f) => f,
            None => CITATION_ERROR.to_owned(),
        };
        let bibliography = match bibliography {
            Some(b) => b,
            None => CITATION_ERROR.to_owned(),
        };
        Context { rendered_citations, footnotes, bibliography }
    }

    /// The rendered citation at an index, if there is one.
    pub fn rendered_citation(&self, index: usize) -> (r: Option<&String>)
        ensures
            match r {
                Some(c) => index < self.citation_texts().len() && c@ == self.citation_texts()[index as int],
                None => index >= self.citation_texts().len(),
            },
    {
        if index < self.rendered_citations.len() {
            Some(&self.rendered_citations[index])
        } else {
            None
        }
    }
}

} // verus!
