//! Knowledge search that can be put in front of the language model.

use vstd::prelude::*;

use crate::text::concat;

verus! {

/// What a search found.
#[derive(Debug, Clone)]
pub struct SearchResult {
    /// Text for the prompt.
    pub context: String,
    /// Where it comes from.
    pub sources: Vec<Source>,
}

impl Default for SearchResult {
    fn default() -> (r: Self)
        ensures
            r.context@ == Seq::<char>::empty(),
            r.sources@ == Seq::<Source>::empty(),
    {
        SearchResult { context: String::new(), sources: Vec::new() }
    }
}

/// Where something was found.
#[derive(Debug, Clone)]
pub struct Source {
    pub title: String,
    pub publisher: String,
    pub updated_at: Option<String>,
}

/// Why a search failed.
#[derive(Debug)]
pub enum SearchError {
    Cancelled,
    Unavailable(String),
    Timeout,
}

impl SearchError {
    pub open spec fn text_spec(&self) -> Seq<char> {
        match *self {
            SearchError::Cancelled => "search cancelled"@,
            SearchError::Unavailable(m) => "search unavailable: "@ + m@,
            SearchError::Timeout => "search timed out"@,
        }
    }

    /// The error as one line of text.
    pub fn to_string(&self) -> (r: String)
        ensures
            r@ == self.text_spec(),
    {
        match self {
            SearchError::Cancelled => "search cancelled".to_string(),
            SearchError::Unavailable(m) => concat("search unavailable: ", m.as_str()),
            SearchError::Timeout => "search timed out".to_string(),
        }
    }
}

/// Something that can be searched. What it finds is up to it.
pub trait KnowledgeSearch {
    /// Searches for what a question is about. `cancelled` tells that nobody waits for the result
    /// any more.
    fn search(&self, session_id: &str, query: &str, cancelled: bool) -> (r: Result<
        SearchResult,
        SearchError,
    >);
}

/// Finds nothing and asks nobody.
pub struct NoopKnowledgeSearch;

impl KnowledgeSearch for NoopKnowledgeSearch {
    /// Nothing, unless the search was cancelled.
    fn search(&self, session_id: &str, query: &str, cancelled: bool) -> (r: Result<
        SearchResult,
        SearchError,
    >)
        ensures
            cancelled ==> r matches Err(SearchError::Cancelled),
            !cancelled ==> (r matches Ok(f) && f.context@ == Seq::<char>::empty() && f.sources@
                == Seq::<Source>::empty()),
    {
        if cancelled {
            return Err(SearchError::Cancelled);
        }
        Ok(SearchResult::default())
    }
}

/// Failures are told apart, and one that gives a reason passes it on.
pub proof fn law_search_failures_are_told_apart(a: SearchError, b: SearchError)
    requires
        a.text_spec() == b.text_spec(),
    ensures
        a is Cancelled <==> b is Cancelled,
        a is Timeout <==> b is Timeout,
        a matches SearchError::Unavailable(m) ==> (b matches SearchError::Unavailable(n) && m@
            == n@),
{
    reveal_strlit("search cancelled");
    reveal_strlit("search unavailable: ");
    reveal_strlit("search timed out");
    assert("search cancelled"@[7] == 'c' && "search timed out"@[7] == 't');
    assert("search unavailable: "@[7] == 'u');
    assert(a.text_spec()[7] == b.text_spec()[7]);
    match (a, b) {
        (SearchError::Unavailable(m), SearchError::Unavailable(n)) => {
            let k = "search unavailable: "@.len() as int;
            assert(a.text_spec().skip(k) =~= m@);
            assert(b.text_spec().skip(k) =~= n@);
        },
        _ => {},
    }
}

} // verus!
