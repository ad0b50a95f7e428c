//! The index families by name, and the read-side rules on queries and
//! category facets.
use vstd::prelude::*;

use crate::json::same_text;

verus! {

/// The three document families, each stored in an index of its own.
#[derive(PartialEq, Eq, Structural, Clone, Copy, Debug, Hash)]
pub enum IndexKind {
    Artifact,
    Zignature,
    Block,
}

impl IndexKind {
    pub open spec fn name_of(self) -> Seq<char> {
        match self {
            IndexKind::Artifact => "artifact"@,
            IndexKind::Zignature => "zignature"@,
            IndexKind::Block => "block"@,
        }
    }

    /// The family's name, which also names its index directory.
    pub fn name(&self) -> (r: &'static str)
        ensures
            r@ == self.name_of(),
    {
        match self {
            IndexKind::Artifact => "artifact",
            IndexKind::Zignature => "zignature",
            IndexKind::Block => "block",
        }
    }

    /// The family of the given name; an error for any other text.
    pub fn parse(s: &str) -> (r: Result<IndexKind, &'static str>)
        ensures
            match r {
                Ok(k) => k.name_of() == s@,
                Err(e) => e@ == "invalid schema kind"@ && forall|k: IndexKind|
                    #[trigger] k.name_of() != s@,
            },
    {
        proof {
            reveal_strlit("artifact");
            reveal_strlit("zignature");
            reveal_strlit("block");
        }
        if same_text(s, "artifact") {
            Ok(IndexKind::Artifact)
        } else if same_text(s, "zignature") {
            Ok(IndexKind::Zignature)
        } else if same_text(s, "block") {
            Ok(IndexKind::Block)
        } else {
            proof {
                assert forall|k: IndexKind| #[trigger] k.name_of() != s@ by {
                    match k {
                        IndexKind::Artifact => {},
                        IndexKind::Zignature => {},
                        IndexKind::Block => {},
                    }
                }
            }
            Err("invalid schema kind")
        }
    }
}

/// The query text that restricts `term` to the documents under `category`.
pub open spec fn restricted_query(term: Seq<char>, category: Seq<char>) -> Seq<char> {
    term + " +category:"@ + category
}

/// Restricts a query term to the documents under a category facet.
pub fn search_query(term: &str, category: &str) -> (r: String)
    ensures
        r@ == restricted_query(term@, category@),
{
    term.to_string().concat(" +category:").concat(category)
}

/// How many times `c` occurs in `s`.
pub open spec fn count_char(s: Seq<char>, c: char) -> nat
    decreases s.len(),
{
    if s.len() == 0 {
        0
    } else {
        count_char(s.drop_last(), c) + if s.last() == c {
            1nat
        } else {
            0nat
        }
    }
}

/// Whether the facet counts below `facet` are to be gathered too: a facet
/// is expanded while it has fewer than three levels, that is, fewer than
/// three `/`.
pub fn expands_facet(facet: &str) -> (r: bool)
    ensures
        r == (count_char(facet@, '/') < 3),
{
    let cs = crate::text::chars_of(facet);
    let mut n: usize = 0;
    let mut k: usize = 0;
    while k < cs.len()
        invariant
            cs@ == facet@,
            k <= cs@.len(),
            n == count_char(cs@.take(k as int), '/'),
            n <= k,
        decreases cs.len() - k,
    {
        assert(cs@.take(k + 1).drop_last() == cs@.take(k as int));
        if cs[k] == '/' {
            n = n + 1;
        }
        k = k + 1;
    }
    assert(cs@.take(cs@.len() as int) == cs@);
    n < 3
}

} // verus!
