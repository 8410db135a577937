//! Patterns that select files.

use crate::text::{clone_strings, texts};
use vstd::prelude::*;

verus! {

/// A selection of files by patterns to include and to exclude.
#[derive(Debug, Hash)]
pub enum Pattern {
    /// Everything that one of the patterns matches.
    Includes(Vec<String>),
    /// Everything that one of `includes` matches and none of `excludes`
    /// does.
    IncludesAndExcludes { includes: Option<Vec<String>>, excludes: Option<Vec<String>> },
}

impl Pattern {
    /// A pattern with both lists.
    pub fn new(includes: Vec<String>, excludes: Vec<String>) -> (r: Pattern)
        ensures
            r == (Pattern::IncludesAndExcludes {
                includes: Some(includes),
                excludes: Some(excludes),
            }),
    {
        Pattern::IncludesAndExcludes { includes: Some(includes), excludes: Some(excludes) }
    }
}

/// The texts of a list that may be missing.
pub open spec fn texts_if_any(list: Option<Vec<String>>) -> Option<Seq<Seq<char>>> {
    match list {
        Some(l) => Some(texts(l@)),
        None => None,
    }
}

fn clone_if_any(list: &Option<Vec<String>>) -> (r: Option<Vec<String>>)
    ensures
        texts_if_any(r) == texts_if_any(*list),
{
    match list {
        Some(l) => Some(clone_strings(l)),
        None => None,
    }
}

impl Clone for Pattern {
    fn clone(&self) -> (r: Pattern)
        ensures
            match (*self, r) {
                (Pattern::Includes(a), Pattern::Includes(b)) => texts(a@) == texts(b@),
                (
                    Pattern::IncludesAndExcludes { includes: a, excludes: b },
                    Pattern::IncludesAndExcludes { includes: c, excludes: d },
                ) => texts_if_any(a) == texts_if_any(c) && texts_if_any(b) == texts_if_any(d),
                _ => false,
            },
    {
        match self {
            Pattern::Includes(list) => Pattern::Includes(clone_strings(list)),
            Pattern::IncludesAndExcludes { includes, excludes } => Pattern::IncludesAndExcludes {
                includes: clone_if_any(includes),
                excludes: clone_if_any(excludes),
            },
        }
    }
}

} // verus!
