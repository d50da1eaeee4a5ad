//! Resolved invocation configuration: one or two title queries, an optional
//! release year, and the boolean display flags.

use vstd::prelude::*;

verus! {

/// The user's resolved choices. One or two title queries; the year narrows
/// the lookup only when a single title is queried.
#[derive(Debug, Clone, PartialEq, Eq)]
pub struct Reel {
    pub queries: Vec<String>,
    pub year: Option<u16>,
    pub writer: bool,
    pub released: bool,
    pub actors: bool,
    pub language: bool,
    pub country: bool,
    pub metascore: bool,
    pub imdb: bool,
    pub box_office: bool,
    pub rating: bool,
    pub awards: bool,
    pub plot: bool,
}

/// A string with no visible content: empty or spaces only.
pub open spec fn is_blank(s: Seq<char>) -> bool {
    forall|i: int| 0 <= i < s.len() ==> s[i] == ' '
}

/// A configuration is acceptable when it carries one or two queries and
/// none of them is blank.
pub open spec fn config_ok(c: Reel) -> bool {
    &&& 1 <= c.queries@.len() <= 2
    &&& forall|i: int| 0 <= i < c.queries@.len() ==> !is_blank(#[trigger] c.queries@[i]@)
}

fn has_visible_char(s: &str) -> (r: bool)
    ensures
        r == !is_blank(s@),
{
    let n = s.unicode_len();
    let mut i: usize = 0;
    while i < n
        invariant
            i <= n,
            n == s@.len(),
            forall|j: int| 0 <= j < i ==> s@[j] == ' ',
        decreases n - i,
    {
        if s.get_char(i) != ' ' {
            return true;
        }
        i = i + 1;
    }
    false
}

/// Decides whether the configuration may proceed to any lookup: it must
/// carry one or two queries, none of them blank.
pub fn validate(c: &Reel) -> (r: bool)
    ensures
        r == config_ok(*c),
{
    if c.queries.len() < 1 || c.queries.len() > 2 {
        return false;
    }
    let mut i: usize = 0;
    while i < c.queries.len()
        invariant
            i <= c.queries@.len(),
            1 <= c.queries@.len() <= 2,
            forall|j: int| 0 <= j < i ==> !is_blank(#[trigger] c.queries@[j]@),
        decreases c.queries@.len() - i,
    {
        if !has_visible_char(c.queries[i].as_str()) {
            return false;
        }
        i = i + 1;
    }
    true
}

/// The year actually sent with a lookup: the configured year for a single
/// query, nothing when two titles are compared.
pub open spec fn spec_effective_year(c: Reel) -> Option<u16> {
    if c.queries@.len() == 1 {
        c.year
    } else {
        None
    }
}

/// Applies the dual-title rule: a year filter is meaningful only when a
/// single title is queried.
pub fn effective_year(c: &Reel) -> (y: Option<u16>)
    ensures
        y == spec_effective_year(*c),
{
    if c.queries.len() == 1 {
        c.year
    } else {
        None
    }
}

} // verus!
