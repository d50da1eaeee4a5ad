//! Single-title rendering: the projected columns become (header, value)
//! rows; a field that is unknown is omitted outright, never shown blank.

use crate::api::TitleData;
use crate::api::spec_field;
use crate::api::value_of;
use crate::catalog::Column;
use crate::catalog::FieldKey;
use crate::diff::field_num;
use crate::num::extract_num;
use crate::num::extract_spec;
use vstd::prelude::*;

verus! {

/// The wire's sentinel for a field with no known value.
pub open spec fn na_seq() -> Seq<char> {
    "N/A"@
}

/// Whether a field value is displayed: it must be present and must not be
/// the unknown sentinel.
pub open spec fn shown(v: Option<String>) -> bool {
    &&& v is Some
    &&& v.unwrap()@ != na_seq()
}

/// The rows of a rendered title: for each column in order, its header and
/// the raw value, with unknown fields omitted.
pub open spec fn render_spec(d: TitleData, cols: Seq<Column>) -> Seq<(Seq<char>, Seq<char>)>
    decreases cols.len(),
{
    if cols.len() == 0 {
        Seq::empty()
    } else {
        let rest = render_spec(d, cols.skip(1));
        if shown(spec_field(d, cols[0].key)) {
            seq![(cols[0].header@, spec_field(d, cols[0].key).unwrap()@)] + rest
        } else {
            rest
        }
    }
}

/// The views of rendered (header, value) pairs.
pub open spec fn rows_view(s: Seq<(String, String)>) -> Seq<(Seq<char>, Seq<char>)> {
    s.map_values(|p: (String, String)| (p.0@, p.1@))
}

fn is_na(s: &String) -> (r: bool)
    ensures
        r == (s@ == na_seq()),
{
    let na = String::from_str("N/A");
    s.eq(&na)
}

/// Renders one title against the given columns: one (header, value) row
/// per column whose value is known.
pub fn render(d: &TitleData, cols: &Vec<Column>) -> (r: Vec<(String, String)>)
    ensures
        rows_view(r@) == render_spec(*d, cols@),
{
    let mut r: Vec<(String, String)> = Vec::new();
    let mut i: usize = 0;
    proof {
        assert(cols@.skip(0) =~= cols@);
        assert(rows_view(r@) =~= Seq::<(Seq<char>, Seq<char>)>::empty());
        assert(rows_view(r@) + render_spec(*d, cols@) =~= render_spec(*d, cols@));
    }
    while i < cols.len()
        invariant
            i <= cols@.len(),
            render_spec(*d, cols@) == rows_view(r@) + render_spec(*d, cols@.skip(i as int)),
        decreases cols@.len() - i,
    {
        let col = cols[i];
        proof {
            let rest = cols@.skip(i as int);
            assert(rest[0] == cols@[i as int]);
            assert(rest.skip(1) =~= cols@.skip(i as int + 1));
        }
        let v = value_of(d, col.key);
        match v {
            Some(s) => {
                if !is_na(&s) {
                    let header = col.header.to_owned();
                    let ghost prev = r@;
                    r.push((header, s));
                    proof {
                        assert(rows_view(r@) =~= rows_view(prev) + seq![
                            (col.header@, spec_field(*d, cols@[i as int].key).unwrap()@),
                        ]);
                        assert(rows_view(prev) + render_spec(*d, cols@.skip(i as int)) =~= rows_view(
                            r@,
                        ) + render_spec(*d, cols@.skip(i as int + 1)));
                    }
                } else {
                    proof {
                        assert(!shown(spec_field(*d, cols@[i as int].key)));
                    }
                }
            },
            None => {
                proof {
                    assert(!shown(spec_field(*d, cols@[i as int].key)));
                }
            },
        }
        i = i + 1;
    }
    proof {
        assert(cols@.skip(cols@.len() as int) =~= Seq::<Column>::empty());
        assert(rows_view(r@) + Seq::<(Seq<char>, Seq<char>)>::empty() =~= rows_view(r@));
    }
    r
}

/// Law: no rendered row ever carries the unknown sentinel as its value.
pub proof fn lemma_render_no_sentinel(d: TitleData, cols: Seq<Column>, i: int)
    requires
        0 <= i < render_spec(d, cols).len(),
    ensures
        render_spec(d, cols)[i].1 != na_seq(),
    decreases cols.len(),
{
    if cols.len() > 0 {
        let rest = render_spec(d, cols.skip(1));
        if shown(spec_field(d, cols[0].key)) {
            if i > 0 {
                lemma_render_no_sentinel(d, cols.skip(1), i - 1);
            }
        } else {
            lemma_render_no_sentinel(d, cols.skip(1), i);
        }
    }
}

/// How favorably a score is styled.
#[derive(Debug, Clone, Copy, PartialEq, Eq, Structural)]
pub enum Tier {
    High,
    Mid,
    Low,
}

/// The tier of a scaled score against two thresholds; an unknown or
/// unparseable score ranks lowest.
pub open spec fn spec_tier(v: Option<int>, hi: int, lo: int) -> Tier {
    match v {
        Some(n) => if n >= hi {
            Tier::High
        } else if n >= lo {
            Tier::Mid
        } else {
            Tier::Low
        },
        None => Tier::Low,
    }
}

fn tier_of(v: Option<String>, hi: u64, lo: u64) -> (t: Tier)
    requires
        lo <= hi,
    ensures
        t == spec_tier(
            match v {
                Some(s) => extract_spec(s@),
                None => None,
            },
            hi as int,
            lo as int,
        ),
{
    match v {
        Some(s) => match extract_num(s.as_str()) {
            Some(n) => {
                if n >= hi {
                    Tier::High
                } else if n >= lo {
                    Tier::Mid
                } else {
                    Tier::Low
                }
            },
            None => Tier::Low,
        },
        None => Tier::Low,
    }
}

/// The community rating's display tier: favorable from 7.0, moderate
/// from 4.0.
pub fn rating_tier(d: &TitleData) -> (t: Tier)
    ensures
        t == spec_tier(field_num(*d, FieldKey::ImdbRating), 700, 400),
{
    tier_of(value_of(d, FieldKey::ImdbRating), 700, 400)
}

/// The critic score's display tier: favorable from 70, moderate from 40.
pub fn metascore_tier(d: &TitleData) -> (t: Tier)
    ensures
        t == spec_tier(field_num(*d, FieldKey::Metascore), 7000, 4000),
{
    tier_of(value_of(d, FieldKey::Metascore), 7000, 4000)
}

} // verus!
