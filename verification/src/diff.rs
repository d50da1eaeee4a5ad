//! The difference reporter: for the fixed numeric-bearing fields, both
//! sides are stripped of units and parsed; a row is reported only when both
//! parse, with the unsigned delta and the field's unit.

use crate::api::TitleData;
use crate::api::spec_field;
use crate::api::value_of;
use crate::catalog::FieldKey;
use crate::catalog::header_of;
use crate::catalog::spec_header;
use crate::num::extract_num;
use crate::num::extract_spec;
use vstd::prelude::*;

verus! {

/// A field eligible for numeric differencing and its unit token.
#[derive(Debug, Clone, Copy)]
pub struct NumericField {
    pub key: FieldKey,
    pub unit: &'static str,
}

/// The fixed differencing table: duration, critic score, community
/// rating, gross revenue.
pub open spec fn numeric_table() -> Seq<(FieldKey, Seq<char>)> {
    seq![
        (FieldKey::Runtime, "min"@),
        (FieldKey::Metascore, ""@),
        (FieldKey::ImdbRating, ""@),
        (FieldKey::BoxOffice, "$"@),
    ]
}

/// The spec view of a table of numeric fields.
pub open spec fn table_view(fs: Seq<NumericField>) -> Seq<(FieldKey, Seq<char>)> {
    fs.map_values(|f: NumericField| (f.key, f.unit@))
}

/// The fields eligible for differencing, with their units.
pub fn numeric_fields() -> (r: Vec<NumericField>)
    ensures
        table_view(r@) == numeric_table(),
{
    let r: Vec<NumericField> = vec![
        NumericField { key: FieldKey::Runtime, unit: "min" },
        NumericField { key: FieldKey::Metascore, unit: "" },
        NumericField { key: FieldKey::ImdbRating, unit: "" },
        NumericField { key: FieldKey::BoxOffice, unit: "$" },
    ];
    proof {
        reveal_strlit("min");
        reveal_strlit("");
        reveal_strlit("$");
        assert(table_view(r@) =~= numeric_table());
    }
    r
}

/// The scaled numeric reading of a payload field: present, stripped,
/// parsed.
pub open spec fn field_num(d: TitleData, k: FieldKey) -> Option<int> {
    match spec_field(d, k) {
        Some(s) => extract_spec(s@),
        None => None,
    }
}

/// The difference report: one row per table entry on which both sides
/// parse, carrying header, both scaled values, the unsigned delta, and
/// the unit.
pub open spec fn diff_spec(a: TitleData, b: TitleData, table: Seq<(FieldKey, Seq<char>)>) -> Seq<
    (Seq<char>, int, int, int, Seq<char>),
>
    decreases table.len(),
{
    if table.len() == 0 {
        Seq::empty()
    } else {
        let rest = diff_spec(a, b, table.skip(1));
        let k = table[0].0;
        match (field_num(a, k), field_num(b, k)) {
            (Some(va), Some(vb)) => seq![
                (
                    spec_header(k),
                    va,
                    vb,
                    if va >= vb {
                        va - vb
                    } else {
                        vb - va
                    },
                    table[0].1,
                ),
            ] + rest,
            _ => rest,
        }
    }
}

/// One reported difference: both scaled values, their unsigned delta, and
/// the field's unit.
#[derive(Debug, Clone, PartialEq, Eq)]
pub struct DiffRow {
    pub header: String,
    pub left: u64,
    pub right: u64,
    pub delta: u64,
    pub unit: String,
}

/// The views of reported rows.
pub open spec fn diff_rows_view(s: Seq<DiffRow>) -> Seq<(Seq<char>, int, int, int, Seq<char>)> {
    s.map_values(
        |r: DiffRow| (r.header@, r.left as int, r.right as int, r.delta as int, r.unit@),
    )
}

fn field_value_num(d: &TitleData, k: FieldKey) -> (r: Option<u64>)
    ensures
        r is Some <==> field_num(*d, k) is Some,
        r is Some ==> r.unwrap() as int == field_num(*d, k).unwrap(),
{
    match value_of(d, k) {
        Some(s) => extract_num(s.as_str()),
        None => None,
    }
}

/// Reports, for each eligible field that parses on both sides, the two
/// scaled values and their unsigned difference. A side that is missing or
/// unparseable skips the field silently.
pub fn diff(a: &TitleData, b: &TitleData, fields: &Vec<NumericField>) -> (r: Vec<DiffRow>)
    ensures
        diff_rows_view(r@) == diff_spec(*a, *b, table_view(fields@)),
{
    let ghost table = table_view(fields@);
    let mut r: Vec<DiffRow> = Vec::new();
    let mut i: usize = 0;
    proof {
        assert(table.skip(0) =~= table);
        assert(diff_rows_view(r@) =~= Seq::<(Seq<char>, int, int, int, Seq<char>)>::empty());
        assert(diff_rows_view(r@) + diff_spec(*a, *b, table) =~= diff_spec(*a, *b, table));
    }
    while i < fields.len()
        invariant
            i <= fields@.len(),
            table == table_view(fields@),
            diff_spec(*a, *b, table) == diff_rows_view(r@) + diff_spec(
                *a,
                *b,
                table.skip(i as int),
            ),
        decreases fields@.len() - i,
    {
        let f = fields[i];
        proof {
            let rest = table.skip(i as int);
            assert(rest[0] == table[i as int]);
            assert(table[i as int] == (f.key, f.unit@));
            assert(rest.skip(1) =~= table.skip(i as int + 1));
        }
        let va = field_value_num(a, f.key);
        let vb = field_value_num(b, f.key);
        match (va, vb) {
            (Some(na), Some(nb)) => {
                let delta = if na >= nb {
                    na - nb
                } else {
                    nb - na
                };
                let row = DiffRow {
                    header: header_of(f.key).to_owned(),
                    left: na,
                    right: nb,
                    delta,
                    unit: f.unit.to_owned(),
                };
                let ghost prev = r@;
                r.push(row);
                proof {
                    assert(diff_rows_view(r@) =~= diff_rows_view(prev) + seq![
                        (
                            spec_header(f.key),
                            na as int,
                            nb as int,
                            if na as int >= nb as int {
                                na as int - nb as int
                            } else {
                                nb as int - na as int
                            },
                            f.unit@,
                        ),
                    ]);
                    assert(diff_rows_view(prev) + diff_spec(*a, *b, table.skip(i as int))
                        =~= diff_rows_view(r@) + diff_spec(*a, *b, table.skip(i as int + 1)));
                }
            },
            _ => {},
        }
        i = i + 1;
    }
    proof {
        assert(table.skip(fields@.len() as int) =~= Seq::<
            (FieldKey, Seq<char>),
        >::empty());
        assert(diff_rows_view(r@) + Seq::<(Seq<char>, int, int, int, Seq<char>)>::empty()
            =~= diff_rows_view(r@));
    }
    r
}

/// Law: differencing is symmetric. Swapping the two titles swaps each
/// row's sides and changes nothing else — in particular every unsigned
/// delta is identical.
pub proof fn lemma_diff_symmetric(a: TitleData, b: TitleData, table: Seq<(FieldKey, Seq<char>)>)
    ensures
        diff_spec(a, b, table).len() == diff_spec(b, a, table).len(),
        forall|i: int|
            0 <= i < diff_spec(a, b, table).len() ==> {
                let ra = #[trigger] diff_spec(a, b, table)[i];
                let rb = diff_spec(b, a, table)[i];
                ra.0 == rb.0 && ra.1 == rb.2 && ra.2 == rb.1 && ra.3 == rb.3 && ra.4 == rb.4
            },
    decreases table.len(),
{
    if table.len() > 0 {
        lemma_diff_symmetric(a, b, table.skip(1));
    }
}

} // verus!
