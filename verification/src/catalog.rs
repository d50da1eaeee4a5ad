//! The field catalog: the fixed, ordered list of displayable fields, each
//! tagged with the flag that enables it, and the projection that selects
//! the enabled ones for a given configuration.

use crate::cli::Reel;
use vstd::prelude::*;

verus! {

/// Every displayable field, one variant per catalog entry.
#[derive(Debug, Clone, Copy, PartialEq, Eq, Structural)]
pub enum FieldKey {
    Title,
    Director,
    Year,
    Runtime,
    Genre,
    Writer,
    Released,
    Actors,
    Language,
    Country,
    Metascore,
    ImdbRating,
    BoxOffice,
    Rated,
    Awards,
    Plot,
}

/// One catalog entry: the field it shows and its display header.
#[derive(Debug, Clone, Copy)]
pub struct Column {
    pub key: FieldKey,
    pub header: &'static str,
}

/// The five fields that are shown whatever the configuration.
pub open spec fn is_base_key(k: FieldKey) -> bool {
    k == FieldKey::Title || k == FieldKey::Director || k == FieldKey::Year
        || k == FieldKey::Runtime || k == FieldKey::Genre
}

/// Whether the configuration enables a field: base fields always, every
/// other field on exactly one flag.
pub open spec fn spec_enabled(k: FieldKey, c: Reel) -> bool {
    match k {
        FieldKey::Title => true,
        FieldKey::Director => true,
        FieldKey::Year => true,
        FieldKey::Runtime => true,
        FieldKey::Genre => true,
        FieldKey::Writer => c.writer,
        FieldKey::Released => c.released,
        FieldKey::Actors => c.actors,
        FieldKey::Language => c.language,
        FieldKey::Country => c.country,
        FieldKey::Metascore => c.metascore,
        FieldKey::ImdbRating => c.imdb,
        FieldKey::BoxOffice => c.box_office,
        FieldKey::Rated => c.rating,
        FieldKey::Awards => c.awards,
        FieldKey::Plot => c.plot,
    }
}

/// The display header of each field.
pub open spec fn spec_header(k: FieldKey) -> Seq<char> {
    match k {
        FieldKey::Title => "Title"@,
        FieldKey::Director => "Director"@,
        FieldKey::Year => "Year"@,
        FieldKey::Runtime => "Runtime"@,
        FieldKey::Genre => "Genre"@,
        FieldKey::Writer => "Writer"@,
        FieldKey::Released => "Released"@,
        FieldKey::Actors => "Actors"@,
        FieldKey::Language => "Language"@,
        FieldKey::Country => "Country"@,
        FieldKey::Metascore => "Metascore"@,
        FieldKey::ImdbRating => "IMDb Rating"@,
        FieldKey::BoxOffice => "Box Office"@,
        FieldKey::Rated => "MPA Rating"@,
        FieldKey::Awards => "Awards"@,
        FieldKey::Plot => "Plot"@,
    }
}

/// The display header of a field, as executable text.
pub fn header_of(k: FieldKey) -> (r: &'static str)
    ensures
        r@ == spec_header(k),
{
    match k {
        FieldKey::Title => "Title",
        FieldKey::Director => "Director",
        FieldKey::Year => "Year",
        FieldKey::Runtime => "Runtime",
        FieldKey::Genre => "Genre",
        FieldKey::Writer => "Writer",
        FieldKey::Released => "Released",
        FieldKey::Actors => "Actors",
        FieldKey::Language => "Language",
        FieldKey::Country => "Country",
        FieldKey::Metascore => "Metascore",
        FieldKey::ImdbRating => "IMDb Rating",
        FieldKey::BoxOffice => "Box Office",
        FieldKey::Rated => "MPA Rating",
        FieldKey::Awards => "Awards",
        FieldKey::Plot => "Plot",
    }
}

/// The catalog's key order: the single source of truth for what fields
/// exist and in which order they are shown.
pub open spec fn catalog_keys() -> Seq<FieldKey> {
    seq![
        FieldKey::Title,
        FieldKey::Director,
        FieldKey::Year,
        FieldKey::Runtime,
        FieldKey::Genre,
        FieldKey::Writer,
        FieldKey::Released,
        FieldKey::Actors,
        FieldKey::Language,
        FieldKey::Country,
        FieldKey::Metascore,
        FieldKey::ImdbRating,
        FieldKey::BoxOffice,
        FieldKey::Rated,
        FieldKey::Awards,
        FieldKey::Plot,
    ]
}

impl Column {
    /// Whether this column is shown under the given configuration.
    pub fn enabled(&self, c: &Reel) -> (b: bool)
        ensures
            b == spec_enabled(self.key, *c),
    {
        match self.key {
            FieldKey::Title => true,
            FieldKey::Director => true,
            FieldKey::Year => true,
            FieldKey::Runtime => true,
            FieldKey::Genre => true,
            FieldKey::Writer => c.writer,
            FieldKey::Released => c.released,
            FieldKey::Actors => c.actors,
            FieldKey::Language => c.language,
            FieldKey::Country => c.country,
            FieldKey::Metascore => c.metascore,
            FieldKey::ImdbRating => c.imdb,
            FieldKey::BoxOffice => c.box_office,
            FieldKey::Rated => c.rating,
            FieldKey::Awards => c.awards,
            FieldKey::Plot => c.plot,
        }
    }
}

/// The full ordered catalog: keys follow `catalog_keys`, headers follow
/// `spec_header`, and no key repeats.
pub fn get_columns() -> (r: Vec<Column>)
    ensures
        r@.len() == catalog_keys().len(),
        forall|i: int| 0 <= i < r@.len() ==> (#[trigger] r@[i]).key == catalog_keys()[i],
        forall|i: int| 0 <= i < r@.len() ==> (#[trigger] r@[i]).header@ == spec_header(r@[i].key),
        forall|i: int, j: int| 0 <= i < j < r@.len() ==> r@[i].key != r@[j].key,
{
    let r: Vec<Column> = vec![
        Column { key: FieldKey::Title, header: "Title" },
        Column { key: FieldKey::Director, header: "Director" },
        Column { key: FieldKey::Year, header: "Year" },
        Column { key: FieldKey::Runtime, header: "Runtime" },
        Column { key: FieldKey::Genre, header: "Genre" },
        Column { key: FieldKey::Writer, header: "Writer" },
        Column { key: FieldKey::Released, header: "Released" },
        Column { key: FieldKey::Actors, header: "Actors" },
        Column { key: FieldKey::Language, header: "Language" },
        Column { key: FieldKey::Country, header: "Country" },
        Column { key: FieldKey::Metascore, header: "Metascore" },
        Column { key: FieldKey::ImdbRating, header: "IMDb Rating" },
        Column { key: FieldKey::BoxOffice, header: "Box Office" },
        Column { key: FieldKey::Rated, header: "MPA Rating" },
        Column { key: FieldKey::Awards, header: "Awards" },
        Column { key: FieldKey::Plot, header: "Plot" },
    ];
    r
}

/// The projection: the catalog filtered to the enabled columns, in
/// catalog order.
pub open spec fn project_spec(cols: Seq<Column>, c: Reel) -> Seq<Column>
    decreases cols.len(),
{
    if cols.len() == 0 {
        Seq::empty()
    } else if spec_enabled(cols[0].key, c) {
        seq![cols[0]] + project_spec(cols.skip(1), c)
    } else {
        project_spec(cols.skip(1), c)
    }
}

/// Selects the columns the configuration enables, preserving order.
pub fn project(cols: &Vec<Column>, c: &Reel) -> (r: Vec<Column>)
    ensures
        r@ == project_spec(cols@, *c),
{
    let mut r: Vec<Column> = Vec::new();
    let mut i: usize = 0;
    proof {
        assert(cols@.skip(0) =~= cols@);
        assert(Seq::<Column>::empty() + project_spec(cols@, *c) =~= project_spec(cols@, *c));
    }
    while i < cols.len()
        invariant
            i <= cols@.len(),
            project_spec(cols@, *c) == r@ + project_spec(cols@.skip(i as int), *c),
        decreases cols@.len() - i,
    {
        let col = cols[i];
        proof {
            let rest = cols@.skip(i as int);
            assert(rest.len() > 0);
            assert(rest[0] == cols@[i as int]);
            assert(rest.skip(1) =~= cols@.skip(i as int + 1));
            if spec_enabled(col.key, *c) {
                assert(project_spec(rest, *c) == seq![col] + project_spec(
                    cols@.skip(i as int + 1),
                    *c,
                ));
                assert(r@ + project_spec(rest, *c) =~= (r@ + seq![col]) + project_spec(
                    cols@.skip(i as int + 1),
                    *c,
                ));
            }
        }
        if col.enabled(c) {
            r.push(col);
        }
        i = i + 1;
    }
    proof {
        assert(cols@.skip(cols@.len() as int) =~= Seq::<Column>::empty());
        assert(r@ + Seq::<Column>::empty() =~= r@);
    }
    r
}

/// Law: every enabled column appears in the projection, exactly at the
/// position given by the number of enabled columns before it — so the
/// projection preserves catalog declaration order.
pub proof fn lemma_project_position(cols: Seq<Column>, c: Reel, i: int)
    requires
        0 <= i < cols.len(),
        spec_enabled(cols[i].key, c),
    ensures
        project_spec(cols.take(i), c).len() < project_spec(cols, c).len(),
        project_spec(cols, c)[project_spec(cols.take(i), c).len() as int] == cols[i],
    decreases cols.len(),
{
    if i == 0 {
        assert(cols.take(0) =~= Seq::<Column>::empty());
        assert(project_spec(cols, c)[0] == cols[0]);
    } else {
        let tail = cols.skip(1);
        lemma_project_position(tail, c, i - 1);
        let p_tail = project_spec(tail.take(i - 1), c).len() as int;
        assert(cols.take(i).len() == i);
        assert(cols.take(i)[0] == cols[0]);
        assert(cols.take(i).skip(1) =~= tail.take(i - 1));
        assert(tail[i - 1] == cols[i]);
        if spec_enabled(cols[0].key, c) {
            assert(project_spec(cols.take(i), c) == seq![cols[0]] + project_spec(
                tail.take(i - 1),
                c,
            ));
            assert(project_spec(cols, c) == seq![cols[0]] + project_spec(tail, c));
            assert(project_spec(cols, c)[1 + p_tail] == project_spec(tail, c)[p_tail]);
        } else {
            assert(project_spec(cols.take(i), c) == project_spec(tail.take(i - 1), c));
            assert(project_spec(cols, c) == project_spec(tail, c));
        }
    }
}

/// The count of enabled columns among the first `i` grows by one exactly
/// when column `i` is enabled.
pub proof fn lemma_project_take_step(cols: Seq<Column>, c: Reel, i: int)
    requires
        0 <= i < cols.len(),
    ensures
        project_spec(cols.take(i + 1), c).len() == project_spec(cols.take(i), c).len() + (
        if spec_enabled(cols[i].key, c) {
            1int
        } else {
            0int
        }),
    decreases cols.len(),
{
    if i == 0 {
        assert(cols.take(0) =~= Seq::<Column>::empty());
        assert(cols.take(1)[0] == cols[0]);
        assert(cols.take(1).skip(1) =~= Seq::<Column>::empty());
    } else {
        let tail = cols.skip(1);
        lemma_project_take_step(tail, c, i - 1);
        assert(cols.take(i)[0] == cols[0]);
        assert(cols.take(i).skip(1) =~= tail.take(i - 1));
        assert(cols.take(i + 1)[0] == cols[0]);
        assert(cols.take(i + 1).skip(1) =~= tail.take(i));
        assert(tail[i - 1] == cols[i]);
    }
}

/// Positions in the projection grow along catalog positions.
pub proof fn lemma_project_take_monotonic(cols: Seq<Column>, c: Reel, i: int, j: int)
    requires
        0 <= i <= j <= cols.len(),
    ensures
        project_spec(cols.take(i), c).len() <= project_spec(cols.take(j), c).len(),
    decreases j - i,
{
    if i < j {
        lemma_project_take_step(cols, c, j - 1);
        lemma_project_take_monotonic(cols, c, i, j - 1);
    }
}

/// Law: the projection preserves catalog order. Of two enabled columns the
/// earlier one lands strictly earlier in the projection, and both keep
/// their values.
pub proof fn lemma_project_preserves_order(cols: Seq<Column>, c: Reel, i: int, j: int)
    requires
        0 <= i < j < cols.len(),
        spec_enabled(cols[i].key, c),
        spec_enabled(cols[j].key, c),
    ensures
        ({
            let pi = project_spec(cols.take(i), c).len() as int;
            let pj = project_spec(cols.take(j), c).len() as int;
            &&& pi < pj < project_spec(cols, c).len()
            &&& project_spec(cols, c)[pi] == cols[i]
            &&& project_spec(cols, c)[pj] == cols[j]
        }),
{
    lemma_project_position(cols, c, i);
    lemma_project_position(cols, c, j);
    lemma_project_take_step(cols, c, i);
    lemma_project_take_monotonic(cols, c, i + 1, j);
}

/// Law: a base-field column is projected under every configuration.
pub proof fn lemma_project_includes_base(cols: Seq<Column>, c: Reel, i: int)
    requires
        0 <= i < cols.len(),
        is_base_key(cols[i].key),
    ensures
        project_spec(cols, c).contains(cols[i]),
{
    lemma_project_position(cols, c, i);
    let p = project_spec(cols.take(i), c).len() as int;
    assert(project_spec(cols, c)[p] == cols[i]);
}

} // verus!
