use reel::api::TitleData;
use reel::catalog::{get_columns, project};
use reel::cli::Reel;
use reel::compare::{compare_field, render_comparison, split_words_exec, wrap_words, COLUMN_WIDTH};

fn base_cfg(queries: Vec<String>) -> Reel {
    Reel {
        queries,
        year: None,
        writer: false,
        released: false,
        actors: false,
        language: false,
        country: false,
        metascore: false,
        imdb: false,
        box_office: false,
        rating: false,
        awards: false,
        plot: false,
    }
}

#[test]
fn splitting_drops_empty_fragments() {
    let words = split_words_exec("  to  be   or not  ");
    let expect: Vec<&str> = vec!["to", "be", "or", "not"];
    let got: Vec<&str> = words.iter().map(|w| w.as_str()).collect();
    assert_eq!(got, expect);
}

#[test]
fn wrapping_never_splits_words() {
    let words = split_words_exec("alpha beta gamma delta epsilon");
    let lines = wrap_words(&words, 11);
    let got: Vec<&str> = lines.iter().map(|l| l.as_str()).collect();
    assert_eq!(got, vec!["alpha beta", "gamma delta", "epsilon"]);
    for l in &lines {
        assert!(l.chars().count() <= 11);
    }
}

#[test]
fn overlong_word_stands_alone_unbroken() {
    let words = split_words_exec("a honorificabilitudinitatibus b");
    let lines = wrap_words(&words, 10);
    let got: Vec<&str> = lines.iter().map(|l| l.as_str()).collect();
    assert_eq!(got, vec!["a", "honorificabilitudinitatibus", "b"]);
}

#[test]
fn uneven_sides_pad_the_shorter_one() {
    // 45 characters on the left wrap to two lines at width 40; ten on the
    // right stay on one. The field must yield exactly two rows.
    let left = "aaaaaaaaaaaaaaaaaaaa bbbbbbbbbbbbbbbbbbbbbbbb";
    let right = "just short";
    assert_eq!(left.chars().count(), 45);
    assert_eq!(right.chars().count(), 10);
    let rows = compare_field("Plot", left, right, 40);
    assert_eq!(rows.len(), 2);
    assert_eq!(rows[0].0, "Plot");
    assert_eq!(rows[1].0, "");
    let mut expect_row0 = String::new();
    expect_row0.push_str("aaaaaaaaaaaaaaaaaaaa");
    expect_row0.push_str(&" ".repeat(20));
    expect_row0.push_str("just short");
    expect_row0.push_str(&" ".repeat(30));
    assert_eq!(rows[0].1, expect_row0);
    let mut expect_row1 = String::new();
    expect_row1.push_str("bbbbbbbbbbbbbbbbbbbbbbbb");
    expect_row1.push_str(&" ".repeat(16));
    expect_row1.push_str(&" ".repeat(40));
    assert_eq!(rows[1].1, expect_row1);
}

#[test]
fn both_sides_empty_yield_no_rows() {
    let rows = compare_field("Plot", "", "", 40);
    assert_eq!(rows.len(), 0);
}

#[test]
fn comparison_uses_placeholder_for_absent_fields() {
    let mut a = TitleData::empty();
    a.title = Some("Inception".to_string());
    a.director = Some("Christopher Nolan".to_string());
    a.year = Some("2010".to_string());
    a.runtime = Some("148 min".to_string());
    a.genre = Some("Sci-Fi".to_string());
    let mut b = TitleData::empty();
    b.title = Some("Interstellar".to_string());
    b.director = Some("Christopher Nolan".to_string());
    b.year = Some("2014".to_string());
    b.runtime = Some("169 min".to_string());
    // genre left unknown on the right side
    let cfg = base_cfg(vec!["Inception".to_string(), "Interstellar".to_string()]);
    let proj = project(&get_columns(), &cfg);
    let rows = render_comparison(&a, &b, &proj);
    let genre_row = rows.iter().find(|r| r.0 == "Genre").expect("genre row");
    assert!(genre_row.1.starts_with("Sci-Fi"));
    assert!(genre_row.1.contains("unknown"));
}

#[test]
fn comparison_keeps_first_title_on_the_left() {
    let mut a = TitleData::empty();
    a.title = Some("Inception".to_string());
    let mut b = TitleData::empty();
    b.title = Some("Interstellar".to_string());
    let cfg = base_cfg(vec!["Inception".to_string(), "Interstellar".to_string()]);
    let proj = project(&get_columns(), &cfg);
    let rows = render_comparison(&a, &b, &proj);
    let title_row = rows.iter().find(|r| r.0 == "Title").expect("title row");
    assert_eq!(title_row.1.chars().count(), 2 * COLUMN_WIDTH);
    assert!(title_row.1.starts_with("Inception"));
    assert!(title_row.1[COLUMN_WIDTH..].starts_with("Interstellar"));
}

#[test]
fn imdb_flag_adds_rating_pair_to_comparison() {
    let mut a = TitleData::empty();
    a.title = Some("Inception".to_string());
    a.imdb_rating = Some("8.8".to_string());
    let mut b = TitleData::empty();
    b.title = Some("Interstellar".to_string());
    b.imdb_rating = Some("8.6".to_string());
    let mut cfg = base_cfg(vec!["Inception".to_string(), "Interstellar".to_string()]);
    cfg.imdb = true;
    let proj = project(&get_columns(), &cfg);
    let rows = render_comparison(&a, &b, &proj);
    let rating_row = rows.iter().find(|r| r.0 == "IMDb Rating").expect("rating row");
    assert!(rating_row.1.starts_with("8.8"));
    assert!(rating_row.1[COLUMN_WIDTH..].starts_with("8.6"));
}
