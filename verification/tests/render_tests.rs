use reel::api::TitleData;
use reel::catalog::{get_columns, project};
use reel::cli::Reel;
use reel::render::{render, metascore_tier, rating_tier, Tier};

fn inception() -> TitleData {
    let mut d = TitleData::empty();
    d.title = Some("Inception".to_string());
    d.director = Some("Christopher Nolan".to_string());
    d.year = Some("2010".to_string());
    d.runtime = Some("148 min".to_string());
    d.genre = Some("Action, Adventure, Sci-Fi".to_string());
    d.writer = Some("Christopher Nolan".to_string());
    d.imdb_rating = Some("8.8".to_string());
    d.metascore = Some("74".to_string());
    d
}

fn no_flags(queries: Vec<String>) -> Reel {
    Reel {
        queries,
        year: None,
        writer: false,
        released: false,
        actors: false,
        language: false,
        country: false,
        metascore: false,
        imdb: false,
        box_office: false,
        rating: false,
        awards: false,
        plot: false,
    }
}

#[test]
fn single_title_no_flags_shows_base_rows_in_order() {
    let cfg = no_flags(vec!["Inception".to_string()]);
    let proj = project(&get_columns(), &cfg);
    let rows = render(&inception(), &proj);
    let labels: Vec<&str> = rows.iter().map(|r| r.0.as_str()).collect();
    assert_eq!(labels, vec!["Title", "Director", "Year", "Runtime", "Genre"]);
    assert_eq!(rows[0].1, "Inception");
    assert_eq!(rows[3].1, "148 min");
}

#[test]
fn unknown_fields_are_omitted_not_blank() {
    let mut d = inception();
    d.director = None;
    d.year = Some("N/A".to_string());
    let cfg = no_flags(vec!["Inception".to_string()]);
    let proj = project(&get_columns(), &cfg);
    let rows = render(&d, &proj);
    let labels: Vec<&str> = rows.iter().map(|r| r.0.as_str()).collect();
    assert_eq!(labels, vec!["Title", "Runtime", "Genre"]);
    for r in &rows {
        assert_ne!(r.1, "N/A");
        assert_ne!(r.1, "");
    }
}

#[test]
fn flagged_field_appears_when_known() {
    let mut cfg = no_flags(vec!["Inception".to_string()]);
    cfg.imdb = true;
    let proj = project(&get_columns(), &cfg);
    let rows = render(&inception(), &proj);
    assert!(rows.iter().any(|r| r.0 == "IMDb Rating" && r.1 == "8.8"));
}

#[test]
fn rating_tiers_follow_thresholds() {
    let mut d = inception();
    assert_eq!(rating_tier(&d), Tier::High);
    d.imdb_rating = Some("6.9".to_string());
    assert_eq!(rating_tier(&d), Tier::Mid);
    d.imdb_rating = Some("3.9".to_string());
    assert_eq!(rating_tier(&d), Tier::Low);
    d.imdb_rating = Some("4.0".to_string());
    assert_eq!(rating_tier(&d), Tier::Mid);
    d.imdb_rating = Some("7.0".to_string());
    assert_eq!(rating_tier(&d), Tier::High);
    d.imdb_rating = None;
    assert_eq!(rating_tier(&d), Tier::Low);
}

#[test]
fn metascore_tiers_follow_thresholds() {
    let mut d = inception();
    assert_eq!(metascore_tier(&d), Tier::High);
    d.metascore = Some("69".to_string());
    assert_eq!(metascore_tier(&d), Tier::Mid);
    d.metascore = Some("40".to_string());
    assert_eq!(metascore_tier(&d), Tier::Mid);
    d.metascore = Some("39".to_string());
    assert_eq!(metascore_tier(&d), Tier::Low);
    d.metascore = Some("N/A".to_string());
    assert_eq!(metascore_tier(&d), Tier::Low);
}
