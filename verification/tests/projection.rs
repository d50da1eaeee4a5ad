use reel::catalog::{get_columns, project, FieldKey};
use reel::cli::Reel;

fn no_flags(queries: Vec<String>) -> Reel {
    Reel {
        queries,
        year: None,
        writer: false,
        released: false,
        actors: false,
        language: false,
        country: false,
        metascore: false,
        imdb: false,
        box_office: false,
        rating: false,
        awards: false,
        plot: false,
    }
}

#[test]
fn catalog_is_complete_and_ordered() {
    let cols = get_columns();
    assert_eq!(cols.len(), 16);
    assert_eq!(cols[0].header, "Title");
    assert_eq!(cols[1].header, "Director");
    assert_eq!(cols[2].header, "Year");
    assert_eq!(cols[3].header, "Runtime");
    assert_eq!(cols[4].header, "Genre");
    assert_eq!(cols[11].header, "IMDb Rating");
    assert_eq!(cols[15].header, "Plot");
    for i in 0..cols.len() {
        for j in (i + 1)..cols.len() {
            assert_ne!(cols[i].key, cols[j].key);
        }
    }
}

#[test]
fn empty_config_projects_exactly_base_five() {
    let cfg = no_flags(vec!["Inception".to_string()]);
    let cols = get_columns();
    let proj = project(&cols, &cfg);
    let headers: Vec<&str> = proj.iter().map(|c| c.header).collect();
    assert_eq!(headers, vec!["Title", "Director", "Year", "Runtime", "Genre"]);
}

#[test]
fn flags_keep_catalog_order() {
    let mut cfg = no_flags(vec!["Inception".to_string()]);
    cfg.plot = true;
    cfg.writer = true;
    cfg.imdb = true;
    let cols = get_columns();
    let proj = project(&cols, &cfg);
    let headers: Vec<&str> = proj.iter().map(|c| c.header).collect();
    assert_eq!(
        headers,
        vec!["Title", "Director", "Year", "Runtime", "Genre", "Writer", "IMDb Rating", "Plot"]
    );
}

#[test]
fn every_flag_enables_its_field() {
    let cols = get_columns();
    let mut cfg = no_flags(vec!["Heat".to_string()]);
    cfg.writer = true;
    cfg.released = true;
    cfg.actors = true;
    cfg.language = true;
    cfg.country = true;
    cfg.metascore = true;
    cfg.imdb = true;
    cfg.box_office = true;
    cfg.rating = true;
    cfg.awards = true;
    cfg.plot = true;
    let proj = project(&cols, &cfg);
    assert_eq!(proj.len(), 16);
    let keys: Vec<FieldKey> = proj.iter().map(|c| c.key).collect();
    let all: Vec<FieldKey> = cols.iter().map(|c| c.key).collect();
    assert_eq!(keys, all);
}
