use reel::api::{build_url, combine_fetches, parse_title_payload, TitleData, TitleError};
use reel::cli::{effective_year, validate, Reel};

fn cfg(queries: Vec<String>, year: Option<u16>) -> Reel {
    Reel {
        queries,
        year,
        writer: false,
        released: false,
        actors: false,
        language: false,
        country: false,
        metascore: false,
        imdb: false,
        box_office: false,
        rating: false,
        awards: false,
        plot: false,
    }
}

#[test]
fn url_percent_encodes_every_non_alphanumeric_byte() {
    let url = build_url("demo", "Blade Runner", None);
    assert_eq!(
        url,
        "https://www.omdbapi.com/?apikey=demo&t=Blade%20Runner"
    );
    let url2 = build_url("k", "8½", None);
    assert_eq!(url2, "https://www.omdbapi.com/?apikey=k&t=8%C2%BD");
    let url3 = build_url("k", "a+b&c=d", None);
    assert_eq!(url3, "https://www.omdbapi.com/?apikey=k&t=a%2Bb%26c%3Dd");
}

#[test]
fn url_carries_year_only_when_given() {
    let url = build_url("k", "Heat", Some(1995));
    assert_eq!(url, "https://www.omdbapi.com/?apikey=k&t=Heat&y=1995");
    let url2 = build_url("k", "Heat", None);
    assert_eq!(url2, "https://www.omdbapi.com/?apikey=k&t=Heat");
}

#[test]
fn negative_reply_surfaces_its_own_reason_verbatim() {
    let body = "{\"Response\":\"False\",\"Error\":\"Movie not found!\"}";
    let r = parse_title_payload(body);
    match r {
        Err(TitleError::NotFound(reason)) => {
            assert_eq!(reason, "Movie not found!");
            assert_eq!(TitleError::NotFound(reason).message(), "Movie not found!");
        }
        other => panic!("expected a negative reply, got {:?}", other),
    }
}

#[test]
fn unparseable_body_is_a_decode_failure() {
    assert_eq!(parse_title_payload("not json at all"), Err(TitleError::Decode));
    assert_eq!(parse_title_payload(""), Err(TitleError::Decode));
    assert_eq!(parse_title_payload("[1,2,3]"), Err(TitleError::Decode));
    assert_eq!(parse_title_payload("42"), Err(TitleError::Decode));
}

#[test]
fn successful_payload_maps_fields_and_normalizes_sentinels() {
    let body = "{\"Response\":\"True\",\"Title\":\"Inception\",\"Year\":\"2010\",\
                \"Runtime\":\"148 min\",\"Director\":\"Christopher Nolan\",\
                \"Genre\":\"Sci-Fi\",\"BoxOffice\":\"N/A\",\"imdbRating\":\"8.8\",\
                \"Metascore\":\"74\",\"imdbID\":\"tt1375666\"}";
    let d = parse_title_payload(body).expect("payload should parse");
    assert_eq!(d.title.as_deref(), Some("Inception"));
    assert_eq!(d.year.as_deref(), Some("2010"));
    assert_eq!(d.runtime.as_deref(), Some("148 min"));
    assert_eq!(d.imdb_rating.as_deref(), Some("8.8"));
    assert_eq!(d.imdb_id.as_deref(), Some("tt1375666"));
    assert_eq!(d.box_office, None, "the sentinel value must become unknown");
    assert_eq!(d.writer, None, "an absent field must stay unknown");
}

#[test]
fn joined_fetches_need_both_sides() {
    let mut a = TitleData::empty();
    a.title = Some("Inception".to_string());
    let mut b = TitleData::empty();
    b.title = Some("Interstellar".to_string());
    let ok = combine_fetches(Ok(a.clone()), Ok(b.clone()));
    assert_eq!(ok, Ok((a.clone(), b.clone())));

    let failed = combine_fetches(
        Ok(a.clone()),
        Err(TitleError::NotFound("Movie not found!".to_string())),
    );
    assert_eq!(failed, Err(TitleError::NotFound("Movie not found!".to_string())));

    let failed_left = combine_fetches(
        Err(TitleError::HttpStatus(503)),
        Err(TitleError::NotFound("Movie not found!".to_string())),
    );
    assert_eq!(failed_left, Err(TitleError::HttpStatus(503)));
}

#[test]
fn error_messages_name_their_cause() {
    assert_eq!(
        TitleError::Network("connection refused".to_string()).message(),
        "Request error: connection refused"
    );
    assert_eq!(TitleError::HttpStatus(404).message(), "HTTP status 404");
    assert_eq!(TitleError::Decode.message(), "Malformed response payload");
}

#[test]
fn validation_rejects_blank_and_overfull_queries() {
    assert!(validate(&cfg(vec!["Heat".to_string()], None)));
    assert!(validate(&cfg(vec!["Heat".to_string(), "Ronin".to_string()], None)));
    assert!(!validate(&cfg(vec![], None)));
    assert!(!validate(&cfg(vec!["".to_string()], None)));
    assert!(!validate(&cfg(vec!["   ".to_string()], None)));
    assert!(!validate(&cfg(vec!["Heat".to_string(), "  ".to_string()], None)));
    assert!(!validate(&cfg(
        vec!["a".to_string(), "b".to_string(), "c".to_string()],
        None
    )));
}

#[test]
fn year_is_ignored_in_comparison_mode() {
    let single = cfg(vec!["Heat".to_string()], Some(1995));
    assert_eq!(effective_year(&single), Some(1995));
    let dual = cfg(vec!["Heat".to_string(), "Ronin".to_string()], Some(1995));
    assert_eq!(effective_year(&dual), None);
}
