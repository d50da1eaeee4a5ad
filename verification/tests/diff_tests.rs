use reel::api::TitleData;
use reel::diff::{diff, numeric_fields};
use reel::num::{extract_num, format_scaled, format_with_unit, parse_scaled, strip_units};

fn with_numbers(runtime: &str, metascore: &str, imdb: &str, box_office: &str) -> TitleData {
    let mut d = TitleData::empty();
    d.runtime = Some(runtime.to_string());
    d.metascore = Some(metascore.to_string());
    d.imdb_rating = Some(imdb.to_string());
    d.box_office = Some(box_office.to_string());
    d
}

#[test]
fn stripping_then_parsing_round_trips_units() {
    assert_eq!(extract_num("142 min"), Some(14200));
    assert_eq!(extract_num("$1,234,567"), Some(123456700));
    assert_eq!(format_scaled(14200), "142.00");
    assert_eq!(format_scaled(123456700), "1234567.00");
}

#[test]
fn parsing_handles_decimals_and_rejects_junk() {
    assert_eq!(parse_scaled("8.8"), Some(880));
    assert_eq!(parse_scaled("8.85"), Some(885));
    assert_eq!(parse_scaled("74"), Some(7400));
    assert_eq!(parse_scaled("0.07"), Some(7));
    assert_eq!(parse_scaled(""), None);
    assert_eq!(parse_scaled("."), None);
    assert_eq!(parse_scaled("8."), None);
    assert_eq!(parse_scaled(".8"), None);
    assert_eq!(parse_scaled("N/A"), None);
    assert_eq!(extract_num("N/A"), None);
    assert_eq!(strip_units("$1,234,567"), "1234567");
}

#[test]
fn formatting_keeps_two_decimals() {
    assert_eq!(format_scaled(20), "0.20");
    assert_eq!(format_scaled(7), "0.07");
    assert_eq!(format_scaled(0), "0.00");
    assert_eq!(format_with_unit(2700, "min"), "27.00 min");
    assert_eq!(format_with_unit(2700, ""), "27.00");
}

#[test]
fn diff_reports_absolute_deltas_with_units() {
    let a = with_numbers("148 min", "74", "8.8", "$292,587,330");
    let b = with_numbers("169 min", "74", "8.6", "$188,020,017");
    let rows = diff(&a, &b, &numeric_fields());
    assert_eq!(rows.len(), 4);
    assert_eq!(rows[0].header, "Runtime");
    assert_eq!(rows[0].delta, 2100);
    assert_eq!(rows[0].unit, "min");
    assert_eq!(rows[1].header, "Metascore");
    assert_eq!(rows[1].delta, 0);
    assert_eq!(rows[2].header, "IMDb Rating");
    assert_eq!(rows[2].delta, 20);
    assert_eq!(format_scaled(rows[2].delta), "0.20");
    assert_eq!(rows[3].header, "Box Office");
    assert_eq!(rows[3].delta, 10456731300);
}

#[test]
fn diff_is_symmetric_in_its_deltas() {
    let a = with_numbers("148 min", "74", "8.8", "$292,587,330");
    let mut b = with_numbers("169 min", "91", "8.6", "$188,020,017");
    b.metascore = None;
    let fields = numeric_fields();
    let ab = diff(&a, &b, &fields);
    let ba = diff(&b, &a, &fields);
    assert_eq!(ab.len(), ba.len());
    for (x, y) in ab.iter().zip(ba.iter()) {
        assert_eq!(x.header, y.header);
        assert_eq!(x.delta, y.delta);
        assert_eq!(x.unit, y.unit);
        assert_eq!(x.left, y.right);
        assert_eq!(x.right, y.left);
    }
}

#[test]
fn unparseable_side_skips_the_field_silently() {
    let a = with_numbers("148 min", "74", "8.8", "$292,587,330");
    let mut b = with_numbers("169 min", "74", "8.6", "$188,020,017");
    b.runtime = Some("N/A".to_string());
    b.box_office = None;
    let rows = diff(&a, &b, &numeric_fields());
    let headers: Vec<&str> = rows.iter().map(|r| r.header.as_str()).collect();
    assert_eq!(headers, vec!["Metascore", "IMDb Rating"]);
}
