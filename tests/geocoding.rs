use geocsv::columns::{find_header, parse_index, resolve_selector, ColumnError, ColumnSelectors, Columns, Role};
use geocsv::pacing::{RequestPacer, REQUEST_PAUSE_MS};
use geocsv::pipeline::geocoded_row;
use geocsv::reply::{coordinates_of, read_reply, reply_coordinates, reply_fields, Json, ReplyFields};
use geocsv::row::{field_or_empty, fill_coordinates, output_header, SearchQuery};

fn strings(v: &[&str]) -> Vec<String> {
    v.iter().map(|s| s.to_string()).collect()
}

fn selectors(street: &str, postalcode: &str, city: &str, country: &str, lat: &str, lng: &str) -> ColumnSelectors {
    ColumnSelectors {
        street: street.to_string(),
        postalcode: postalcode.to_string(),
        city: city.to_string(),
        country: country.to_string(),
        lat: lat.to_string(),
        lng: lng.to_string(),
    }
}

fn header() -> Vec<String> {
    strings(&["name", "street", "zip", "city", "country", "lat", "lng"])
}

#[test]
fn parse_index_reads_digits() {
    assert_eq!(parse_index("0"), Some(0));
    assert_eq!(parse_index("42"), Some(42));
    assert_eq!(parse_index("007"), Some(7));
    assert_eq!(parse_index("+3"), Some(3));
    assert_eq!(parse_index(""), None);
    assert_eq!(parse_index("+"), None);
    assert_eq!(parse_index("-1"), None);
    assert_eq!(parse_index("1a"), None);
    assert_eq!(parse_index(" 1"), None);
    assert_eq!(parse_index("street"), None);
}

#[test]
fn parse_index_agrees_with_usize_parser() {
    let max = usize::MAX.to_string();
    assert_eq!(parse_index(&max), Some(usize::MAX));
    let over = format!("{}0", max);
    assert_eq!(parse_index(&over), None);
    for s in ["12", "+12", "0012", "", "+", "x1", "18446744073709551616"] {
        assert_eq!(parse_index(s), s.parse::<usize>().ok());
    }
}

#[test]
fn numeric_selector_wins_over_header_text() {
    let h = strings(&["7", "a", "0"]);
    assert_eq!(resolve_selector(&h, &"0".to_string()), Some(0));
    assert_eq!(resolve_selector(&h, &"7".to_string()), Some(7));
}

#[test]
fn name_selector_takes_first_match() {
    let h = strings(&["a", "b", "a"]);
    assert_eq!(find_header(&h, &"a".to_string()), Some(0));
    assert_eq!(find_header(&h, &"b".to_string()), Some(1));
    assert_eq!(find_header(&h, &"c".to_string()), None);
    assert_eq!(resolve_selector(&h, &"c".to_string()), None);
}

#[test]
fn oversized_number_is_read_as_a_name() {
    let big = "99999999999999999999999".to_string();
    let h = strings(&["x", &big]);
    assert_eq!(resolve_selector(&h, &big), Some(1));
}

#[test]
fn columns_by_name_and_index() {
    let opts = selectors("street", "2", "city", "4", "lat", "lng");
    let c = Columns::from_opts_and_header(&opts, &header()).unwrap();
    assert_eq!(c, Columns { street: 1, postalcode: 2, city: 3, country: 4, lat: 5, lng: 6 });
}

#[test]
fn country_selector_uses_its_own_text() {
    let opts = selectors("1", "2", "3", "country", "lat", "lng");
    let c = Columns::from_opts_and_header(&opts, &header()).unwrap();
    assert_eq!(c.country, 4);
    assert_eq!(c.postalcode, 2);
}

#[test]
fn out_of_range_index_is_accepted() {
    let opts = selectors("100", "2", "3", "4", "lat", "lng");
    let c = Columns::from_opts_and_header(&opts, &header()).unwrap();
    assert_eq!(c.street, 100);
}

#[test]
fn missing_input_column_is_reported() {
    let opts = selectors("street", "postcode", "city", "nation", "lat", "lng");
    match Columns::from_opts_and_header(&opts, &header()) {
        Err(ColumnError::ColumnNotFound { role, selector }) => {
            assert_eq!(role, Role::Postalcode);
            assert_eq!(selector, "postcode");
        }
        Ok(_) => panic!("resolution should fail"),
    }
}

#[test]
fn missing_lat_column_is_reported() {
    let opts = selectors("street", "zip", "city", "country", "latitude", "lng");
    match Columns::from_opts_and_header(&opts, &header()) {
        Err(ColumnError::ColumnNotFound { role, selector }) => {
            assert_eq!(role, Role::Lat);
            assert_eq!(selector, "latitude");
        }
        Ok(_) => panic!("resolution should fail"),
    }
}

#[test]
fn lat_is_never_read_as_an_index() {
    let opts = selectors("street", "zip", "city", "country", "5", "lng");
    match Columns::from_opts_and_header(&opts, &header()) {
        Err(ColumnError::ColumnNotFound { role, .. }) => assert_eq!(role, Role::Lat),
        Ok(_) => panic!("resolution should fail"),
    }
}

#[test]
fn missing_lng_column_is_reported() {
    let opts = selectors("street", "zip", "city", "country", "lat", "lon");
    match Columns::from_opts_and_header(&opts, &header()) {
        Err(ColumnError::ColumnNotFound { role, selector }) => {
            assert_eq!(role, Role::Lng);
            assert_eq!(selector, "lon");
        }
        Ok(_) => panic!("resolution should fail"),
    }
}

#[test]
fn header_is_copied_verbatim() {
    let h = strings(&["a, b", "\"q\"", "", "x"]);
    assert_eq!(output_header(&h), h);
    assert_eq!(output_header(&Vec::new()), Vec::<String>::new());
}

#[test]
fn fill_replaces_only_coordinate_columns() {
    let c = Columns { street: 1, postalcode: 2, city: 3, country: 4, lat: 5, lng: 6 };
    let row = strings(&["Louvre", "1 Rue de Rivoli", "75001", "Paris", "France", "old", "old2"]);
    let out = fill_coordinates(&row, &c, &"48.85".to_string(), &"2.35".to_string());
    assert_eq!(out, strings(&["Louvre", "1 Rue de Rivoli", "75001", "Paris", "France", "48.85", "2.35"]));
}

#[test]
fn fill_with_equal_indices_keeps_longitude() {
    let c = Columns { street: 0, postalcode: 0, city: 0, country: 0, lat: 1, lng: 1 };
    let row = strings(&["a", "b", "c"]);
    let out = fill_coordinates(&row, &c, &"10".to_string(), &"20".to_string());
    assert_eq!(out, strings(&["a", "20", "c"]));
}

#[test]
fn fill_keeps_row_length_when_columns_lie_beyond() {
    let c = Columns { street: 0, postalcode: 0, city: 0, country: 0, lat: 5, lng: 6 };
    let row = strings(&["a", "b"]);
    let out = fill_coordinates(&row, &c, &"1".to_string(), &"2".to_string());
    assert_eq!(out, row);
}

#[test]
fn fill_with_empty_coordinates() {
    let c = Columns { street: 0, postalcode: 0, city: 0, country: 0, lat: 0, lng: 2 };
    let row = strings(&["a", "b", "c"]);
    let out = fill_coordinates(&row, &c, &String::new(), &String::new());
    assert_eq!(out, strings(&["", "b", ""]));
}

#[test]
fn short_row_gives_empty_fields() {
    let row = strings(&["a"]);
    assert_eq!(field_or_empty(&row, 0), "a");
    assert_eq!(field_or_empty(&row, 3), "");
}

#[test]
fn query_from_record() {
    let c = Columns { street: 1, postalcode: 2, city: 3, country: 9, lat: 5, lng: 6 };
    let row = strings(&["Louvre", "1 Rue de Rivoli", "75001", "Paris"]);
    let q = SearchQuery::from_record(&"my-api-key".to_string(), &row, &c);
    assert_eq!(q.key, "my-api-key");
    assert_eq!(q.street, "1 Rue de Rivoli");
    assert_eq!(q.postalcode, "75001");
    assert_eq!(q.city, "Paris");
    assert_eq!(q.country, "");
    assert_eq!(q.format, "json");
    let p = q.params();
    let names: Vec<&str> = p.iter().map(|(n, _)| n.as_str()).collect();
    assert_eq!(names, vec!["key", "street", "postalcode", "city", "country", "format"]);
    assert_eq!(p[1].1, "1 Rue de Rivoli");
    assert_eq!(p[5].1, "json");
}

#[test]
fn reply_with_result_gives_coordinates() {
    let c = reply_coordinates(r#"[{"lat":"48.85","lon":"2.35"}]"#);
    assert_eq!(c.lat, "48.85");
    assert_eq!(c.lng, "2.35");
    assert!(!c.is_missing());
}

#[test]
fn reply_reads_only_first_result() {
    let f = read_reply(r#"[{"lat":"1","lon":"2"},{"lat":"3","lon":"4"}]"#);
    assert_eq!(f.lat.as_deref(), Some("1"));
    assert_eq!(f.lon.as_deref(), Some("2"));
}

#[test]
fn empty_reply_gives_empty_coordinates() {
    let c = reply_coordinates("[]");
    assert_eq!(c.lat, "");
    assert_eq!(c.lng, "");
    assert!(c.is_missing());
}

#[test]
fn invalid_reply_gives_empty_coordinates() {
    for text in ["not json", "", "[{\"lat\":", "<html>error</html>"] {
        let c = reply_coordinates(text);
        assert_eq!(c.lat, "");
        assert_eq!(c.lng, "");
        assert!(c.is_missing());
    }
}

#[test]
fn non_string_fields_are_empty() {
    let c = reply_coordinates(r#"[{"lat":48.85,"lon":"2.35"}]"#);
    assert_eq!(c.lat, "");
    assert_eq!(c.lng, "2.35");
    assert!(!c.is_missing());
    let c = reply_coordinates(r#"{"error":"Unable to geocode"}"#);
    assert!(c.is_missing());
    let c = reply_coordinates(r#"[{"lat":"1"}]"#);
    assert_eq!(c.lat, "1");
    assert_eq!(c.lng, "");
}

#[test]
fn coordinates_of_fields() {
    let c = coordinates_of(&ReplyFields { lat: Some("5".to_string()), lon: None });
    assert_eq!(c.lat, "5");
    assert_eq!(c.lng, "");
}

#[test]
fn geocoded_row_scenario() {
    let h = strings(&["street", "postalcode", "city", "country", "lat", "lng"]);
    let opts = selectors("street", "postalcode", "city", "country", "lat", "lng");
    let cols = Columns::from_opts_and_header(&opts, &h).unwrap();
    let row = strings(&["1 Rue de Rivoli", "75001", "Paris", "France", "", ""]);
    let q = SearchQuery::from_record(&"k".to_string(), &row, &cols);
    assert_eq!((q.street.as_str(), q.postalcode.as_str(), q.city.as_str(), q.country.as_str()),
        ("1 Rue de Rivoli", "75001", "Paris", "France"));
    let coords = reply_coordinates(r#"[{"lat":"48.85","lon":"2.35"}]"#);
    let out = fill_coordinates(&row, &cols, &coords.lat, &coords.lng);
    assert_eq!(out, strings(&["1 Rue de Rivoli", "75001", "Paris", "France", "48.85", "2.35"]));
    assert_eq!(output_header(&h), h);
}

#[test]
fn table_keeps_row_count_and_widths() {
    let h = strings(&["street", "lat", "lng", "note"]);
    let opts = selectors("0", "0", "0", "0", "lat", "lng");
    let cols = Columns::from_opts_and_header(&opts, &h).unwrap();
    let rows = vec![strings(&["a", "", "", "x"]), strings(&["b", "1", "2", "y"]), strings(&["c"])];
    let replies = ["[]", r#"[{"lat":"3","lon":"4"}]"#, "oops"];
    let out: Vec<Vec<String>> = rows
        .iter()
        .zip(replies.iter())
        .map(|(r, t)| {
            let c = reply_coordinates(t);
            fill_coordinates(r, &cols, &c.lat, &c.lng)
        })
        .collect();
    assert_eq!(out.len(), rows.len());
    for (o, r) in out.iter().zip(rows.iter()) {
        assert_eq!(o.len(), r.len());
        assert_eq!(o[0], r[0]);
    }
    assert_eq!(out[0], strings(&["a", "", "", "x"]));
    assert_eq!(out[1], strings(&["b", "3", "4", "y"]));
}

#[test]
fn pacer_spaces_requests() {
    let mut p = RequestPacer::new(0);
    assert_eq!(p.pause_ms(), 2000);
    assert_eq!(REQUEST_PAUSE_MS, 2000);
    assert_eq!(p.wait_left(0), 2000);
    assert!(!p.try_issue(1999));
    assert!(p.try_issue(2000));
    assert_eq!(p.wait_left(3000), 1000);
    assert!(!p.try_issue(3999));
    assert_eq!(p.last_mark_ms, 2000);
    assert_eq!(p.wait_left(1000), 2000);
    assert!(p.try_issue(4000));
    assert_eq!(p.wait_left(4000), 2000);
    assert_eq!(p.wait_left(6000), 0);
    assert!(p.try_issue(6000));
}

#[test]
fn pacer_first_request_waits_from_start() {
    let mut p = RequestPacer::new(500);
    assert_eq!(p.wait_left(500), 2000);
    assert_eq!(p.wait_left(1500), 1000);
    assert!(!p.try_issue(2499));
    assert!(p.try_issue(2500));
}

fn paris_reply() -> Json {
    Json::Array(vec![Json::Object(vec![
        ("lat".to_string(), Json::Str("48.85".to_string())),
        ("lon".to_string(), Json::Str("2.35".to_string())),
    ])])
}

#[test]
fn reply_fields_of_model() {
    let f = reply_fields(&paris_reply());
    assert_eq!(f.lat.as_deref(), Some("48.85"));
    assert_eq!(f.lon.as_deref(), Some("2.35"));
    let f = reply_fields(&Json::Array(vec![]));
    assert!(f.lat.is_none() && f.lon.is_none());
    let f = reply_fields(&Json::Object(vec![("lat".to_string(), Json::Str("1".to_string()))]));
    assert!(f.lat.is_none() && f.lon.is_none());
    let f = reply_fields(&Json::Array(vec![Json::Object(vec![
        ("lat".to_string(), Json::Number("48.85".to_string())),
        ("lon".to_string(), Json::Null),
    ])]));
    assert!(f.lat.is_none() && f.lon.is_none());
    let f = reply_fields(&Json::Array(vec![
        Json::Str("x".to_string()),
        Json::Object(vec![("lat".to_string(), Json::Str("1".to_string()))]),
    ]));
    assert!(f.lat.is_none());
}

#[test]
fn reply_fields_take_first_member_of_a_name() {
    let f = reply_fields(&Json::Array(vec![Json::Object(vec![
        ("lat".to_string(), Json::Str("1".to_string())),
        ("lat".to_string(), Json::Str("2".to_string())),
        ("lon".to_string(), Json::Bool(true)),
    ])]));
    assert_eq!(f.lat.as_deref(), Some("1"));
    assert!(f.lon.is_none());
}

#[test]
fn three_replies_fill_three_rows() {
    let h = strings(&["street", "postalcode", "city", "country", "lat", "lng"]);
    let opts = selectors("street", "postalcode", "city", "country", "lat", "lng");
    let cols = Columns::from_opts_and_header(&opts, &h).unwrap();
    let rows = vec![
        strings(&["a", "1", "b", "c", "x", "y"]),
        strings(&["d", "2", "e", "f", "x", "y"]),
        strings(&["g", "3", "h", "i", "x", "y"]),
    ];
    let replies = ["[]", "not json", r#"[{"lat":"1.5","lon":"2.5"}]"#];
    let out: Vec<Vec<String>> = rows
        .iter()
        .zip(replies.iter())
        .map(|(r, t)| geocoded_row(r, &cols, t).0)
        .collect();
    assert_eq!(out, vec![
        strings(&["a", "1", "b", "c", "", ""]),
        strings(&["d", "2", "e", "f", "", ""]),
        strings(&["g", "3", "h", "i", "1.5", "2.5"]),
    ]);
}

#[test]
fn geocoded_row_gives_row_and_coordinates() {
    let cols = Columns { street: 0, postalcode: 1, city: 2, country: 3, lat: 4, lng: 5 };
    let row = strings(&["1 Rue de Rivoli", "75001", "Paris", "France", "", ""]);
    let (out, c) = geocoded_row(&row, &cols, r#"[{"lat":"48.85","lon":"2.35"}]"#);
    assert_eq!(out, strings(&["1 Rue de Rivoli", "75001", "Paris", "France", "48.85", "2.35"]));
    assert_eq!(c.lat, "48.85");
    assert_eq!(c.lng, "2.35");
    let (out, c) = geocoded_row(&row, &cols, r#"[{"lat":12,"lon":"2.35"}]"#);
    assert_eq!(out[4], "");
    assert_eq!(out[5], "2.35");
    assert!(!c.is_missing());
}
