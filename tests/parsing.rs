use geohierarchy::models::GeoName;
use geohierarchy::parsers::{parse_alternate_name_line, parse_geoname_line, ParseError};
use geohierarchy::text::{parse_i64, split_tab_fields};

fn chars(s: &str) -> Vec<char> {
    s.chars().collect()
}

fn record(class: char, code: &str) -> GeoName {
    GeoName {
        geoname_id: 1,
        name: "X".to_string(),
        feature_class: class,
        feature_code: code.to_string(),
        country_code: "TL".to_string(),
        admin1_code: String::new(),
    }
}

#[test]
fn split_keeps_empty_fields() {
    let fs = split_tab_fields("a\t\tb\t");
    assert_eq!(fs, vec![chars("a"), vec![], chars("b"), vec![]]);
    assert_eq!(split_tab_fields(""), vec![Vec::<char>::new()]);
}

#[test]
fn integers_are_read_with_sign_and_range() {
    assert_eq!(parse_i64(&chars("6295630")), Some(6295630));
    assert_eq!(parse_i64(&chars("-42")), Some(-42));
    assert_eq!(parse_i64(&chars("+7")), Some(7));
    assert_eq!(parse_i64(&chars("9223372036854775807")), Some(i64::MAX));
    assert_eq!(parse_i64(&chars("-9223372036854775808")), Some(i64::MIN));
    assert_eq!(parse_i64(&chars("9223372036854775808")), None);
    assert_eq!(parse_i64(&chars("")), None);
    assert_eq!(parse_i64(&chars("-")), None);
    assert_eq!(parse_i64(&chars("12a")), None);
    assert_eq!(parse_i64(&chars(" 12")), None);
}

#[test]
fn gazetteer_line_is_read_by_column() {
    let line = "3\tState One\tstate one\t\t1.0\t2.0\tA\tADM1\tTL\t\t01\t\t\t\t0";
    let g = parse_geoname_line(line).unwrap();
    assert_eq!(g.geoname_id, 3);
    assert_eq!(g.name, "State One");
    assert_eq!(g.feature_class, 'A');
    assert_eq!(g.feature_code, "ADM1");
    assert_eq!(g.country_code, "TL");
    assert_eq!(g.admin1_code, "01");
}

#[test]
fn gazetteer_round_trip_of_columns() {
    let fields = ["2", "Testville", "", "", "", "", "P", "PPL", "TL", "", "01"];
    let g = parse_geoname_line(&fields.join("\t")).unwrap();
    let again = [
        g.geoname_id.to_string(),
        g.name.clone(),
        String::new(),
        String::new(),
        String::new(),
        String::new(),
        g.feature_class.to_string(),
        g.feature_code.clone(),
        g.country_code.clone(),
        String::new(),
        g.admin1_code.clone(),
    ];
    assert_eq!(again.join("\t"), fields.join("\t"));
}

#[test]
fn gazetteer_short_line_defaults_to_empty() {
    let g = parse_geoname_line("5\tSomewhere").unwrap();
    assert_eq!(g.geoname_id, 5);
    assert_eq!(g.name, "Somewhere");
    assert_eq!(g.feature_class, ' ');
    assert_eq!(g.feature_code, "");
    assert_eq!(g.country_code, "");
    assert_eq!(g.admin1_code, "");
}

#[test]
fn gazetteer_bad_id_is_an_error() {
    assert_eq!(parse_geoname_line("x1\tName").unwrap_err(), ParseError::InvalidGeonameId);
    assert_eq!(parse_geoname_line("").unwrap_err(), ParseError::InvalidGeonameId);
}

#[test]
fn alternate_line_with_all_fields() {
    let e = parse_alternate_name_line("10\t6252001\ten\tUSA\t1\t\t0\tx\t1900\t2000").unwrap();
    assert_eq!(e.alternate_name_id, 10);
    assert_eq!(e.geoname_id, 6252001);
    assert_eq!(e.isolanguage, "en");
    assert_eq!(e.alternate_name, "USA");
    assert_eq!(e.is_preferred_name, Some(true));
    assert_eq!(e.is_short_name, Some(false));
    assert_eq!(e.is_colloquial, Some(false));
    assert_eq!(e.is_historic, Some(false));
    assert_eq!(e.from.as_deref(), Some("1900"));
    assert_eq!(e.to.as_deref(), Some("2000"));
}

#[test]
fn alternate_line_any_number_of_optional_fields() {
    let extras = ["1", "0", "1", "0", "a", "b"];
    for n in 0..=extras.len() {
        let mut parts = vec!["11", "3", "de", "Land"];
        parts.extend_from_slice(&extras[..n]);
        let e = parse_alternate_name_line(&parts.join("\t")).unwrap();
        assert_eq!(e.alternate_name_id, 11);
        assert_eq!(e.geoname_id, 3);
        assert_eq!(e.isolanguage, "de");
        assert_eq!(e.alternate_name, "Land");
        assert_eq!(e.is_preferred_name, if n > 0 { Some(true) } else { None });
        assert_eq!(e.is_short_name, if n > 1 { Some(false) } else { None });
        assert_eq!(e.to.is_some(), n > 5);
    }
}

#[test]
fn alternate_line_errors() {
    assert_eq!(parse_alternate_name_line("1\t2\ten").unwrap_err(), ParseError::TooFewFields);
    assert_eq!(parse_alternate_name_line("a\t2\ten\tX").unwrap_err(), ParseError::InvalidAlternateNameId);
    assert_eq!(parse_alternate_name_line("1\tb\ten\tX").unwrap_err(), ParseError::InvalidGeonameId);
}

#[test]
fn classification_by_class_and_code() {
    assert!(record('L', "CONT").is_continent());
    assert!(record('A', "PCLI").is_country());
    assert!(record('A', "PCLF").is_country());
    assert!(record('A', "PCLS").is_country());
    assert!(!record('A', "PCL").is_country());
    assert!(!record('P', "PCLI").is_country());
    assert!(record('A', "ADM1").is_state_region());
    assert!(!record('A', "ADM2").is_state_region());
    assert!(record('P', "PPL").is_city_town());
    assert!(!record('P', "PPLA").is_city_town());
    assert!(!record('L', "CONTX").is_continent());
}
