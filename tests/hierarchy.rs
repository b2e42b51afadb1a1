use geohierarchy::hierarchy::{build_hierarchy, state_key_of, HierarchyBuilder, EARTH_ID};
use geohierarchy::models::{AlternateNameEntry, GeoName};
use geohierarchy::names::NameResolver;

fn rec(id: i64, name: &str, class: char, code: &str, country: &str, admin1: &str) -> GeoName {
    GeoName {
        geoname_id: id,
        name: name.to_string(),
        feature_class: class,
        feature_code: code.to_string(),
        country_code: country.to_string(),
        admin1_code: admin1.to_string(),
    }
}

fn alt(geoname_id: i64, lang: &str, name: &str, preferred: Option<bool>, short: Option<bool>) -> AlternateNameEntry {
    AlternateNameEntry {
        alternate_name_id: 1,
        geoname_id,
        isolanguage: lang.to_string(),
        alternate_name: name.to_string(),
        is_preferred_name: preferred,
        is_short_name: short,
        is_colloquial: None,
        is_historic: None,
        from: None,
        to: None,
    }
}

fn children(h: &geohierarchy::table::NodeTable, id: i64) -> Vec<(i64, String)> {
    h.get(id).unwrap().children.iter().map(|c| (c.id, c.name.clone())).collect()
}

#[test]
fn country_without_state_puts_city_in_bucket() {
    let names = NameResolver::with_default_overrides();
    let recs = vec![
        rec(1, "Testland", 'A', "PCLI", "TL", ""),
        rec(2, "Testville", 'P', "PPL", "TL", "01"),
    ];
    let h = build_hierarchy(&recs, &names);
    assert_eq!(children(&h.nodes, EARTH_ID), vec![(1, "Testland".to_string())]);
    assert_eq!(children(&h.unparented, 1), vec![(2, "Testville".to_string())]);
    assert_eq!(h.unparented.get(1).unwrap().name, "Testland");
    assert!(h.nodes.get(2).is_none());
}

#[test]
fn matching_state_takes_the_city() {
    let names = NameResolver::with_default_overrides();
    let recs = vec![
        rec(1, "Testland", 'A', "PCLI", "TL", ""),
        rec(2, "Testville", 'P', "PPL", "TL", "01"),
        rec(3, "Test State", 'A', "ADM1", "TL", "01"),
    ];
    let h = build_hierarchy(&recs, &names);
    assert_eq!(children(&h.nodes, 3), vec![(2, "Testville".to_string())]);
    assert_eq!(children(&h.nodes, 1), vec![(3, "Test State".to_string())]);
    assert!(h.unparented.get(1).is_none());
    assert_eq!(h.unparented.len(), 0);
}

#[test]
fn earth_node_is_seeded() {
    let names = NameResolver::new();
    let h = build_hierarchy(&Vec::new(), &names);
    assert_eq!(h.nodes.len(), 1);
    assert_eq!(h.nodes.id_at(0), 6295630);
    assert_eq!(h.nodes.get(EARTH_ID).unwrap().name, "Earth");
    assert!(h.nodes.get(EARTH_ID).unwrap().children.is_empty());
}

#[test]
fn city_without_state_or_country_is_dropped() {
    let names = NameResolver::new();
    let recs = vec![rec(2, "Lost", 'P', "PPL", "ZZ", "01"), rec(9, "Hill", 'T', "HLL", "ZZ", "")];
    let h = build_hierarchy(&recs, &names);
    assert_eq!(h.nodes.len(), 1);
    assert_eq!(h.unparented.len(), 0);
}

#[test]
fn later_country_with_same_code_wins_the_index() {
    let names = NameResolver::new();
    let recs = vec![
        rec(1, "Old", 'A', "PCLI", "TL", ""),
        rec(4, "New", 'A', "PCLF", "TL", ""),
        rec(2, "Town", 'P', "PPL", "TL", "07"),
    ];
    let h = build_hierarchy(&recs, &names);
    assert_eq!(children(&h.nodes, EARTH_ID), vec![(1, "Old".to_string()), (4, "New".to_string())]);
    assert_eq!(children(&h.unparented, 4), vec![(2, "Town".to_string())]);
    assert!(h.unparented.get(1).is_none());
}

#[test]
fn duplicate_country_records_are_not_deduplicated() {
    let names = NameResolver::new();
    let recs = vec![rec(1, "A", 'A', "PCLI", "TL", ""), rec(1, "A", 'A', "PCLI", "TL", "")];
    let h = build_hierarchy(&recs, &names);
    assert_eq!(children(&h.nodes, EARTH_ID).len(), 2);
    assert_eq!(h.nodes.len(), 2);
}

#[test]
fn building_twice_gives_the_same_result() {
    let names = NameResolver::new();
    let recs = vec![
        rec(1, "Testland", 'A', "PCLI", "TL", ""),
        rec(3, "S1", 'A', "ADM1", "TL", "01"),
        rec(5, "S2", 'A', "ADM1", "TL", "02"),
        rec(2, "C1", 'P', "PPL", "TL", "02"),
        rec(6, "C2", 'P', "PPL", "TL", "01"),
        rec(7, "C3", 'P', "PPL", "TL", "09"),
    ];
    let a = build_hierarchy(&recs, &names);
    let b = build_hierarchy(&recs, &names);
    for t in [(&a.nodes, &b.nodes), (&a.unparented, &b.unparented)] {
        assert_eq!(t.0.len(), t.1.len());
        for i in 0..t.0.len() {
            let id = t.0.id_at(i);
            assert_eq!(id, t.1.id_at(i));
            assert_eq!(children(t.0, id), children(t.1, id));
        }
    }
    assert_eq!(children(&a.nodes, 1), vec![(3, "S1".to_string()), (5, "S2".to_string())]);
    assert_eq!(children(&a.unparented, 1), vec![(7, "C3".to_string())]);
}

#[test]
fn city_with_resolving_state_is_not_unparented() {
    let names = NameResolver::new();
    let recs = vec![
        rec(1, "Testland", 'A', "PCLI", "TL", ""),
        rec(3, "S", 'A', "ADM1", "TL", "01"),
        rec(2, "C", 'P', "PPL", "TL", "01"),
    ];
    let h = build_hierarchy(&recs, &names);
    assert_eq!(children(&h.nodes, 3), vec![(2, "C".to_string())]);
    assert_eq!(h.unparented.len(), 0);
}

#[test]
fn names_prefer_override_then_alternate_then_raw() {
    let mut names = NameResolver::with_default_overrides();
    names.add_alternate(&alt(6252001, "en", "USA", Some(true), None));
    names.add_alternate(&alt(1, "en", "Testia", None, Some(true)));
    assert_eq!(names.resolve(6252001, "United States"), "United States of America");
    assert_eq!(names.resolve(1, "Testland"), "Testia");
    assert_eq!(names.resolve(2, "Testville"), "Testville");
    names.add_override(1, "Override".to_string());
    assert_eq!(names.resolve(1, "Testland"), "Override");
}

#[test]
fn alternates_need_english_and_a_mark() {
    let mut names = NameResolver::new();
    names.add_alternate(&alt(1, "de", "Testlandia", Some(true), Some(true)));
    names.add_alternate(&alt(2, "en", "Plain", Some(false), None));
    names.add_alternate(&alt(3, "en", "First", Some(true), None));
    names.add_alternate(&alt(3, "en", "Second", None, Some(true)));
    assert_eq!(names.resolve(1, "raw"), "raw");
    assert_eq!(names.resolve(2, "raw"), "raw");
    assert_eq!(names.resolve(3, "raw"), "Second");
}

#[test]
fn resolved_names_label_every_node_and_child() {
    let mut names = NameResolver::new();
    names.add_alternate(&alt(1, "en", "Testia", Some(true), None));
    names.add_alternate(&alt(2, "en", "Villa", Some(true), None));
    let recs = vec![rec(1, "Testland", 'A', "PCLI", "TL", ""), rec(2, "Testville", 'P', "PPL", "TL", "")];
    let h = build_hierarchy(&recs, &names);
    assert_eq!(children(&h.nodes, EARTH_ID), vec![(1, "Testia".to_string())]);
    assert_eq!(h.nodes.get(1).unwrap().name, "Testia");
    assert_eq!(h.unparented.get(1).unwrap().name, "Testia");
    assert_eq!(children(&h.unparented, 1), vec![(2, "Villa".to_string())]);
}

#[test]
fn builder_streams_records() {
    let names = NameResolver::new();
    let mut b = HierarchyBuilder::new();
    b.add_record(&rec(1, "Testland", 'A', "PCLI", "TL", ""), &names);
    b.add_record(&rec(3, "S", 'A', "ADM1", "TL", "01"), &names);
    let h = b.finish(&names);
    assert_eq!(children(&h.nodes, 1), vec![(3, "S".to_string())]);
    assert_eq!(state_key_of("TL", "01"), "TL.01");
}
