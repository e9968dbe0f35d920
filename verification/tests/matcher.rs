use lice::{License, Licenses};

fn summary(id: &str, name: &str, reference_number: u32) -> License {
    License {
        name: String::from(name),
        license_id: String::from(id),
        see_also: vec![],
        is_osi_approved: true,
        is_fsf_libre: None,
        is_deprecated_license_id: false,
        reference: None,
        details_url: None,
        reference_number: Some(reference_number),
        license_text: None,
        standard_license_template: None,
        license_text_html: None,
        cross_ref: None,
    }
}

fn catalog(entries: Vec<License>) -> Licenses {
    Licenses {
        license_list_version: String::from("3.16"),
        licenses: entries,
        release_date: String::from("2022-02-06"),
    }
}

#[test]
fn single_match_agrees_with_limit_one() {
    let c = catalog(vec![
        summary("Apache-2.0", "Apache License 2.0", 1),
        summary("MIT", "MIT License", 246),
        summary("GPL-3.0-only", "GNU General Public License v3.0 only", 3),
    ]);
    let best = c.match_license("mit").unwrap();
    let top = c.match_licenses("mit", Some(1));
    assert_eq!(top.len(), 1);
    assert_eq!(top[0], best);
}

#[test]
fn limit_zero_yields_empty() {
    let c = catalog(vec![summary("MIT", "MIT License", 246)]);
    assert!(c.match_licenses("mit", Some(0)).is_empty());
}

#[test]
fn empty_catalog_yields_empty() {
    let c = catalog(vec![]);
    assert!(c.match_licenses("mit", None).is_empty());
    assert!(c.match_licenses("mit", Some(5)).is_empty());
    assert!(c.match_license("mit").is_none());
}

#[test]
fn matching_is_case_insensitive() {
    let c = catalog(vec![
        summary("Apache-2.0", "Apache License 2.0", 1),
        summary("MIT", "MIT License", 246),
    ]);
    for query in ["MIT", "mit", "Mit"] {
        let best = c.match_license(query).unwrap();
        assert_eq!(best.license_id, "MIT");
    }
}

#[test]
fn exact_match_ranks_first_ties_by_catalog_order() {
    let c = catalog(vec![
        summary("MIT", "first", 1),
        summary("mit", "second", 2),
    ]);
    let ranked = c.match_licenses("MIT", None);
    assert_eq!(ranked.len(), 2);
    assert_eq!(ranked[0].name, "first");
    assert_eq!(ranked[1].name, "second");
}

#[test]
fn more_similar_identifier_ranks_higher() {
    let c = catalog(vec![
        summary("Apache-2.0", "Apache License 2.0", 1),
        summary("MIT", "MIT License", 246),
        summary("GPL-3.0-only", "GNU General Public License v3.0 only", 3),
    ]);
    let ranked = c.match_licenses("gpl", None);
    assert_eq!(ranked.len(), 3);
    assert_eq!(ranked[0].license_id, "GPL-3.0-only");
}

#[test]
fn limit_larger_than_catalog_returns_all() {
    let c = catalog(vec![
        summary("MIT", "MIT License", 246),
        summary("ISC", "ISC License", 5),
    ]);
    let ranked = c.match_licenses("mit", Some(10));
    assert_eq!(ranked.len(), 2);
}

#[test]
fn duplicate_identifiers_both_appear() {
    let c = catalog(vec![
        summary("MIT", "first", 1),
        summary("MIT", "second", 2),
    ]);
    let ranked = c.match_licenses("mit", None);
    assert_eq!(ranked.len(), 2);
    assert_eq!(ranked[0].name, "first");
    assert_eq!(ranked[1].name, "second");
}

#[test]
fn default_catalog_is_empty_and_matches_nothing() {
    let c = Licenses::default();
    assert_eq!(c.license_list_version, "");
    assert_eq!(c.release_date, "");
    assert!(c.licenses.is_empty());
    assert!(c.match_license("mit").is_none());
}

#[test]
fn get_license_is_case_sensitive() {
    let c = catalog(vec![summary("MIT", "MIT License", 246)]);
    assert!(c.get_license("MIT").is_some());
    assert!(c.get_license("mit").is_none());
    assert!(c.get_license("ISC").is_none());
}

#[test]
fn get_license_returns_first_match() {
    let c = catalog(vec![
        summary("MIT", "first", 1),
        summary("MIT", "second", 2),
    ]);
    assert_eq!(c.get_license("MIT").unwrap().name, "first");
}

#[test]
fn get_license_case_insensitive_lowercases_both_sides() {
    let c = catalog(vec![summary("MIT", "MIT License", 246)]);
    assert_eq!(
        c.get_license_case_insensitive("mit").unwrap().license_id,
        "MIT"
    );
    assert_eq!(
        c.get_license_case_insensitive("Mit").unwrap().license_id,
        "MIT"
    );
    assert!(c.get_license_case_insensitive("isc").is_none());
}
