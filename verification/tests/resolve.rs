use lice::{resolve_candidate, resolve_detail, CrossRef, Error, License, Licenses};

fn mit_summary() -> License {
    License {
        name: String::from("MIT License"),
        license_id: String::from("MIT"),
        see_also: vec![String::from("https://opensource.org/licenses/MIT")],
        is_osi_approved: true,
        is_fsf_libre: Some(true),
        is_deprecated_license_id: false,
        reference: Some(String::from("https://spdx.org/licenses/MIT.html")),
        details_url: Some(String::from("https://spdx.org/licenses/MIT.json")),
        reference_number: Some(246),
        license_text: None,
        standard_license_template: None,
        license_text_html: None,
        cross_ref: None,
    }
}

fn mit_detail() -> License {
    License {
        name: String::from("MIT License"),
        license_id: String::from("MIT"),
        see_also: vec![String::from("https://opensource.org/licenses/MIT")],
        is_osi_approved: true,
        is_fsf_libre: Some(true),
        is_deprecated_license_id: false,
        reference: None,
        details_url: None,
        reference_number: None,
        license_text: Some(String::from("...")),
        standard_license_template: Some(String::from("...")),
        license_text_html: Some(String::from("...")),
        cross_ref: Some(vec![CrossRef {
            match_label: String::from("N/A"),
            url: String::from("https://opensource.org/licenses/MIT"),
            is_valid: true,
            is_live: false,
            timestamp: String::from("2023-10-05T15:11:54Z"),
            is_way_back_link: false,
            order: 0,
        }]),
    }
}

fn mit_catalog() -> Licenses {
    Licenses {
        license_list_version: String::from("3.16"),
        licenses: vec![mit_summary()],
        release_date: String::from("2022-02-06"),
    }
}

#[test]
fn resolve_scenario_merges_summary_and_detail() {
    let matched = resolve_candidate(Ok(mit_catalog()), "mit").unwrap();
    assert_eq!(matched.license_id, "MIT");
    let merged = resolve_detail(matched, Ok(mit_detail())).unwrap();
    assert_eq!(merged.license_id, "MIT");
    assert_eq!(merged.license_text, Some(String::from("...")));
    assert_eq!(merged.reference_number, Some(246));
    assert_eq!(
        merged.reference,
        Some(String::from("https://spdx.org/licenses/MIT.html"))
    );
    assert_eq!(merged.cross_ref, mit_detail().cross_ref);
}

#[test]
fn empty_catalog_resolves_to_no_match() {
    let empty = Licenses {
        license_list_version: String::from("3.16"),
        licenses: vec![],
        release_date: String::from("2022-02-06"),
    };
    assert_eq!(resolve_candidate(Ok(empty), "mit"), Err(Error::NoMatch));
}

#[test]
fn transport_failure_propagates_and_is_not_no_match() {
    let r = resolve_candidate(Err(Error::Transport), "mit");
    assert_eq!(r, Err(Error::Transport));
    assert_ne!(r, Err(Error::NoMatch));
}

#[test]
fn decode_failure_propagates_from_list_fetch() {
    assert_eq!(
        resolve_candidate(Err(Error::Decode), "mit"),
        Err(Error::Decode)
    );
}

#[test]
fn not_found_propagates_unchanged_from_detail_fetch() {
    let r = resolve_detail(mit_summary(), Err(Error::NotFound));
    assert_eq!(r, Err(Error::NotFound));
    assert_ne!(r, Err(Error::Decode));
}

#[test]
fn transport_failure_propagates_from_detail_fetch() {
    assert_eq!(
        resolve_detail(mit_summary(), Err(Error::Transport)),
        Err(Error::Transport)
    );
}

#[test]
fn merge_is_idempotent() {
    let detail = mit_detail();
    let merged = detail.clone().merge(mit_detail());
    assert_eq!(merged, detail);
}

#[test]
fn merge_keeps_listing_fields_the_detail_lacks() {
    let merged = mit_summary().merge(mit_detail());
    assert_eq!(merged.reference_number, Some(246));
    assert_eq!(
        merged.reference,
        Some(String::from("https://spdx.org/licenses/MIT.html"))
    );
    assert_eq!(
        merged.details_url,
        Some(String::from("https://spdx.org/licenses/MIT.json"))
    );
}

#[test]
fn merge_takes_detail_fields_over_base_fields() {
    let mut base = mit_summary();
    base.name = String::from("stale name");
    base.is_fsf_libre = None;
    let merged = base.merge(mit_detail());
    assert_eq!(merged.name, "MIT License");
    assert_eq!(merged.is_fsf_libre, Some(true));
    assert_eq!(merged.license_text, Some(String::from("...")));
}
