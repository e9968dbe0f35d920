use lice::SPDX;

#[test]
fn default_catalog_url() {
    let client = SPDX::new();
    assert_eq!(client.licenses_url(), "https://spdx.org/licenses/licenses.json");
}

#[test]
fn default_detail_url_keeps_identifier_case() {
    let client = SPDX::new();
    assert_eq!(client.license_url("MIT"), "https://spdx.org/licenses/MIT.json");
    assert_eq!(
        client.license_url("GPL-3.0-only"),
        "https://spdx.org/licenses/GPL-3.0-only.json"
    );
}

#[test]
fn custom_base_url() {
    let client = SPDX::with_base_url(String::from("https://registry.example/spdx"));
    assert_eq!(client.licenses_url(), "https://registry.example/spdx/licenses.json");
    assert_eq!(
        client.license_url("ISC"),
        "https://registry.example/spdx/ISC.json"
    );
}
