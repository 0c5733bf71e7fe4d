use affilify::parser::{find_catalog_id, find_region, link_of_parts, parse_amazon_url};
use regex::Regex;
use url::Url;

fn pair(id: &str, region: &str) -> Option<(String, String)> {
    Some((id.to_string(), region.to_string()))
}

// The catalog id as the pattern written for the regex engine finds it.
fn id_by_regex(path: &str) -> Option<String> {
    let re = Regex::new(r"/dp/([A-Z0-9]+)/?").unwrap();
    re.captures(path).and_then(|cap| cap.get(1)).map(|m| m.as_str().to_string())
}

#[test]
fn german_product_link_parses() {
    assert_eq!(parse_amazon_url("https://www.amazon.de/dp/B0EXAMPLE/"), pair("B0EXAMPLE", "de"));
}

#[test]
fn what_stands_around_host_and_path_does_not_matter() {
    for url in [
        "http://www.amazon.de/dp/B0EXAMPLE/",
        "https://www.amazon.de:443/dp/B0EXAMPLE/?tag=x&ref=y",
        "https://user@www.amazon.de/dp/B0EXAMPLE/#reviews",
        "HTTPS://WWW.AMAZON.DE/dp/B0EXAMPLE/",
    ] {
        assert_eq!(parse_amazon_url(url), pair("B0EXAMPLE", "de"), "url: {}", url);
    }
}

#[test]
fn smile_prefix_is_stripped() {
    assert_eq!(parse_amazon_url("https://smile.amazon.com/dp/B01XYZ"), pair("B01XYZ", "com"));
    assert_eq!(
        parse_amazon_url("https://smile-redirect.amazon.co.uk/dp/B01XYZ"),
        pair("B01XYZ", "co.uk")
    );
}

#[test]
fn region_holds_every_label_behind_the_marketplace_name() {
    assert_eq!(find_region("amazon.co.uk"), "co.uk");
    assert_eq!(find_region("www.amazon.com.mx"), "com.mx");
    assert_eq!(find_region("www.smile.amazon.co.jp"), "co.jp");
    assert_eq!(find_region("www.smile.smile-redirect.amazon.fr"), "fr");
}

#[test]
fn each_prefix_is_taken_off_once_and_in_order() {
    assert_eq!(find_region("www.www.amazon.com"), "de");
    assert_eq!(find_region("smile.www.amazon.com"), "de");
    assert_eq!(find_region("smile-redirect.smile.amazon.com"), "de");
}

#[test]
fn host_of_another_form_gets_the_default_region() {
    assert_eq!(find_region("example.com"), "de");
    assert_eq!(find_region("amzn.to"), "de");
    assert_eq!(find_region("shop.amazon.com"), "de");
    assert_eq!(find_region(""), "de");
    assert_eq!(parse_amazon_url("https://example.com/dp/B0EXAMPLE"), pair("B0EXAMPLE", "de"));
}

#[test]
fn host_that_ends_with_the_marketplace_name_has_an_empty_region() {
    assert_eq!(find_region("amazon."), "");
}

#[test]
fn link_without_catalog_id_is_rejected() {
    assert_eq!(parse_amazon_url("https://www.amazon.de/"), None);
    assert_eq!(parse_amazon_url("https://www.amazon.de/gp/product/B0EXAMPLE"), None);
    assert_eq!(parse_amazon_url("https://www.amazon.de/dp/"), None);
    assert_eq!(parse_amazon_url("https://www.amazon.de/dp/b0example"), None);
    assert_eq!(parse_amazon_url("https://example.com/"), None);
}

#[test]
fn text_that_is_no_url_is_rejected() {
    assert_eq!(parse_amazon_url(""), None);
    assert_eq!(parse_amazon_url("amazon.de/dp/B0EXAMPLE"), None);
    assert_eq!(parse_amazon_url("not a url"), None);
}

#[test]
fn url_without_host_is_rejected() {
    assert_eq!(parse_amazon_url("mailto:someone@amazon.de"), None);
    assert_eq!(parse_amazon_url("data:text/plain,/dp/B0EXAMPLE"), None);
}

#[test]
fn catalog_id_is_the_longest_run_behind_the_first_marker() {
    assert_eq!(find_catalog_id("/dp/B0EXAMPLE/"), Some("B0EXAMPLE".to_string()));
    assert_eq!(find_catalog_id("/dp/B0EXAMPLE"), Some("B0EXAMPLE".to_string()));
    assert_eq!(find_catalog_id("/Some-Product/dp/B0ABC123/ref=sr_1"), Some("B0ABC123".to_string()));
    assert_eq!(find_catalog_id("/dp/B0abc"), Some("B0".to_string()));
    assert_eq!(find_catalog_id("/dp/dp/B0X"), Some("B0X".to_string()));
    assert_eq!(find_catalog_id("/dp/x/dp/A1/dp/B2"), Some("A1".to_string()));
    assert_eq!(find_catalog_id("/dp/"), None);
    assert_eq!(find_catalog_id("/dp"), None);
    assert_eq!(find_catalog_id(""), None);
    assert_eq!(find_catalog_id("dp/B0X"), None);
}

#[test]
fn catalog_id_agrees_with_the_pattern() {
    for path in [
        "", "/", "/dp", "/dp/", "/dp/B0EXAMPLE/", "/dp/B0EXAMPLE", "/x/dp/B0/y", "/dp/dp/B0X",
        "/dp//dp/77", "/dp/ÄB/dp/Z9", "/DP/B0", "/dp/b/dp/C", "//dp/0", "/dp/A/dp/B", "/dp/Ab",
        "/gp/product/B0EXAMPLE", "/dp/%41BC",
    ] {
        assert_eq!(find_catalog_id(path), id_by_regex(path), "path: {:?}", path);
    }
}

#[test]
fn parsing_goes_by_host_and_path_of_the_url() {
    for text in [
        "https://www.amazon.de/dp/B0EXAMPLE/",
        "https://smile.amazon.com/dp/B01XYZ?x=/dp/ZZZ",
        "https://amazon.co.uk/a/../dp/B0EXAMPLE",
        "https://AMAZON.IT/dp/B0EXAMPLE",
        "https://www.amazon.de/x#/dp/B0EXAMPLE",
        "ftp://amazon.es/dp/B1",
    ] {
        let url = Url::parse(text).unwrap();
        assert_eq!(
            parse_amazon_url(text),
            link_of_parts(url.host_str().unwrap(), url.path()),
            "url: {}",
            text
        );
    }
    assert_eq!(parse_amazon_url("https://www.amazon.de/x#/dp/B0EXAMPLE"), None);
    assert_eq!(parse_amazon_url("https://AMAZON.IT/dp/B0EXAMPLE"), pair("B0EXAMPLE", "it"));
}

#[test]
fn link_needs_a_catalog_id_whatever_the_host() {
    assert_eq!(link_of_parts("www.amazon.de", "/"), None);
    assert_eq!(link_of_parts("example.com", "/dp/B0EXAMPLE/"), pair("B0EXAMPLE", "de"));
}
