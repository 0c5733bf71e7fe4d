use affilify::classifier::is_amazon_link_only;
use regex::{Captures, Regex};

// The classification written with the regex engine, to hold the scanner against: a
// link with a scheme is cut out where it names the marketplace, a bare link always.
fn by_regex(content: &str) -> bool {
    let trimmed = content.trim();
    if !trimmed.contains("amazon.") && !trimmed.contains("amzn.to") {
        return false;
    }
    let schemed = Regex::new(r"https?://[^\s]+").unwrap();
    let remaining = schemed
        .replace_all(trimmed, |found: &Captures| {
            let url = &found[0];
            if url.contains("amazon.") || url.contains("amzn.to") {
                String::new()
            } else {
                url.to_string()
            }
        })
        .to_string();
    let bare = Regex::new(r"(?:^|[\s])((?:amazon\.[a-z.]+|amzn\.to)[^\s]*)").unwrap();
    let remaining = bare.replace_all(&remaining, "").to_string();
    remaining.trim().is_empty()
}

#[test]
fn single_link_is_link_only() {
    assert!(is_amazon_link_only("https://amzn.to/abc"));
}

#[test]
fn link_among_words_is_mixed() {
    assert!(!is_amazon_link_only("check this out https://amzn.to/abc thanks"));
}

#[test]
fn white_space_around_links_does_not_count() {
    assert!(is_amazon_link_only("  https://amzn.to/abc \n"));
    assert!(is_amazon_link_only("\tamazon.de/dp/B0EXAMPLE\u{a0}"));
    assert!(is_amazon_link_only("https://amzn.to/a\n\namazon.de/b   amzn.to/c"));
}

#[test]
fn text_without_marketplace_name_is_not_link_only() {
    assert!(!is_amazon_link_only(""));
    assert!(!is_amazon_link_only("   "));
    assert!(!is_amazon_link_only("https://example.com/"));
    assert!(!is_amazon_link_only("hello"));
}

#[test]
fn link_to_another_site_makes_a_message_mixed() {
    assert!(!is_amazon_link_only("https://amzn.to/abc https://example.com/x"));
    assert!(!is_amazon_link_only("https://example.com/ amzn.to/abc"));
    assert!(!is_amazon_link_only("amazon.de/dp/B0 http://example.org"));
    assert!(!is_amazon_link_only("https://example.com/amzn.t amzn.to/a"));
}

#[test]
fn link_with_a_scheme_that_names_the_marketplace_is_cut_out() {
    assert!(is_amazon_link_only("https://example.com/?r=amazon.de"));
    assert!(is_amazon_link_only("https://amzn.to/abc http://www.amazon.co.uk/dp/B0"));
}

#[test]
fn text_before_a_scheme_is_left() {
    assert!(!is_amazon_link_only("see:https://amzn.to/abc"));
    assert!(!is_amazon_link_only("Amazon.de amzn.to/abc"));
    assert!(!is_amazon_link_only("amazon.DE"));
}

#[test]
fn bare_link_in_front_of_a_scheme_is_cut_out() {
    assert!(is_amazon_link_only("amazon.de/https://amzn.to/abc"));
}

#[test]
fn classification_agrees_with_the_patterns() {
    for text in [
        "",
        " ",
        "hello world",
        "https://amzn.to/abc",
        "check this out https://amzn.to/abc thanks",
        "https://amazon.de/dp/B0EXAMPLE/",
        "amazon.de/dp/B0EXAMPLE/",
        " amazon.de",
        "x amazon.de",
        "amazon.de x",
        "https://amazon.de/x https://amazon.de/x",
        "amzn.to/a amzn.to/a amzn.to/b",
        "see http://www.amazon.co.uk/dp/B01 and amazon.com/dp/B02\nand amzn.to/xyz",
        "xhttps://amazon.de/a",
        "https://https://amazon.de/a",
        "http:// https://amazon.de",
        "https:// amazon.de",
        "https://",
        "https://example.com/page",
        "https://example.com/?r=amazon.de",
        "https://example.com/ amzn.to/abc",
        "amazon.",
        "amazon.DE",
        "amazon..",
        "amazon.d",
        "Amazon.de amazon.de",
        "xamazon.de",
        "\tamazon.de\u{a0}amzn.to",
        "amzn.to",
        "amzn.tomato says https://amzn.to",
        "https://amzn.to\u{2003}amazon.fr/\u{3000}",
        "über amazon.de/dp/ÄÖ https://amazon.de/ü",
        "  amazon.de  ",
        "amazon.de/https://amzn.to/abc",
        "amazon.dehttp://x y",
        "amzn.to\u{85}amzn.to\u{1680}amzn.to\u{2028}amzn.to\u{2029}amzn.to\u{202f}amzn.to\u{205f}amzn.to",
        "amzn.to\u{200b}amzn.to",
        "amzn.to\u{b}amzn.to\u{c}amzn.to\r\namzn.to",
        "amzn.to\u{1c}x",
        "amzn.to\u{feff}",
    ] {
        assert_eq!(is_amazon_link_only(text), by_regex(text), "text: {:?}", text);
    }
}

#[test]
fn each_extracted_link_is_link_only_by_itself() {
    for text in [
        "check this out https://amzn.to/abc thanks",
        "see http://www.amazon.co.uk/dp/B01 and amazon.com/dp/B02\nand amzn.to/xyz",
        "xhttps://amazon.de/a amazon.de/https://amzn.to/abc",
        "https://example.com/?r=amazon.de über amazon.de/dp/ÄÖ",
    ] {
        let links = affilify::extractor::extract_amazon_urls(text);
        assert!(!links.is_empty());
        for link in links {
            assert!(is_amazon_link_only(&link), "link: {:?}", link);
        }
    }
}

#[test]
fn link_only_text_always_holds_a_link() {
    for text in [
        "https://amzn.to/abc",
        "  amazon.de/dp/B0 \n amzn.to/x ",
        "https://example.com/?r=amazon.de",
        "amazon.de/https://amzn.to/abc",
    ] {
        assert!(is_amazon_link_only(text));
        assert!(!affilify::extractor::extract_amazon_urls(text).is_empty());
    }
}
