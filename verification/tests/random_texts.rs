use affilify::classifier::is_amazon_link_only;
use affilify::extractor::extract_amazon_urls;
use affilify::parser::find_catalog_id;
use affilify::text::{substitute, trim};
use regex::{Captures, Regex};

// A small generator of texts, the same on every run.
struct Texts {
    state: u64,
}

impl Texts {
    fn new(seed: u64) -> Texts {
        Texts { state: seed }
    }

    fn next(&mut self) -> u64 {
        self.state = self.state.wrapping_mul(6364136223846793005).wrapping_add(1442695040888963407);
        self.state >> 33
    }

    fn text(&mut self, pieces: &[&str], longest: u64) -> String {
        let mut out = String::new();
        let n = self.next() % (longest + 1);
        for _ in 0..n {
            out.push_str(pieces[(self.next() % pieces.len() as u64) as usize]);
        }
        out
    }
}

const LINK_PIECES: [&str; 24] = [
    "http://", "https://", "http", "s", ":", "/", "amazon.", "amazon", "amzn.to", "amzn.", "to", ".",
    "de", "co.uk", "a", "x", "Z", "9", " ", " ", "\n", "\t", "\u{a0}", "ü",
];

const PATH_PIECES: [&str; 12] = ["/dp/", "/dp", "dp/", "/", "B0", "A", "9", "b", "x", "-", "Ä", "/d"];

const PLAIN_PIECES: [&str; 10] = ["{{sender}}", "{{", "}}", "{", "}", "sender", " ", "\n", "a", "ß"];

#[test]
fn extraction_agrees_with_the_patterns_on_many_texts() {
    let schemed = Regex::new(r"https?://[^\s]+").unwrap();
    let bare = Regex::new(r"(?:^|[\s])((?:amazon\.[a-z.]+|amzn\.to)[^\s]*)").unwrap();
    let mut texts = Texts::new(1);
    for _ in 0..4000 {
        let text = texts.text(&LINK_PIECES, 12);
        let mut found: Vec<(usize, String)> = Vec::new();
        for link in schemed.find_iter(&text) {
            let url = link.as_str().to_string();
            if url.contains("amazon.") || url.contains("amzn.to") {
                found.push((link.start(), url));
            }
        }
        for caps in bare.captures_iter(&text) {
            let link = caps.get(1).unwrap();
            found.push((link.start(), format!("https://{}", link.as_str())));
        }
        found.sort();
        let mut expected: Vec<String> = Vec::new();
        for (_, url) in found {
            if !expected.contains(&url) {
                expected.push(url);
            }
        }
        assert_eq!(extract_amazon_urls(&text), expected, "text: {:?}", text);
    }
}

#[test]
fn classification_agrees_with_the_patterns_on_many_texts() {
    let schemed = Regex::new(r"https?://[^\s]+").unwrap();
    let bare = Regex::new(r"(?:^|[\s])((?:amazon\.[a-z.]+|amzn\.to)[^\s]*)").unwrap();
    let mut texts = Texts::new(2);
    let mut link_only = 0;
    for _ in 0..4000 {
        let text = texts.text(&LINK_PIECES, 8);
        let trimmed = text.trim();
        let expected = if !trimmed.contains("amazon.") && !trimmed.contains("amzn.to") {
            false
        } else {
            let rest = schemed
                .replace_all(trimmed, |found: &Captures| {
                    let url = &found[0];
                    if url.contains("amazon.") || url.contains("amzn.to") {
                        String::new()
                    } else {
                        url.to_string()
                    }
                })
                .to_string();
            let rest = bare.replace_all(&rest, "").to_string();
            rest.trim().is_empty()
        };
        if expected {
            link_only += 1;
        }
        assert_eq!(is_amazon_link_only(&text), expected, "text: {:?}", text);
    }
    assert!(link_only > 20);
}

#[test]
fn catalog_id_agrees_with_the_pattern_on_many_paths() {
    let pattern = Regex::new(r"/dp/([A-Z0-9]+)/?").unwrap();
    let mut texts = Texts::new(3);
    let mut found = 0;
    for _ in 0..4000 {
        let path = texts.text(&PATH_PIECES, 8);
        let expected = pattern.captures(&path).and_then(|c| c.get(1)).map(|m| m.as_str().to_string());
        if expected.is_some() {
            found += 1;
        }
        assert_eq!(find_catalog_id(&path), expected, "path: {:?}", path);
    }
    assert!(found > 20);
}

#[test]
fn substitution_and_trimming_agree_with_the_standard_library_on_many_texts() {
    let mut texts = Texts::new(4);
    for _ in 0..4000 {
        let text = texts.text(&PLAIN_PIECES, 10);
        assert_eq!(substitute(&text, "{{sender}}", "<@1>"), text.replace("{{sender}}", "<@1>"));
        assert_eq!(substitute(&text, "{}", "{{sender}}"), text.replace("{}", "{{sender}}"));
        assert_eq!(trim(&text), text.trim());
    }
}
