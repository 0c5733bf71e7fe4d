//! The marketplace parser: from a URL to the catalog id and the region code of the
//! storefront that it points to.

use crate::text::{
    chars_of, differs_from_prefix, first_from, first_from_is_least, first_from_is_unique,
    matches_at, occurs_at, prefix_comes_off, strip_once, stripped, stripped_or,
};
use vstd::prelude::*;
use vstd::string::*;

verus! {

/// What the `url` crate makes of `input`: `None` where `Url::parse` refuses it, else
/// the host as `Url::host_str` gives it and the path as `Url::path` gives it.
pub uninterp spec fn url_parts(input: Seq<char>) -> Option<(Option<Seq<char>>, Seq<char>)>;

/// Calls `url::Url::parse`, then `Url::host_str` and `Url::path` on what it returns.
/// The contract only names the outcome: it is `url_parts` of the input.
#[verifier::external_body]
fn split_url(input: &str) -> (parts: Option<(Option<String>, String)>)
    ensures
        match parts {
            Some((Some(host), path)) => url_parts(input@) == Some((Some(host@), path@)),
            Some((None, path)) => url_parts(input@) == Some((None::<Seq<char>>, path@)),
            None => url_parts(input@) is None,
        },
{
    match url::Url::parse(input) {
        Ok(parsed) => Some((parsed.host_str().map(str::to_owned), parsed.path().to_owned())),
        Err(_) => None,
    }
}

/// The host without one leading `www.`, then one `smile.`, then one `smile-redirect.`.
pub open spec fn bare_domain(host: Seq<char>) -> Seq<char> {
    stripped(stripped(stripped(host, "www."@), "smile."@), "smile-redirect."@)
}

/// The region code of a host: what follows `amazon.` in its bare domain, and `de`
/// for a domain of another form.
pub open spec fn region_of(host: Seq<char>) -> Seq<char> {
    stripped_or(bare_domain(host), "amazon."@, "de"@)
}

/// A character of a catalog id: an upper-case ASCII letter or a digit.
pub open spec fn is_id_char(c: char) -> bool {
    ('A' <= c && c <= 'Z') || ('0' <= c && c <= '9')
}

/// A catalog id starts behind `/dp/` at `i`.
pub open spec fn id_at(path: Seq<char>, i: int) -> bool {
    &&& occurs_at(path, "/dp/"@, i)
    &&& i + "/dp/"@.len() < path.len()
    &&& is_id_char(path[i + "/dp/"@.len()])
}

/// The end of the run of id characters that starts at `i`.
pub open spec fn id_end(path: Seq<char>, i: int) -> int {
    first_from(path.len() as int, i, |j: int| !is_id_char(path[j]))
}

/// The catalog id of a path: the longest run of id characters behind the first
/// `/dp/` that one follows.
pub open spec fn catalog_id(path: Seq<char>) -> Option<Seq<char>> {
    let at = first_from(path.len() as int, 0, |j: int| id_at(path, j));
    if at < path.len() {
        Some(path.subrange(at + "/dp/"@.len(), id_end(path, at + "/dp/"@.len())))
    } else {
        None
    }
}

/// The catalog id and the region of a link with this host and path.
pub open spec fn link_of(host: Seq<char>, path: Seq<char>) -> Option<(Seq<char>, Seq<char>)> {
    match catalog_id(path) {
        Some(id) => Some((id, region_of(host))),
        None => None,
    }
}

/// A catalog id is never empty and holds id characters only.
pub proof fn catalog_id_is_well_formed(path: Seq<char>)
    ensures
        match catalog_id(path) {
            Some(id) => id.len() > 0 && forall|k: int|
                0 <= k < id.len() ==> is_id_char(#[trigger] id[k]),
            None => true,
        },
{
    let len = path.len() as int;
    let at = first_from(len, 0, |j: int| id_at(path, j));
    first_from_is_least(len, 0, |j: int| id_at(path, j));
    if at < len {
        let start = at + "/dp/"@.len();
        let stop = |j: int| !is_id_char(path[j]);
        first_from_is_least(len, start, stop);
        let end = id_end(path, start);
        assert(end > start);
        let id = path.subrange(start, end);
        assert forall|k: int| 0 <= k < id.len() implies is_id_char(#[trigger] id[k]) by {
            assert(!stop(start + k));
        }
    }
}

/// A path that begins with `/dp/`, then a run of id characters, then something that is
/// no id character, has that run as its catalog id.
pub proof fn catalog_id_of_product_path(id: Seq<char>, rest: Seq<char>)
    requires
        id.len() > 0,
        forall|k: int| 0 <= k < id.len() ==> is_id_char(#[trigger] id[k]),
        rest.len() > 0 ==> !is_id_char(rest[0]),
    ensures
        catalog_id("/dp/"@ + id + rest) == Some(id),
{
    let path = "/dp/"@ + id + rest;
    let len = path.len() as int;
    let lead = "/dp/"@.len() as int;
    assert(path.subrange(0, lead) =~= "/dp/"@);
    assert(path[lead] == id[0]);
    first_from_is_unique(len, 0, |j: int| id_at(path, j), 0);
    let end = lead + id.len();
    let stop = |j: int| !is_id_char(path[j]);
    assert forall|j: int| lead <= j < end implies !(#[trigger] stop(j)) by {
        assert(path[j] == id[j - lead]);
    }
    if end < len {
        assert(path[end] == rest[0]);
    }
    first_from_is_unique(len, lead, stop, end);
    assert(path.subrange(lead, end) =~= id);
}

/// The region of a host `amazon.` and a suffix, bare or behind `www.`, `smile.` or
/// `smile-redirect.`, is the suffix.
pub proof fn region_of_marketplace_host(region: Seq<char>)
    ensures
        region_of("amazon."@ + region) == region,
        region_of("www."@ + ("amazon."@ + region)) == region,
        region_of("smile."@ + ("amazon."@ + region)) == region,
        region_of("smile-redirect."@ + ("amazon."@ + region)) == region,
{
    reveal_strlit("amazon.");
    reveal_strlit("www.");
    reveal_strlit("smile.");
    reveal_strlit("smile-redirect.");
    let domain = "amazon."@ + region;
    prefix_comes_off("amazon."@, region);
    differs_from_prefix(domain, "www."@, 0);
    differs_from_prefix(domain, "smile."@, 0);
    differs_from_prefix(domain, "smile-redirect."@, 0);
    prefix_comes_off("www."@, domain);
    smile_prefix_is_stripped(domain);
}

/// A leading `smile.` or `smile-redirect.` is taken off a host before its region is
/// looked for, whatever follows it.
pub proof fn smile_prefix_is_stripped(rest: Seq<char>)
    ensures
        bare_domain("smile."@ + rest) == stripped(rest, "smile-redirect."@),
        bare_domain("smile-redirect."@ + rest) == rest,
        region_of("smile."@ + rest) == stripped_or(
            stripped(rest, "smile-redirect."@),
            "amazon."@,
            "de"@,
        ),
        region_of("smile-redirect."@ + rest) == stripped_or(rest, "amazon."@, "de"@),
{
    reveal_strlit("www.");
    reveal_strlit("smile.");
    reveal_strlit("smile-redirect.");
    prefix_comes_off("smile."@, rest);
    differs_from_prefix("smile."@ + rest, "www."@, 0);
    prefix_comes_off("smile-redirect."@, rest);
    differs_from_prefix("smile-redirect."@ + rest, "www."@, 0);
    differs_from_prefix("smile-redirect."@ + rest, "smile."@, 5);
}

/// A URL whose host is `www.amazon.` and a region, and whose path begins with `/dp/` and
/// a catalog id, parses to that id and that region, whatever else the URL holds.
pub proof fn marketplace_url_parses(
    url: Seq<char>,
    region: Seq<char>,
    id: Seq<char>,
    rest: Seq<char>,
)
    requires
        id.len() > 0,
        forall|k: int| 0 <= k < id.len() ==> is_id_char(#[trigger] id[k]),
        rest.len() > 0 ==> !is_id_char(rest[0]),
    ensures
        link_of("www."@ + ("amazon."@ + region), "/dp/"@ + id + rest) == Some((id, region)),
        url_parts(url) == Some((Some("www."@ + ("amazon."@ + region)), "/dp/"@ + id + rest))
            ==> parsed_link(url) == Some((id, region)),
{
    catalog_id_of_product_path(id, rest);
    region_of_marketplace_host(region);
}

/// Decides `is_id_char`.
pub fn is_id(c: char) -> (b: bool)
    ensures
        b == is_id_char(c),
{
    ('A' <= c && c <= 'Z') || ('0' <= c && c <= '9')
}

/// The catalog id of `path`, where it has one.
pub fn find_catalog_id(path: &str) -> (r: Option<String>)
    ensures
        match r {
            Some(id) => catalog_id(path@) == Some(id@) && id@.len() > 0,
            None => catalog_id(path@) is None,
        },
{
    let text = chars_of(path);
    let marker = chars_of("/dp/");
    let n = text.len();
    let mut at: usize = 0;
    while at < n
        invariant
            at <= n,
            n == text@.len(),
            text@ == path@,
            marker@ == "/dp/"@,
            forall|j: int| 0 <= j < at ==> !id_at(path@, j),
        ensures
            at < n ==> id_at(path@, at as int),
        decreases n - at,
    {
        if matches_at(text.as_slice(), at, marker.as_slice()) && marker.len() < n - at && is_id(
            text[at + marker.len()],
        ) {
            break;
        }
        at += 1;
    }
    proof {
        first_from_is_unique(n as int, 0, |j: int| id_at(path@, j), at as int);
    }
    if at == n {
        return None;
    }
    let start = at + marker.len();
    let mut end: usize = start;
    while end < n && is_id(text[end])
        invariant
            start <= end <= n,
            n == text@.len(),
            text@ == path@,
            forall|j: int| start <= j < end ==> is_id_char(path@[j]),
        decreases n - end,
    {
        end += 1;
    }
    proof {
        first_from_is_unique(n as int, start as int, |j: int| !is_id_char(path@[j]), end as int);
        catalog_id_is_well_formed(path@);
    }
    Some(path.substring_char(start, end).to_owned())
}

/// The region code of `host`.
pub fn find_region(host: &str) -> (r: String)
    ensures
        r@ == region_of(host@),
{
    let domain = strip_once(strip_once(strip_once(host, "www."), "smile."), "smile-redirect.");
    let text = chars_of(domain);
    let lead = chars_of("amazon.");
    if matches_at(text.as_slice(), 0, lead.as_slice()) {
        domain.substring_char(lead.len(), text.len()).to_owned()
    } else {
        "de".to_owned()
    }
}

/// The catalog id and the region of a link with this host and path, or `None`
/// where the path holds no catalog id.
pub fn link_of_parts(host: &str, path: &str) -> (r: Option<(String, String)>)
    ensures
        match r {
            Some((id, region)) => link_of(host@, path@) == Some((id@, region@)) && id@.len() > 0,
            None => link_of(host@, path@) is None,
        },
{
    match find_catalog_id(path) {
        Some(id) => Some((id, find_region(host))),
        None => None,
    }
}

/// What `parse_amazon_url` returns for `url`: the link of its host and path, and
/// `None` where it is no URL, has no host, or holds no catalog id.
pub open spec fn parsed_link(url: Seq<char>) -> Option<(Seq<char>, Seq<char>)> {
    match url_parts(url) {
        Some((Some(host), path)) => link_of(host, path),
        _ => None,
    }
}

/// Parses a marketplace URL into its catalog id and its region code.
pub fn parse_amazon_url(url_str: &str) -> (r: Option<(String, String)>)
    ensures
        match r {
            Some((id, region)) => parsed_link(url_str@) == Some((id@, region@)) && id@.len() > 0,
            None => parsed_link(url_str@) is None,
        },
{
    match split_url(url_str) {
        Some((Some(host), path)) => link_of_parts(host.as_str(), path.as_str()),
        _ => None,
    }
}

} // verus!
