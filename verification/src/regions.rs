//! The regions that can be configured, and which of them are suggested while a user
//! types.

use crate::text::{chars_of, contains, has, lowercased, to_lower};
use vstd::prelude::*;
use vstd::string::*;

verus! {

/// How many suggestions are shown at most.
pub const SUGGESTION_LIMIT: usize = 25;

/// The regions that can be configured, each with the name under which it is shown:
/// first the entry for all regions, then the storefronts.
pub open spec fn region_table() -> Seq<(Seq<char>, Seq<char>)> {
    seq![
        ("global"@, "🌍 Global Settings (All Regions)"@),
        ("com"@, "🇺🇸 USA (amazon.com)"@),
        ("ca"@, "🇨🇦 Canada (amazon.ca)"@),
        ("com.mx"@, "🇲🇽 Mexico (amazon.com.mx)"@),
        ("br"@, "🇧🇷 Brazil (amazon.br)"@),
        ("co.uk"@, "🇬🇧 UK (amazon.co.uk)"@),
        ("de"@, "🇩🇪 Germany (amazon.de)"@),
        ("fr"@, "🇫🇷 France (amazon.fr)"@),
        ("es"@, "🇪🇸 Spain (amazon.es)"@),
        ("it"@, "🇮🇹 Italy (amazon.it)"@),
        ("nl"@, "🇳🇱 Netherlands (amazon.nl)"@),
        ("se"@, "🇸🇪 Sweden (amazon.se)"@),
        ("pl"@, "🇵🇱 Poland (amazon.pl)"@),
        ("ae"@, "🇦🇪 UAE (amazon.ae)"@),
        ("sa"@, "🇸🇦 Saudi Arabia (amazon.sa)"@),
        ("in"@, "🇮🇳 India (amazon.in)"@),
        ("co.jp"@, "🇯🇵 Japan (amazon.co.jp)"@),
        ("sg"@, "🇸🇬 Singapore (amazon.sg)"@),
        ("cn"@, "🇨🇳 China (amazon.cn)"@),
        ("com.au"@, "🇦🇺 Australia (amazon.com.au)"@),
    ]
}

/// An entry suits what was typed where its code or its name holds it, both names and
/// what was typed taken in lower case.
pub open spec fn suits(code: Seq<char>, name_lower: Seq<char>, typed_lower: Seq<char>) -> bool {
    contains(code, typed_lower) || contains(name_lower, typed_lower)
}

/// Those among the first `n` entries that suit what was typed, in their order and as
/// long as the limit is not reached. Each entry comes as its code, its name, and its
/// name in lower case.
pub open spec fn suiting(
    entries: Seq<(Seq<char>, Seq<char>, Seq<char>)>,
    typed_lower: Seq<char>,
    n: nat,
) -> Seq<(Seq<char>, Seq<char>)>
    decreases n,
{
    if n == 0 {
        Seq::empty()
    } else {
        let before = suiting(entries, typed_lower, (n - 1) as nat);
        let entry = entries[n - 1];
        if before.len() < SUGGESTION_LIMIT && suits(entry.0, entry.2, typed_lower) {
            before.push((entry.0, entry.1))
        } else {
            before
        }
    }
}

/// The table with the name of each entry in lower case beside it.
pub open spec fn lowered_table() -> Seq<(Seq<char>, Seq<char>, Seq<char>)> {
    Seq::new(
        region_table().len(),
        |i: int| (region_table()[i].0, region_table()[i].1, lowercased(region_table()[i].1)),
    )
}

/// The regions that are suggested for what was typed.
pub open spec fn suggestions(typed: Seq<char>) -> Seq<(Seq<char>, Seq<char>)> {
    suiting(lowered_table(), lowercased(typed), lowered_table().len())
}

/// What each entry holds, with its name in lower case.
pub open spec fn lowered_views(entries: Seq<(String, String, String)>) -> Seq<
    (Seq<char>, Seq<char>, Seq<char>),
> {
    Seq::new(entries.len(), |i: int| (entries[i].0@, entries[i].1@, entries[i].2@))
}

/// What each entry holds.
pub open spec fn entry_views(entries: Seq<(String, String)>) -> Seq<(Seq<char>, Seq<char>)> {
    Seq::new(entries.len(), |i: int| (entries[i].0@, entries[i].1@))
}

/// One entry of the table.
fn entry(code: &str, name: &str) -> (e: (String, String))
    ensures
        e.0@ == code@,
        e.1@ == name@,
{
    (code.to_owned(), name.to_owned())
}

/// Builds `region_table`.
pub fn regions() -> (table: Vec<(String, String)>)
    ensures
        entry_views(table@) == region_table(),
{
    let mut table: Vec<(String, String)> = Vec::new();
    table.push(entry("global", "🌍 Global Settings (All Regions)"));
    table.push(entry("com", "🇺🇸 USA (amazon.com)"));
    table.push(entry("ca", "🇨🇦 Canada (amazon.ca)"));
    table.push(entry("com.mx", "🇲🇽 Mexico (amazon.com.mx)"));
    table.push(entry("br", "🇧🇷 Brazil (amazon.br)"));
    table.push(entry("co.uk", "🇬🇧 UK (amazon.co.uk)"));
    table.push(entry("de", "🇩🇪 Germany (amazon.de)"));
    table.push(entry("fr", "🇫🇷 France (amazon.fr)"));
    table.push(entry("es", "🇪🇸 Spain (amazon.es)"));
    table.push(entry("it", "🇮🇹 Italy (amazon.it)"));
    table.push(entry("nl", "🇳🇱 Netherlands (amazon.nl)"));
    table.push(entry("se", "🇸🇪 Sweden (amazon.se)"));
    table.push(entry("pl", "🇵🇱 Poland (amazon.pl)"));
    table.push(entry("ae", "🇦🇪 UAE (amazon.ae)"));
    table.push(entry("sa", "🇸🇦 Saudi Arabia (amazon.sa)"));
    table.push(entry("in", "🇮🇳 India (amazon.in)"));
    table.push(entry("co.jp", "🇯🇵 Japan (amazon.co.jp)"));
    table.push(entry("sg", "🇸🇬 Singapore (amazon.sg)"));
    table.push(entry("cn", "🇨🇳 China (amazon.cn)"));
    table.push(entry("com.au", "🇦🇺 Australia (amazon.com.au)"));
    assert(entry_views(table@) =~= region_table());
    table
}

/// Chooses among entries those that suit what was typed. Each entry comes as its code,
/// its name, and its name in lower case; what was typed comes in lower case.
pub fn choose_regions(entries: &Vec<(String, String, String)>, typed_lower: &str) -> (found: Vec<
    (String, String),
>)
    ensures
        entry_views(found@) == suiting(lowered_views(entries@), typed_lower@, entries@.len()),
{
    let wanted = chars_of(typed_lower);
    let ghost all = lowered_views(entries@);
    let mut found: Vec<(String, String)> = Vec::new();
    assert(entry_views(found@) =~= suiting(all, typed_lower@, 0));
    let mut i: usize = 0;
    while i < entries.len()
        invariant
            i <= entries.len(),
            all == lowered_views(entries@),
            wanted@ == typed_lower@,
            entry_views(found@) == suiting(all, typed_lower@, i as nat),
        decreases entries.len() - i,
    {
        let code = chars_of(entries[i].0.as_str());
        let name = chars_of(entries[i].2.as_str());
        if found.len() < SUGGESTION_LIMIT && (has(code.as_slice(), wanted.as_slice()) || has(
            name.as_slice(),
            wanted.as_slice(),
        )) {
            let ghost before = entry_views(found@);
            found.push((entries[i].0.clone(), entries[i].1.clone()));
            assert(entry_views(found@) =~= before.push((all[i as int].0, all[i as int].1)));
        }
        i += 1;
    }
    found
}

/// Suggests regions for what was typed so far.
pub fn get_region_suggestions(input: &str) -> (found: Vec<(String, String)>)
    ensures
        entry_views(found@) == suggestions(input@),
{
    let table = regions();
    let mut entries: Vec<(String, String, String)> = Vec::new();
    let mut i: usize = 0;
    while i < table.len()
        invariant
            i <= table.len(),
            entry_views(table@) == region_table(),
            lowered_views(entries@) == lowered_table().take(i as int),
        decreases table.len() - i,
    {
        let ghost before = lowered_views(entries@);
        let lower = to_lower(table[i].1.as_str());
        assert(entry_views(table@)[i as int] == (table@[i as int].0@, table@[i as int].1@));
        entries.push((table[i].0.clone(), table[i].1.clone(), lower));
        assert(lowered_views(entries@) =~= before.push(lowered_table()[i as int]));
        assert(lowered_table().take(i + 1) =~= lowered_table().take(i as int).push(
            lowered_table()[i as int],
        ));
        i += 1;
    }
    assert(lowered_table().take(i as int) =~= lowered_table());
    choose_regions(&entries, to_lower(input).as_str())
}

} // verus!
