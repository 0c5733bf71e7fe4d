//! How the counts of the usage log are shown.

use crate::text::{signed_decimal, signed_decimal_text, to_upper, uppercased};
use vstd::prelude::*;
use vstd::string::*;

verus! {

/// How many regions the statistics of a guild list.
pub const TOP_REGIONS: usize = 5;

/// A count of links as it is shown.
pub open spec fn count_text(count: int) -> Seq<char> {
    signed_decimal(count) + " links"@
}

/// The line for the region that is written `upper` in upper case, and its count.
pub open spec fn region_line_with(upper: Seq<char>, count: int) -> Seq<char> {
    "🌍 **"@ + upper + "**: "@ + count_text(count)
}

/// The line for one region and its count.
pub open spec fn region_line(region: Seq<char>, count: int) -> Seq<char> {
    region_line_with(uppercased(region), count)
}

/// The first `n` lines, one below the other.
pub open spec fn lines_joined(lines: Seq<Seq<char>>, n: nat) -> Seq<char>
    decreases n,
{
    if n == 0 {
        Seq::empty()
    } else if n == 1 {
        lines[0]
    } else {
        lines_joined(lines, (n - 1) as nat) + "\n"@ + lines[n - 1]
    }
}

/// What is shown for the lines of the regions: the lines, or that there is none yet.
pub open spec fn lines_shown(lines: Seq<Seq<char>>) -> Seq<char> {
    if lines.len() == 0 {
        "No regions yet"@
    } else {
        lines_joined(lines, lines.len())
    }
}

/// The line of each of the regions.
pub open spec fn region_lines(top: Seq<(Seq<char>, int)>) -> Seq<Seq<char>> {
    Seq::new(top.len(), |i: int| region_line(top[i].0, top[i].1))
}

/// What is shown of the regions with the most links: a line for each, or that there
/// is none yet.
pub open spec fn regions_shown(top: Seq<(Seq<char>, int)>) -> Seq<char> {
    lines_shown(region_lines(top))
}

/// What each row holds.
pub open spec fn row_views(rows: Seq<(String, i64)>) -> Seq<(Seq<char>, int)> {
    Seq::new(rows.len(), |i: int| (rows[i].0@, rows[i].1 as int))
}

/// Builds `count_text`.
pub fn count_text_of(count: i64) -> (text: String)
    ensures
        text@ == count_text(count as int),
{
    let mut text = signed_decimal_text(count);
    text.append(" links");
    text
}

/// Builds `region_line_with`.
pub fn region_line_for(upper: &str, count: i64) -> (line: String)
    ensures
        line@ == region_line_with(upper@, count as int),
{
    let mut line = "🌍 **".to_owned();
    line.append(upper);
    line.append("**: ");
    line.append(count_text_of(count).as_str());
    assert(line@ =~= region_line_with(upper@, count as int));
    line
}

/// Builds `region_line`.
pub fn region_line_of(region: &str, count: i64) -> (line: String)
    ensures
        line@ == region_line(region@, count as int),
{
    region_line_for(to_upper(region).as_str(), count)
}

/// Builds `lines_shown`.
pub fn show_lines(lines: &Vec<String>) -> (text: String)
    ensures
        text@ == lines_shown(lines.deep_view()),
{
    if lines.len() == 0 {
        return "No regions yet".to_owned();
    }
    let ghost all = lines.deep_view();
    let mut text = lines[0].clone();
    let mut i: usize = 1;
    while i < lines.len()
        invariant
            1 <= i <= lines.len(),
            all == lines.deep_view(),
            text@ == lines_joined(all, i as nat),
        decreases lines.len() - i,
    {
        text.append("\n");
        text.append(lines[i].as_str());
        i += 1;
    }
    text
}

/// Builds `regions_shown`.
pub fn regions_text(top: &Vec<(String, i64)>) -> (text: String)
    ensures
        text@ == regions_shown(row_views(top@)),
{
    let mut lines: Vec<String> = Vec::new();
    let mut i: usize = 0;
    while i < top.len()
        invariant
            i <= top.len(),
            lines.deep_view() == region_lines(row_views(top@)).take(i as int),
        decreases top.len() - i,
    {
        let ghost before = lines.deep_view();
        let line = region_line_of(top[i].0.as_str(), top[i].1);
        lines.push(line);
        assert(lines.deep_view() =~= before.push(line@));
        assert(region_lines(row_views(top@)).take(i + 1) =~= region_lines(row_views(top@)).take(
            i as int,
        ).push(region_lines(row_views(top@))[i as int]));
        i += 1;
    }
    assert(region_lines(row_views(top@)).take(i as int) =~= region_lines(row_views(top@)));
    show_lines(&lines)
}

} // verus!
