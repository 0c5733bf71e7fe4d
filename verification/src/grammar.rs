//! The shapes of the links that are looked for in a text: links with a scheme, taken
//! up to the next white space, and bare marketplace domains at the start of a word.

use crate::text::{
    chars_of, contains, first_from, first_from_is_least, first_from_is_unique, has, is_space,
    is_space_char, matches_at, occurs_at,
};
use vstd::prelude::*;
use vstd::string::*;

verus! {

// The shapes

/// The end of the run of characters that are no white space and start at `i`.
pub open spec fn run_end(s: Seq<char>, i: int) -> int {
    first_from(s.len() as int, i, |j: int| is_space(s[j]))
}

/// `pat` stands at `i`, and a character that is no white space follows it.
pub open spec fn text_follows(s: Seq<char>, pat: Seq<char>, i: int) -> bool {
    &&& occurs_at(s, pat, i)
    &&& i + pat.len() < s.len()
    &&& !is_space(s[i + pat.len()])
}

/// A link with a scheme starts at `i`: `http://` or `https://` and at least one
/// character behind it.
pub open spec fn schemed_at(s: Seq<char>, i: int) -> bool {
    text_follows(s, "https://"@, i) || text_follows(s, "http://"@, i)
}

/// A character of a domain suffix: a lower-case ASCII letter or a dot.
pub open spec fn is_suffix_char(c: char) -> bool {
    ('a' <= c && c <= 'z') || c == '.'
}

/// A bare marketplace domain starts at `i`: `amazon.` and at least one suffix
/// character, or `amzn.to`.
pub open spec fn bare_at(s: Seq<char>, i: int) -> bool {
    ||| (occurs_at(s, "amazon."@, i) && i + "amazon."@.len() < s.len() && is_suffix_char(
        s[i + "amazon."@.len()],
    ))
    ||| occurs_at(s, "amzn.to"@, i)
}

/// A bare link is matched from `from` on: it starts there at the start of the text, or
/// behind the white space that stands there.
pub open spec fn bare_match_at(s: Seq<char>, from: int) -> bool {
    (from == 0 && bare_at(s, 0)) || (0 <= from < s.len() && is_space(s[from]) && bare_at(
        s,
        from + 1,
    ))
}

/// Where the bare link that is matched from `from` on starts.
pub open spec fn bare_start(s: Seq<char>, from: int) -> int {
    if from == 0 && bare_at(s, 0) {
        0
    } else {
        from + 1
    }
}

/// The text names the marketplace: it holds `amazon.` or `amzn.to`.
pub open spec fn names_marketplace(t: Seq<char>) -> bool {
    contains(t, "amazon."@) || contains(t, "amzn.to"@)
}

/// The text holds no white space.
pub open spec fn is_word(t: Seq<char>) -> bool {
    forall|i: int| 0 <= i < t.len() ==> !is_space(#[trigger] t[i])
}

/// A word starts at `p`: a character that is no white space, at the start of the text
/// or behind white space.
pub open spec fn word_starts_at(s: Seq<char>, p: int) -> bool {
    0 <= p < s.len() && !is_space(s[p]) && (p == 0 || is_space(s[p - 1]))
}

/// `link` is the link with a scheme that starts at `p`, and it names the marketplace.
pub open spec fn is_schemed_link_at(s: Seq<char>, p: int, link: Seq<char>) -> bool {
    &&& 0 <= p < s.len()
    &&& schemed_at(s, p)
    &&& link == s.subrange(p, run_end(s, p))
    &&& names_marketplace(link)
}

/// `link` is the bare link that starts the word at `p`, with `https://` before it.
pub open spec fn is_bare_link_at(s: Seq<char>, p: int, link: Seq<char>) -> bool {
    &&& word_starts_at(s, p)
    &&& bare_at(s, p)
    &&& link == "https://"@ + s.subrange(p, run_end(s, p))
}

/// The positions of the list rise from each link to the next.
pub open spec fn in_order(found: Seq<(int, Seq<char>)>) -> bool {
    forall|i: int, j: int| 0 <= i < j < found.len() ==> (#[trigger] found[i]).0 < (
        #[trigger] found[j]).0
}

/// Each link with a scheme that is found starts where the list says, and the list is
/// in the order of the text.
pub proof fn schemed_found_is_in_order(s: Seq<char>, from: int)
    requires
        0 <= from,
    ensures
        in_order(schemed_found(s, from)),
        forall|k: int|
            0 <= k < schemed_found(s, from).len() ==> from <= (#[trigger] schemed_found(
                s,
                from,
            )[k]).0 && is_schemed_link_at(
                s,
                schemed_found(s, from)[k].0,
                schemed_found(s, from)[k].1,
            ),
    decreases s.len() - from,
{
    let list = schemed_found(s, from);
    if from < s.len() {
        if schemed_at(s, from) {
            schemed_link_has_text(s, from);
            let end = run_end(s, from);
            schemed_found_is_in_order(s, end);
            let rest = schemed_found(s, end);
            if names_marketplace(s.subrange(from, end)) {
                assert forall|k: int| 0 < k < list.len() implies list[k] == rest[k - 1] by {}
            }
        } else {
            schemed_found_is_in_order(s, from + 1);
        }
    }
}

/// Each bare link that is found starts where the list says, at the start of a word,
/// and the list is in the order of the text.
pub proof fn bare_found_is_in_order(s: Seq<char>, from: int)
    requires
        0 <= from,
    ensures
        in_order(bare_found(s, from)),
        forall|k: int|
            0 <= k < bare_found(s, from).len() ==> from <= (#[trigger] bare_found(s, from)[k]).0
                && is_bare_link_at(s, bare_found(s, from)[k].0, bare_found(s, from)[k].1),
    decreases s.len() - from,
{
    let list = bare_found(s, from);
    if from < s.len() {
        if bare_match_at(s, from) {
            let start = bare_start(s, from);
            bare_link_has_text(s, start);
            if is_space(s[start]) {
                space_is_no_start(s, start);
            }
            let end = run_end(s, start);
            bare_found_is_in_order(s, end);
            let rest = bare_found(s, end);
            assert forall|k: int| 0 < k < list.len() implies list[k] == rest[k - 1] by {}
        } else {
            bare_found_is_in_order(s, from + 1);
        }
    }
}

/// Where no link starts, none is found: the search goes on behind such a stretch with
/// the same result.
pub proof fn nothing_is_found_where_nothing_starts(s: Seq<char>, from: int, to: int)
    requires
        0 <= from <= to <= s.len(),
    ensures
        (forall|j: int| from <= j < to ==> !schemed_at(s, j)) ==> schemed_found(s, from)
            == schemed_found(s, to),
        (forall|j: int| from <= j < to ==> !bare_match_at(s, j)) ==> bare_found(s, from)
            == bare_found(s, to),
    decreases to - from,
{
    if from < to {
        nothing_is_found_where_nothing_starts(s, from + 1, to);
    }
}

/// The merged list holds what the two lists hold.
pub proof fn merged_holds_both(a: Seq<(int, Seq<char>)>, b: Seq<(int, Seq<char>)>)
    ensures
        merged(a, b).len() == a.len() + b.len(),
        forall|x: (int, Seq<char>)| merged(a, b).contains(x) <==> a.contains(x) || b.contains(x),
    decreases a.len() + b.len(),
{
    let all = merged(a, b);
    if a.len() > 0 && b.len() > 0 {
        let (head, left, right) = if a[0].0 <= b[0].0 {
            (a[0], a.drop_first(), b)
        } else {
            (b[0], a, b.drop_first())
        };
        merged_holds_both(left, right);
        let rest = merged(left, right);
        assert(all == seq![head] + rest);
        assert forall|x: (int, Seq<char>)| all.contains(x) <==> a.contains(x) || b.contains(
            x,
        ) by {
            if all.contains(x) {
                let k = choose|k: int| 0 <= k < all.len() && all[k] == x;
                if k > 0 {
                    assert(rest[k - 1] == x);
                    assert(rest.contains(x));
                    if left.contains(x) && a[0].0 <= b[0].0 {
                        let i = choose|i: int| 0 <= i < left.len() && left[i] == x;
                        assert(a[i + 1] == x);
                    }
                    if right.contains(x) && !(a[0].0 <= b[0].0) {
                        let i = choose|i: int| 0 <= i < right.len() && right[i] == x;
                        assert(b[i + 1] == x);
                    }
                } else {
                    assert(a[0] == x || b[0] == x);
                }
            }
            if a.contains(x) || b.contains(x) {
                if x == head {
                    assert(all[0] == x);
                } else {
                    if a.contains(x) {
                        let i = choose|i: int| 0 <= i < a.len() && a[i] == x;
                        if a[0].0 <= b[0].0 {
                            assert(left[i - 1] == x);
                        }
                        assert(left.contains(x));
                    } else {
                        let i = choose|i: int| 0 <= i < b.len() && b[i] == x;
                        if !(a[0].0 <= b[0].0) {
                            assert(right[i - 1] == x);
                        }
                        assert(right.contains(x));
                    }
                    assert(rest.contains(x));
                    let k = choose|k: int| 0 <= k < rest.len() && rest[k] == x;
                    assert(all[k + 1] == x);
                }
            }
        }
    }
}

/// Two lists in order that share no position are in order when merged.
pub proof fn merged_is_in_order(a: Seq<(int, Seq<char>)>, b: Seq<(int, Seq<char>)>)
    requires
        in_order(a),
        in_order(b),
        forall|i: int, j: int|
            0 <= i < a.len() && 0 <= j < b.len() ==> (#[trigger] a[i]).0 != (#[trigger] b[j]).0,
    ensures
        in_order(merged(a, b)),
    decreases a.len() + b.len(),
{
    let all = merged(a, b);
    if a.len() > 0 && b.len() > 0 {
        let (head, left, right) = if a[0].0 <= b[0].0 {
            (a[0], a.drop_first(), b)
        } else {
            (b[0], a, b.drop_first())
        };
        assert forall|i: int| 0 <= i < left.len() implies head.0 < (#[trigger] left[i]).0 by {
            if a[0].0 <= b[0].0 {
                assert(left[i] == a[i + 1]);
            } else {
                assert(left[i] == a[i]);
                assert(a[0].0 < a[i].0 || i == 0);
            }
        }
        assert forall|j: int| 0 <= j < right.len() implies head.0 < (#[trigger] right[j]).0 by {
            if a[0].0 <= b[0].0 {
                assert(right[j] == b[j]);
                assert(b[0].0 < b[j].0 || j == 0);
            } else {
                assert(right[j] == b[j + 1]);
            }
        }
        assert(in_order(left)) by {
            assert forall|i: int, j: int| 0 <= i < j < left.len() implies (#[trigger] left[i]).0 < (
                #[trigger] left[j]).0 by {
                if a[0].0 <= b[0].0 {
                    assert(left[i] == a[i + 1] && left[j] == a[j + 1]);
                }
            }
        }
        assert(in_order(right)) by {
            assert forall|i: int, j: int| 0 <= i < j < right.len() implies (
                #[trigger] right[i]).0 < (#[trigger] right[j]).0 by {
                if !(a[0].0 <= b[0].0) {
                    assert(right[i] == b[i + 1] && right[j] == b[j + 1]);
                }
            }
        }
        assert forall|i: int, j: int| 0 <= i < left.len() && 0 <= j < right.len() implies (
            #[trigger] left[i]).0 != (#[trigger] right[j]).0 by {
            if a[0].0 <= b[0].0 {
                assert(left[i] == a[i + 1]);
            } else {
                assert(right[j] == b[j + 1]);
            }
        }
        merged_is_in_order(left, right);
        merged_holds_both(left, right);
        let rest = merged(left, right);
        assert(all == seq![head] + rest);
        assert forall|i: int, j: int| 0 <= i < j < all.len() implies (#[trigger] all[i]).0 < (
            #[trigger] all[j]).0 by {
            assert(all[j] == rest[j - 1]);
            if i == 0 {
                assert(rest.contains(rest[j - 1]));
                if left.contains(rest[j - 1]) {
                    let k = choose|k: int| 0 <= k < left.len() && left[k] == rest[j - 1];
                } else {
                    let k = choose|k: int| 0 <= k < right.len() && right[k] == rest[j - 1];
                }
            } else {
                assert(all[i] == rest[i - 1]);
            }
        }
    }
}

/// The links of a text stand in the list in the order of the text, each at the
/// position at which it starts: a link with a scheme that names the marketplace, or a
/// bare link at the start of a word.
pub proof fn found_links_stand_in_the_text(s: Seq<char>)
    ensures
        in_order(found(s)),
        forall|k: int|
            0 <= k < found(s).len() ==> is_schemed_link_at(
                s,
                (#[trigger] found(s)[k]).0,
                found(s)[k].1,
            ) || is_bare_link_at(s, found(s)[k].0, found(s)[k].1),
        forall|x: (int, Seq<char>)|
            found(s).contains(x) <==> schemed_found(s, 0).contains(x) || bare_found(s, 0).contains(
                x,
            ),
{
    let a = schemed_found(s, 0);
    let b = bare_found(s, 0);
    schemed_found_is_in_order(s, 0);
    bare_found_is_in_order(s, 0);
    reveal_strlit("https://");
    reveal_strlit("http://");
    reveal_strlit("amazon.");
    reveal_strlit("amzn.to");
    assert forall|i: int, j: int| 0 <= i < a.len() && 0 <= j < b.len() implies (#[trigger] a[i]).0
        != (#[trigger] b[j]).0 by {
        let p = a[i].0;
        if p == b[j].0 {
            assert(s.subrange(p, p + 7)[0] == s[p]);
            if occurs_at(s, "https://"@, p) {
                assert(s.subrange(p, p + 8)[0] == s[p]);
            }
        }
    }
    merged_is_in_order(a, b);
    merged_holds_both(a, b);
    assert forall|k: int| 0 <= k < found(s).len() implies is_schemed_link_at(
        s,
        (#[trigger] found(s)[k]).0,
        found(s)[k].1,
    ) || is_bare_link_at(s, found(s)[k].0, found(s)[k].1) by {
        let x = found(s)[k];
        assert(found(s).contains(x));
        if a.contains(x) {
            let i = choose|i: int| 0 <= i < a.len() && a[i] == x;
        } else {
            let j = choose|j: int| 0 <= j < b.len() && b[j] == x;
        }
    }
}

/// How the links with a scheme that are found from `from` on follow from those found
/// further on.
pub proof fn schemed_links_step(s: Seq<char>, from: int)
    ensures
        from < 0 || from >= s.len() ==> schemed_links(s, from).len() == 0,
        0 <= from < s.len() && schemed_at(s, from) && names_marketplace(
            s.subrange(from, run_end(s, from)),
        ) ==> schemed_links(s, from) == seq![s.subrange(from, run_end(s, from))] + schemed_links(
            s,
            run_end(s, from),
        ),
        0 <= from < s.len() && schemed_at(s, from) && !names_marketplace(
            s.subrange(from, run_end(s, from)),
        ) ==> schemed_links(s, from) == schemed_links(s, run_end(s, from)),
        0 <= from < s.len() && !schemed_at(s, from) ==> schemed_links(s, from) == schemed_links(
            s,
            from + 1,
        ),
{
    if 0 <= from < s.len() && schemed_at(s, from) {
        let end = run_end(s, from);
        let link = s.subrange(from, end);
        if names_marketplace(link) {
            assert(texts(seq![(from, link)] + schemed_found(s, end)) =~= seq![link] + texts(
                schemed_found(s, end),
            ));
        }
    }
}

/// How the bare links that are found from `from` on follow from those found further
/// on.
pub proof fn bare_links_step(s: Seq<char>, from: int)
    ensures
        from < 0 || from >= s.len() ==> bare_links(s, from).len() == 0,
        0 <= from < s.len() && bare_match_at(s, from) ==> bare_links(s, from) == seq![
            "https://"@ + s.subrange(bare_start(s, from), run_end(s, bare_start(s, from))),
        ] + bare_links(s, run_end(s, bare_start(s, from))),
        0 <= from < s.len() && !bare_match_at(s, from) ==> bare_links(s, from) == bare_links(
            s,
            from + 1,
        ),
{
    if 0 <= from < s.len() && bare_match_at(s, from) {
        let start = bare_start(s, from);
        let end = run_end(s, start);
        let link = "https://"@ + s.subrange(start, end);
        assert(texts(seq![(start, link)] + bare_found(s, end)) =~= seq![link] + texts(
            bare_found(s, end),
        ));
    }
}

/// A candidate link: a word that starts with a scheme and names the marketplace.
pub open spec fn is_candidate(link: Seq<char>) -> bool {
    is_word(link) && schemed_at(link, 0) && names_marketplace(link)
}

// What is found in a text, and what is left of it

/// The links with a scheme that name the marketplace, as they stand in `s` from
/// `from` on: each with the position at which it starts, and taken from the leftmost
/// start to the end of its run.
pub open spec fn schemed_found(s: Seq<char>, from: int) -> Seq<(int, Seq<char>)>
    decreases s.len() - from,
{
    if from < 0 || from >= s.len() {
        Seq::empty()
    } else if schemed_at(s, from) {
        proof {
            schemed_link_has_text(s, from);
        }
        let end = run_end(s, from);
        let link = s.subrange(from, end);
        if names_marketplace(link) {
            seq![(from, link)] + schemed_found(s, end)
        } else {
            schemed_found(s, end)
        }
    } else {
        schemed_found(s, from + 1)
    }
}

/// The bare links as they stand in `s` from `from` on: each with the position at which
/// it starts, and with `https://` put before it.
pub open spec fn bare_found(s: Seq<char>, from: int) -> Seq<(int, Seq<char>)>
    decreases s.len() - from,
{
    if from < 0 || from >= s.len() {
        Seq::empty()
    } else if bare_match_at(s, from) {
        proof {
            bare_link_has_text(s, bare_start(s, from));
        }
        let start = bare_start(s, from);
        let end = run_end(s, start);
        seq![(start, "https://"@ + s.subrange(start, end))] + bare_found(s, end)
    } else {
        bare_found(s, from + 1)
    }
}

/// The links of a list of links with their positions.
pub open spec fn texts(found: Seq<(int, Seq<char>)>) -> Seq<Seq<char>> {
    Seq::new(found.len(), |k: int| found[k].1)
}

/// Two lists of links with their positions, both in the order of the positions, as one
/// list in that order.
pub open spec fn merged(a: Seq<(int, Seq<char>)>, b: Seq<(int, Seq<char>)>) -> Seq<
    (int, Seq<char>),
>
    decreases a.len() + b.len(),
{
    if a.len() == 0 {
        b
    } else if b.len() == 0 {
        a
    } else if a[0].0 <= b[0].0 {
        seq![a[0]] + merged(a.drop_first(), b)
    } else {
        seq![b[0]] + merged(a, b.drop_first())
    }
}

/// The links of a text, each with the position at which it starts, in the order in
/// which they stand in the text.
pub open spec fn found(s: Seq<char>) -> Seq<(int, Seq<char>)> {
    merged(schemed_found(s, 0), bare_found(s, 0))
}

/// The links with a scheme that name the marketplace, as they stand in `s` from
/// `from` on.
pub open spec fn schemed_links(s: Seq<char>, from: int) -> Seq<Seq<char>> {
    texts(schemed_found(s, from))
}

/// The bare links as they stand in `s` from `from` on, each with `https://` put before
/// it.
pub open spec fn bare_links(s: Seq<char>, from: int) -> Seq<Seq<char>> {
    texts(bare_found(s, from))
}

/// What is left of `s` from `from` on when every link with a scheme that names the
/// marketplace is cut out. A link with a scheme that does not name it is no link of
/// the marketplace and stays as it stands.
pub open spec fn without_schemed(s: Seq<char>, from: int) -> Seq<char>
    decreases s.len() - from,
{
    if from < 0 || from >= s.len() {
        Seq::empty()
    } else if schemed_at(s, from) {
        proof {
            schemed_link_has_text(s, from);
        }
        let end = run_end(s, from);
        let link = s.subrange(from, end);
        if names_marketplace(link) {
            without_schemed(s, end)
        } else {
            link + without_schemed(s, end)
        }
    } else {
        seq![s[from]] + without_schemed(s, from + 1)
    }
}

/// What is left of `s` from `from` on when every bare link is cut out, together with
/// the one white-space character before it.
pub open spec fn without_bare(s: Seq<char>, from: int) -> Seq<char>
    decreases s.len() - from,
{
    if from < 0 || from >= s.len() {
        Seq::empty()
    } else if bare_match_at(s, from) {
        proof {
            bare_link_has_text(s, bare_start(s, from));
        }
        without_bare(s, run_end(s, bare_start(s, from)))
    } else {
        seq![s[from]] + without_bare(s, from + 1)
    }
}

// Runs and words

/// A run that starts with a character that is no white space ends behind it.
pub proof fn run_end_is_behind_text(s: Seq<char>, i: int)
    requires
        0 <= i < s.len(),
        !is_space(s[i]),
    ensures
        i < run_end(s, i) <= s.len(),
{
    first_from_is_least(s.len() as int, i + 1, |j: int| is_space(s[j]));
}

/// A run holds no white space.
pub proof fn run_is_word(s: Seq<char>, i: int)
    requires
        0 <= i <= s.len(),
    ensures
        i <= run_end(s, i) <= s.len(),
        is_word(s.subrange(i, run_end(s, i))),
{
    let stop = |j: int| is_space(s[j]);
    first_from_is_least(s.len() as int, i, stop);
    let run = s.subrange(i, run_end(s, i));
    assert forall|k: int| 0 <= k < run.len() implies !is_space(#[trigger] run[k]) by {
        assert(!stop(i + k));
    }
}

/// A run that starts before a white-space character ends at it or before it.
pub proof fn run_ends_at_white_space(s: Seq<char>, i: int, space: int)
    requires
        0 <= i <= space < s.len(),
        is_space(s[space]),
    ensures
        run_end(s, i) <= space,
{
    let stop = |j: int| is_space(s[j]);
    first_from_is_least(s.len() as int, i, stop);
    if run_end(s, i) > space {
        assert(!stop(space));
    }
}

/// The fixed texts of the grammar hold no white space.
pub proof fn marks_are_words()
    ensures
        is_word("https://"@),
        is_word("http://"@),
        is_word("amazon."@),
        is_word("amzn.to"@),
{
    reveal_strlit("https://");
    reveal_strlit("http://");
    reveal_strlit("amazon.");
    reveal_strlit("amzn.to");
    let a = "https://"@;
    assert(!is_space(a[0]) && !is_space(a[1]) && !is_space(a[2]) && !is_space(a[3]) && !is_space(
        a[4],
    ) && !is_space(a[5]) && !is_space(a[6]) && !is_space(a[7]));
    let b = "http://"@;
    assert(!is_space(b[0]) && !is_space(b[1]) && !is_space(b[2]) && !is_space(b[3]) && !is_space(
        b[4],
    ) && !is_space(b[5]) && !is_space(b[6]));
    let c = "amazon."@;
    assert(!is_space(c[0]) && !is_space(c[1]) && !is_space(c[2]) && !is_space(c[3]) && !is_space(
        c[4],
    ) && !is_space(c[5]) && !is_space(c[6]));
    let d = "amzn.to"@;
    assert(!is_space(d[0]) && !is_space(d[1]) && !is_space(d[2]) && !is_space(d[3]) && !is_space(
        d[4],
    ) && !is_space(d[5]) && !is_space(d[6]));
}

/// A text that stands in a word, with a character of the word behind it, stands in it
/// at the same place when the word is taken by itself.
pub proof fn mark_stays_in_its_run(s: Seq<char>, pat: Seq<char>, i: int)
    requires
        occurs_at(s, pat, i),
        i + pat.len() < s.len(),
        is_word(pat),
        !is_space(s[i + pat.len()]),
    ensures
        i + pat.len() < run_end(s, i) <= s.len(),
        occurs_at(s.subrange(i, run_end(s, i)), pat, 0),
        s.subrange(i, run_end(s, i))[pat.len() as int] == s[i + pat.len()],
{
    let stop = |j: int| is_space(s[j]);
    let end = run_end(s, i);
    first_from_is_least(s.len() as int, i, stop);
    if end <= i + pat.len() {
        assert(stop(end));
        if end < i + pat.len() {
            assert(s.subrange(i, i + pat.len())[end - i] == s[end]);
            assert(!is_space(pat[end - i]));
        }
    }
    assert(s.subrange(i, end).subrange(0, pat.len() as int) =~= s.subrange(i, i + pat.len()));
}

/// No link starts at a white-space character.
pub proof fn space_is_no_start(s: Seq<char>, i: int)
    requires
        0 <= i < s.len(),
        is_space(s[i]),
    ensures
        !schemed_at(s, i),
        !bare_at(s, i),
{
    reveal_strlit("https://");
    reveal_strlit("http://");
    reveal_strlit("amazon.");
    reveal_strlit("amzn.to");
    if occurs_at(s, "https://"@, i) {
        assert(s.subrange(i, i + 8)[0] == 'h');
    }
    if occurs_at(s, "http://"@, i) {
        assert(s.subrange(i, i + 7)[0] == 'h');
    }
    if occurs_at(s, "amazon."@, i) {
        assert(s.subrange(i, i + 7)[0] == 'a');
    }
    if occurs_at(s, "amzn.to"@, i) {
        assert(s.subrange(i, i + 7)[0] == 'a');
    }
}

/// A link with a scheme ends behind its start.
pub proof fn schemed_link_has_text(s: Seq<char>, i: int)
    requires
        schemed_at(s, i),
    ensures
        i < run_end(s, i) <= s.len(),
{
    reveal_strlit("https://");
    reveal_strlit("http://");
    if text_follows(s, "https://"@, i) {
        assert(s.subrange(i, i + 8)[0] == 'h');
    } else {
        assert(s.subrange(i, i + 7)[0] == 'h');
    }
    run_end_is_behind_text(s, i);
}

/// A bare link ends behind its start.
pub proof fn bare_link_has_text(s: Seq<char>, i: int)
    requires
        bare_at(s, i),
    ensures
        i < run_end(s, i) <= s.len(),
{
    reveal_strlit("amazon.");
    reveal_strlit("amzn.to");
    assert(s.subrange(i, i + 7)[0] == 'a');
    run_end_is_behind_text(s, i);
}

// What is found is a link, and a word that is a link is found

/// A link with a scheme, taken by itself, is a word that starts with the scheme.
pub proof fn schemed_link_stands_alone(s: Seq<char>, i: int)
    requires
        schemed_at(s, i),
    ensures
        is_word(s.subrange(i, run_end(s, i))),
        schemed_at(s.subrange(i, run_end(s, i)), 0),
{
    marks_are_words();
    run_is_word(s, i);
    if text_follows(s, "https://"@, i) {
        mark_stays_in_its_run(s, "https://"@, i);
    } else {
        mark_stays_in_its_run(s, "http://"@, i);
    }
}

/// A bare link with `https://` before it is a word that starts with the scheme and
/// names the marketplace.
pub proof fn bare_link_gets_a_scheme(s: Seq<char>, i: int)
    requires
        bare_at(s, i),
    ensures
        is_word("https://"@ + s.subrange(i, run_end(s, i))),
        schemed_at("https://"@ + s.subrange(i, run_end(s, i)), 0),
        bare_at("https://"@ + s.subrange(i, run_end(s, i)), "https://"@.len() as int),
        names_marketplace("https://"@ + s.subrange(i, run_end(s, i))),
{
    marks_are_words();
    reveal_strlit("https://");
    reveal_strlit("amazon.");
    reveal_strlit("amzn.to");
    bare_link_has_text(s, i);
    run_is_word(s, i);
    let run = s.subrange(i, run_end(s, i));
    let link = "https://"@ + run;
    assert forall|k: int| 0 <= k < link.len() implies !is_space(#[trigger] link[k]) by {
        if k >= 8 {
            assert(link[k] == run[k - 8]);
        }
    }
    assert(link.subrange(0, 8) =~= "https://"@);
    assert(link[8] == run[0]);
    if occurs_at(s, "amazon."@, i) && i + 7 < s.len() && is_suffix_char(s[i + 7]) {
        assert(!is_space(s[i + 7]));
        mark_stays_in_its_run(s, "amazon."@, i);
        assert(link.subrange(8, 15) =~= run.subrange(0, 7));
        assert(link[15] == run[7]);
        assert(occurs_at(link, "amazon."@, 8));
    } else {
        if run.len() < 7 {
            let stop = |j: int| is_space(s[j]);
            first_from_is_least(s.len() as int, i, stop);
            assert(stop(run_end(s, i)));
            assert(s.subrange(i, i + 7)[run_end(s, i) - i] == s[run_end(s, i)]);
        }
        assert(run.subrange(0, 7) =~= s.subrange(i, i + 7));
        assert(link.subrange(8, 15) =~= run.subrange(0, 7));
        assert(occurs_at(link, "amzn.to"@, 8));
    }
}

/// Each link with a scheme that is found is a candidate link.
pub proof fn schemed_links_are_candidates(s: Seq<char>, from: int)
    ensures
        forall|k: int|
            0 <= k < schemed_links(s, from).len() ==> is_candidate(
                #[trigger] schemed_links(s, from)[k],
            ),
    decreases s.len() - from,
{
    schemed_links_step(s, from);
    if 0 <= from < s.len() {
        if schemed_at(s, from) {
            schemed_link_has_text(s, from);
            schemed_link_stands_alone(s, from);
            let end = run_end(s, from);
            schemed_links_are_candidates(s, end);
            let found = schemed_links(s, from);
            let rest = schemed_links(s, end);
            assert forall|k: int| 0 <= k < found.len() implies is_candidate(#[trigger] found[k]) by {
                if names_marketplace(s.subrange(from, end)) {
                    if k > 0 {
                        assert(found[k] == rest[k - 1]);
                    }
                } else {
                    assert(found[k] == rest[k]);
                }
            }
        } else {
            schemed_links_are_candidates(s, from + 1);
            assert(schemed_links(s, from) == schemed_links(s, from + 1));
        }
    } else {
        assert(schemed_links(s, from).len() == 0);
    }
}

/// Each bare link that is found is a candidate link, with a bare marketplace domain
/// behind `https://`.
pub proof fn bare_links_are_candidates(s: Seq<char>, from: int)
    ensures
        forall|k: int|
            0 <= k < bare_links(s, from).len() ==> is_candidate(#[trigger] bare_links(s, from)[k])
                && bare_at(bare_links(s, from)[k], "https://"@.len() as int),
    decreases s.len() - from,
{
    bare_links_step(s, from);
    if 0 <= from < s.len() {
        if bare_match_at(s, from) {
            let start = bare_start(s, from);
            bare_link_has_text(s, start);
            bare_link_gets_a_scheme(s, start);
            let end = run_end(s, start);
            bare_links_are_candidates(s, end);
            let found = bare_links(s, from);
            let rest = bare_links(s, end);
            assert forall|k: int| 0 <= k < found.len() implies is_candidate(#[trigger] found[k])
                && bare_at(found[k], "https://"@.len() as int) by {
                if k > 0 {
                    assert(found[k] == rest[k - 1]);
                }
            }
        } else {
            bare_links_are_candidates(s, from + 1);
            assert(bare_links(s, from) == bare_links(s, from + 1));
        }
    } else {
        assert(bare_links(s, from).len() == 0);
    }
}

/// A word that starts with a scheme and names the marketplace is found as a link, from
/// wherever before it the search starts.
pub proof fn schemed_word_is_found(s: Seq<char>, from: int, p: int)
    requires
        0 <= from <= p,
        word_starts_at(s, p),
        schemed_at(s, p),
        names_marketplace(s.subrange(p, run_end(s, p))),
    ensures
        schemed_links(s, from).contains(s.subrange(p, run_end(s, p))),
    decreases p - from,
{
    schemed_links_step(s, from);
    let link = s.subrange(p, run_end(s, p));
    let found = schemed_links(s, from);
    if from == p {
        assert(found[0] == link);
    } else if schemed_at(s, from) {
        schemed_link_has_text(s, from);
        let end = run_end(s, from);
        run_ends_at_white_space(s, from, p - 1);
        schemed_word_is_found(s, end, p);
        let rest = schemed_links(s, end);
        let k = choose|k: int| 0 <= k < rest.len() && rest[k] == link;
        if names_marketplace(s.subrange(from, end)) {
            assert(found[k + 1] == rest[k]);
        } else {
            assert(found[k] == rest[k]);
        }
    } else {
        schemed_word_is_found(s, from + 1, p);
        assert(found == schemed_links(s, from + 1));
    }
}

/// A word that starts with a bare marketplace domain is found as a link, from wherever
/// before it the search starts.
pub proof fn bare_word_is_found(s: Seq<char>, from: int, p: int)
    requires
        0 <= from,
        from < p || from == 0,
        word_starts_at(s, p),
        bare_at(s, p),
    ensures
        bare_links(s, from).contains("https://"@ + s.subrange(p, run_end(s, p))),
    decreases p - from,
{
    bare_links_step(s, from);
    let link = "https://"@ + s.subrange(p, run_end(s, p));
    let found = bare_links(s, from);
    if p > 0 {
        space_is_no_start(s, p - 1);
    }
    if (p == 0 && from == 0) || from == p - 1 {
        assert(bare_match_at(s, from));
        assert(bare_start(s, from) == p);
        assert(found[0] == link);
    } else if bare_match_at(s, from) {
        let start = bare_start(s, from);
        bare_link_has_text(s, start);
        let end = run_end(s, start);
        run_ends_at_white_space(s, start, p - 1);
        bare_word_is_found(s, end, p);
        let rest = bare_links(s, end);
        let k = choose|k: int| 0 <= k < rest.len() && rest[k] == link;
        assert(found[k + 1] == rest[k]);
    } else {
        bare_word_is_found(s, from + 1, p);
        assert(found == bare_links(s, from + 1));
    }
}

// The scanners

/// The fixed texts of the grammar, as characters.
pub struct Marks {
    https: Vec<char>,
    http: Vec<char>,
    amazon: Vec<char>,
    amzn: Vec<char>,
}

impl Marks {
    /// Each field holds the text that it is named after.
    pub closed spec fn wf(&self) -> bool {
        &&& self.https@ == "https://"@
        &&& self.http@ == "http://"@
        &&& self.amazon@ == "amazon."@
        &&& self.amzn@ == "amzn.to"@
    }

    /// The texts, taken apart into characters once.
    pub fn new() -> (marks: Marks)
        ensures
            marks.wf(),
    {
        Marks {
            https: chars_of("https://"),
            http: chars_of("http://"),
            amazon: chars_of("amazon."),
            amzn: chars_of("amzn.to"),
        }
    }

    /// Decides `schemed_at`.
    pub fn is_schemed_at(&self, s: &[char], i: usize) -> (b: bool)
        requires
            self.wf(),
        ensures
            b == schemed_at(s@, i as int),
    {
        follows_text(s, self.https.as_slice(), i) || follows_text(s, self.http.as_slice(), i)
    }

    /// Decides `bare_at`.
    pub fn is_bare_at(&self, s: &[char], i: usize) -> (b: bool)
        requires
            self.wf(),
        ensures
            b == bare_at(s@, i as int),
    {
        let lead = self.amazon.as_slice();
        (matches_at(s, i, lead) && lead.len() < s.len() - i && is_suffix(s[i + lead.len()]))
            || matches_at(s, i, self.amzn.as_slice())
    }

    /// Decides `bare_match_at`.
    pub fn is_bare_match_at(&self, s: &[char], from: usize) -> (b: bool)
        requires
            self.wf(),
        ensures
            b == bare_match_at(s@, from as int),
    {
        (from == 0 && self.is_bare_at(s, 0)) || (from < s.len() && is_space_char(s[from])
            && self.is_bare_at(s, from + 1))
    }

    /// Decides `names_marketplace`.
    pub fn names(&self, t: &[char]) -> (b: bool)
        requires
            self.wf(),
        ensures
            b == names_marketplace(t@),
    {
        has(t, self.amazon.as_slice()) || has(t, self.amzn.as_slice())
    }
}

/// Decides `is_suffix_char`.
pub fn is_suffix(c: char) -> (b: bool)
    ensures
        b == is_suffix_char(c),
{
    ('a' <= c && c <= 'z') || c == '.'
}

/// Decides `text_follows`.
pub fn follows_text(s: &[char], pat: &[char], i: usize) -> (b: bool)
    ensures
        b == text_follows(s@, pat@, i as int),
{
    matches_at(s, i, pat) && pat.len() < s.len() - i && !is_space_char(s[i + pat.len()])
}

/// Computes `run_end`.
pub fn end_of_run(s: &[char], i: usize) -> (end: usize)
    ensures
        end == run_end(s@, i as int),
        i <= s.len() ==> end <= s.len(),
{
    if i >= s.len() {
        return i;
    }
    let mut end: usize = i;
    while end < s.len() && !is_space_char(s[end])
        invariant
            i <= end <= s.len(),
            forall|j: int| i <= j < end ==> !is_space(s@[j]),
        decreases s.len() - end,
    {
        end += 1;
    }
    proof {
        let stop = |j: int| is_space(s@[j]);
        assert(end < s.len() ==> stop(end as int));
        first_from_is_unique(s.len() as int, i as int, stop, end as int);
    }
    end
}

} // verus!
