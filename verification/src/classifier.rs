//! The content classifier: whether a message holds links only, or links among other
//! text.

use crate::extractor::{extracted, extracted_links_are_candidates, extracted_links_are_distinct};
use crate::grammar::{
    bare_at, bare_link_has_text, bare_links, bare_links_step, bare_match_at, bare_start,
    end_of_run,
    is_suffix_char, is_word, marks_are_words, names_marketplace, run_end,
    run_ends_at_white_space, schemed_at, schemed_link_has_text, schemed_links, schemed_links_step,
    space_is_no_start, without_bare, without_schemed, word_starts_at, Marks,
};
use crate::text::{
    chars_of, contains, first_from_is_least, first_from_is_unique, is_blank, is_space,
    is_space_char, occurs_at,
};
use vstd::prelude::*;
use vstd::slice::slice_subrange;
use vstd::string::*;

verus! {

/// What is left of a text when the links that the extractor finds in it are cut out:
/// first those with a scheme that name the marketplace, then the bare ones.
pub open spec fn remainder(text: Seq<char>) -> Seq<char> {
    without_bare(without_schemed(text, 0), 0)
}

/// A text is link-only where it names the marketplace and nothing but white space is
/// left of it when its links are cut out.
pub open spec fn link_only(text: Seq<char>) -> bool {
    names_marketplace(text) && is_blank(remainder(text))
}

/// Where no link with a scheme starts, nothing is cut out.
pub proof fn without_schemed_keeps_plain_text(s: Seq<char>, from: int)
    requires
        0 <= from <= s.len(),
        forall|i: int| from <= i < s.len() ==> !schemed_at(s, i),
    ensures
        without_schemed(s, from) == s.subrange(from, s.len() as int),
    decreases s.len() - from,
{
    if from < s.len() {
        without_schemed_keeps_plain_text(s, from + 1);
        assert(seq![s[from]] + s.subrange(from + 1, s.len() as int) =~= s.subrange(
            from,
            s.len() as int,
        ));
    } else {
        assert(s.subrange(from, s.len() as int) =~= Seq::<char>::empty());
    }
}

/// As far as what is left begins with text, it is the text that stood there before:
/// what follows on a link that was cut out is white space.
pub proof fn without_schemed_keeps_leading_text(s: Seq<char>, from: int, k: int)
    requires
        0 <= from <= s.len(),
        0 <= k <= without_schemed(s, from).len(),
        forall|i: int| 0 <= i < k ==> !is_space(without_schemed(s, from)[i]),
    ensures
        from + k <= s.len(),
        forall|i: int| 0 <= i < k ==> without_schemed(s, from)[i] == s[from + i],
    decreases s.len() - from,
{
    if k > 0 {
        let left = without_schemed(s, from);
        if schemed_at(s, from) {
            schemed_link_has_text(s, from);
            let end = run_end(s, from);
            let link = s.subrange(from, end);
            let behind = without_schemed(s, end);
            let kept = if names_marketplace(link) {
                Seq::<char>::empty()
            } else {
                link
            };
            assert(left == kept + behind);
            if kept.len() < k {
                let stop = |j: int| is_space(s[j]);
                first_from_is_least(s.len() as int, from, stop);
                assert(behind.len() > 0);
                assert(stop(end));
                space_is_no_start(s, end);
                assert(behind[0] == s[end]);
                assert(left[kept.len() as int] == behind[0]);
            }
        } else {
            let rest = without_schemed(s, from + 1);
            assert forall|i: int| 0 <= i < k - 1 implies !is_space(rest[i]) by {
                assert(rest[i] == left[i + 1]);
            }
            without_schemed_keeps_leading_text(s, from + 1, k - 1);
            assert forall|i: int| 0 <= i < k implies left[i] == s[from + i] by {
                if i > 0 {
                    assert(left[i] == rest[i - 1]);
                }
            }
        }
    }
}

/// A word that is one link is link-only: a link with a scheme that names the
/// marketplace, or a bare link in which no scheme stands.
pub proof fn single_link_is_link_only(s: Seq<char>)
    requires
        is_word(s),
        (schemed_at(s, 0) && names_marketplace(s)) || (bare_at(s, 0) && forall|i: int|
            0 <= i < s.len() ==> !schemed_at(s, i)),
    ensures
        link_only(s),
{
    let stop = |j: int| is_space(s[j]);
    let len = s.len() as int;
    assert forall|j: int| 0 <= j < len implies !(#[trigger] stop(j)) by {}
    first_from_is_unique(len, 0, stop, len);
    assert(run_end(s, 0) == len);
    if schemed_at(s, 0) {
        schemed_link_has_text(s, 0);
        assert(s.subrange(0, len) =~= s);
        assert(without_schemed(s, len) =~= Seq::<char>::empty());
        assert(without_schemed(s, 0) == without_schemed(s, len));
        assert(without_bare(Seq::<char>::empty(), 0) =~= Seq::<char>::empty());
    } else {
        bare_link_has_text(s, 0);
        without_schemed_keeps_plain_text(s, 0);
        assert(s.subrange(0, len) =~= s);
        assert(bare_match_at(s, 0));
        assert(bare_start(s, 0) == 0);
        assert(without_bare(s, len) =~= Seq::<char>::empty());
        assert(without_bare(s, 0) == without_bare(s, len));
        bare_link_names_marketplace(s, 0);
    }
}

/// Each link that is extracted from a text is, taken by itself, link-only.
pub proof fn extracted_link_is_link_only(text: Seq<char>, k: int)
    requires
        0 <= k < extracted(text).len(),
    ensures
        link_only(extracted(text)[k]),
{
    extracted_links_are_candidates(text);
    single_link_is_link_only(extracted(text)[k]);
}

/// A text in which a bare link starts names the marketplace.
pub proof fn bare_link_names_marketplace(s: Seq<char>, i: int)
    requires
        bare_at(s, i),
    ensures
        names_marketplace(s),
{
    if occurs_at(s, "amazon."@, i) {
        assert(contains(s, "amazon."@));
    } else {
        assert(occurs_at(s, "amzn.to"@, i));
        assert(contains(s, "amzn.to"@));
    }
}

/// A text that begins with a character that is neither white space nor the start of a
/// link is never link-only.
pub proof fn leading_word_makes_mixed(s: Seq<char>)
    requires
        s.len() > 0,
        !is_space(s[0]),
        !schemed_at(s, 0),
        !bare_at(s, 0),
    ensures
        !link_only(s),
{
    reveal_strlit("amazon.");
    reveal_strlit("amzn.to");
    let left = without_schemed(s, 0);
    assert(left[0] == s[0]);
    if bare_at(left, 0) {
        let lead = left.subrange(0, 7);
        assert(lead[0] == left[0] && lead[1] == left[1] && lead[2] == left[2] && lead[3] == left[3]
            && lead[4] == left[4] && lead[5] == left[5] && lead[6] == left[6]);
        if occurs_at(left, "amazon."@, 0) && 7 < left.len() && is_suffix_char(left[7]) {
            assert forall|i: int| 0 <= i < 8 implies !is_space(left[i]) by {}
            without_schemed_keeps_leading_text(s, 0, 8);
            assert(s.subrange(0, 7) =~= lead);
            assert(s[7] == left[7]);
        } else {
            assert(occurs_at(left, "amzn.to"@, 0));
            assert forall|i: int| 0 <= i < 7 implies !is_space(left[i]) by {}
            without_schemed_keeps_leading_text(s, 0, 7);
            assert(s.subrange(0, 7) =~= lead);
        }
        assert(false);
    }
    assert(!bare_match_at(left, 0));
    assert(remainder(s)[0] == left[0]);
}

/// Where no link is found, nothing is cut out.
pub proof fn nothing_found_nothing_cut(s: Seq<char>, from: int)
    requires
        0 <= from <= s.len(),
    ensures
        schemed_links(s, from).len() == 0 ==> without_schemed(s, from) == s.subrange(
            from,
            s.len() as int,
        ),
        bare_links(s, from).len() == 0 ==> without_bare(s, from) == s.subrange(
            from,
            s.len() as int,
        ),
    decreases s.len() - from,
{
    let len = s.len() as int;
    schemed_links_step(s, from);
    bare_links_step(s, from);
    if from < len {
        if schemed_at(s, from) {
            schemed_link_has_text(s, from);
            let end = run_end(s, from);
            nothing_found_nothing_cut(s, end);
            if schemed_links(s, from).len() == 0 {
                assert(!names_marketplace(s.subrange(from, end)));
                assert(s.subrange(from, end) + s.subrange(end, len) =~= s.subrange(from, len));
            }
        } else {
            nothing_found_nothing_cut(s, from + 1);
            assert(seq![s[from]] + s.subrange(from + 1, len) =~= s.subrange(from, len));
        }
        if !bare_match_at(s, from) {
            nothing_found_nothing_cut(s, from + 1);
            assert(seq![s[from]] + s.subrange(from + 1, len) =~= s.subrange(from, len));
        }
    } else {
        assert(s.subrange(from, len) =~= Seq::<char>::empty());
    }
}

/// A text that names the marketplace is not blank.
pub proof fn marketplace_name_is_text(s: Seq<char>)
    requires
        names_marketplace(s),
    ensures
        !is_blank(s),
{
    marks_are_words();
    reveal_strlit("amazon.");
    reveal_strlit("amzn.to");
    if contains(s, "amazon."@) {
        let i = choose|i: int| occurs_at(s, "amazon."@, i);
        assert(s.subrange(i, i + 7)[0] == s[i]);
        assert(!is_space(s[i]));
    } else {
        let i = choose|i: int| occurs_at(s, "amzn.to"@, i);
        assert(s.subrange(i, i + 7)[0] == s[i]);
        assert(!is_space(s[i]));
    }
}

/// In a link-only text the extractor finds at least one link.
pub proof fn link_only_text_holds_a_link(s: Seq<char>)
    requires
        link_only(s),
    ensures
        extracted(s).len() > 0,
{
    let schemed = schemed_links(s, 0);
    let bare = bare_links(s, 0);
    if schemed.len() == 0 && bare.len() == 0 {
        nothing_found_nothing_cut(s, 0);
        assert(s.subrange(0, s.len() as int) =~= s);
        assert(remainder(s) == s);
        marketplace_name_is_text(s);
    } else {
        extracted_links_are_distinct(s);
        let link = if schemed.len() > 0 {
            schemed[0]
        } else {
            bare[0]
        };
        assert(schemed.contains(link) || bare.contains(link));
        assert(extracted(s).contains(link));
    }
}

/// What is left when the links with a scheme that name the marketplace are cut out
/// still holds the start of one that does not name it, at the start of a word.
pub proof fn other_link_is_left(s: Seq<char>, from: int, p: int) -> (q: int)
    requires
        0 <= from <= p,
        word_starts_at(s, p),
        schemed_at(s, p),
        !names_marketplace(s.subrange(p, run_end(s, p))),
    ensures
        0 <= q < without_schemed(s, from).len(),
        without_schemed(s, from)[q] == s[p],
        q > 0 ==> is_space(without_schemed(s, from)[q - 1]),
        q == 0 ==> from == p,
    decreases p - from,
{
    let left = without_schemed(s, from);
    if from == p {
        schemed_link_has_text(s, p);
        let link = s.subrange(p, run_end(s, p));
        assert(left == link + without_schemed(s, run_end(s, p)));
        assert(left[0] == link[0]);
        0
    } else if schemed_at(s, from) {
        schemed_link_has_text(s, from);
        let end = run_end(s, from);
        run_ends_at_white_space(s, from, p - 1);
        let q = other_link_is_left(s, end, p);
        let behind = without_schemed(s, end);
        let link = s.subrange(from, end);
        if names_marketplace(link) {
            q
        } else {
            assert(left == link + behind);
            assert(left[link.len() + q] == behind[q]);
            assert(left[link.len() + q - 1] == behind[q - 1]);
            link.len() + q
        }
    } else {
        let q = other_link_is_left(s, from + 1, p);
        let behind = without_schemed(s, from + 1);
        assert(left == seq![s[from]] + behind);
        assert(left[q + 1] == behind[q]);
        if q > 0 {
            assert(left[q] == behind[q - 1]);
        } else {
            assert(left[0] == s[p - 1]);
        }
        q + 1
    }
}

/// A word that no bare link starts is left when the bare links are cut out.
pub proof fn other_word_is_left(t: Seq<char>, from: int, q: int)
    requires
        0 <= from <= q,
        word_starts_at(t, q),
        !bare_at(t, q),
    ensures
        !is_blank(without_bare(t, from)),
    decreases q - from,
{
    let left = without_bare(t, from);
    if from == q {
        assert(!bare_match_at(t, from));
        assert(left[0] == t[q]);
    } else if bare_match_at(t, from) {
        let start = bare_start(t, from);
        bare_link_has_text(t, start);
        run_ends_at_white_space(t, start, q - 1);
        other_word_is_left(t, run_end(t, start), q);
    } else {
        other_word_is_left(t, from + 1, q);
        let behind = without_bare(t, from + 1);
        let k = choose|k: int| 0 <= k < behind.len() && !is_space(#[trigger] behind[k]);
        assert(left[k + 1] == behind[k]);
    }
}

/// A text that holds, as the start of a word, a link with a scheme that does not name
/// the marketplace is never link-only.
pub proof fn other_link_makes_mixed(s: Seq<char>, p: int)
    requires
        word_starts_at(s, p),
        schemed_at(s, p),
        !names_marketplace(s.subrange(p, run_end(s, p))),
    ensures
        !link_only(s),
{
    reveal_strlit("https://");
    reveal_strlit("http://");
    reveal_strlit("amazon.");
    reveal_strlit("amzn.to");
    let left = without_schemed(s, 0);
    let q = other_link_is_left(s, 0, p);
    if occurs_at(s, "https://"@, p) {
        assert(s.subrange(p, p + 8)[0] == 'h');
    } else {
        assert(s.subrange(p, p + 7)[0] == 'h');
    }
    assert(left[q] == 'h');
    if bare_at(left, q) {
        assert(left.subrange(q, q + 7)[0] == 'a');
    }
    other_word_is_left(left, 0, q);
}

/// Cuts the links with a scheme that name the marketplace out of `s`.
pub fn cut_schemed(s: &[char], marks: &Marks) -> (rest: Vec<char>)
    requires
        marks.wf(),
    ensures
        rest@ == without_schemed(s@, 0),
{
    let mut rest: Vec<char> = Vec::new();
    let mut pos: usize = 0;
    while pos < s.len()
        invariant
            pos <= s.len(),
            marks.wf(),
            rest@ + without_schemed(s@, pos as int) == without_schemed(s@, 0),
        decreases s.len() - pos,
    {
        if marks.is_schemed_at(s, pos) {
            proof {
                schemed_link_has_text(s@, pos as int);
            }
            let end = end_of_run(s, pos);
            if !marks.names(slice_subrange(s, pos, end)) {
                let ghost before = rest@;
                let mut i: usize = pos;
                while i < end
                    invariant
                        pos <= i <= end <= s.len(),
                        rest@ == before + s@.subrange(pos as int, i as int),
                    decreases end - i,
                {
                    rest.push(s[i]);
                    i += 1;
                    assert(rest@ =~= before + s@.subrange(pos as int, i as int));
                }
                assert(rest@ + without_schemed(s@, end as int) =~= before + without_schemed(
                    s@,
                    pos as int,
                ));
            }
            pos = end;
        } else {
            proof {
                assert(rest@.push(s@[pos as int]) + without_schemed(s@, pos + 1) =~= rest@
                    + without_schemed(s@, pos as int));
            }
            rest.push(s[pos]);
            pos += 1;
        }
    }
    assert(rest@ =~= rest@ + without_schemed(s@, pos as int));
    rest
}

/// Cuts the bare links out of `s`, each with the white-space character before it.
pub fn cut_bare(s: &[char], marks: &Marks) -> (rest: Vec<char>)
    requires
        marks.wf(),
    ensures
        rest@ == without_bare(s@, 0),
{
    let mut rest: Vec<char> = Vec::new();
    let mut pos: usize = 0;
    while pos < s.len()
        invariant
            pos <= s.len(),
            marks.wf(),
            rest@ + without_bare(s@, pos as int) == without_bare(s@, 0),
        decreases s.len() - pos,
    {
        if marks.is_bare_match_at(s, pos) {
            let start = if pos == 0 && marks.is_bare_at(s, 0) {
                0
            } else {
                pos + 1
            };
            proof {
                bare_link_has_text(s@, start as int);
            }
            pos = end_of_run(s, start);
        } else {
            proof {
                assert(rest@.push(s@[pos as int]) + without_bare(s@, pos + 1) =~= rest@
                    + without_bare(s@, pos as int));
            }
            rest.push(s[pos]);
            pos += 1;
        }
    }
    assert(rest@ =~= rest@ + without_bare(s@, pos as int));
    rest
}

/// Decides `is_blank`.
pub fn all_space(s: &[char]) -> (b: bool)
    ensures
        b == is_blank(s@),
{
    let mut i: usize = 0;
    while i < s.len()
        invariant
            i <= s.len(),
            forall|j: int| 0 <= j < i ==> is_space(#[trigger] s@[j]),
        decreases s.len() - i,
    {
        if !is_space_char(s[i]) {
            return false;
        }
        i += 1;
    }
    true
}

/// Whether a message holds marketplace links and white space only.
pub fn is_amazon_link_only(content: &str) -> (only: bool)
    ensures
        only == link_only(content@),
{
    let text = chars_of(content);
    let marks = Marks::new();
    if !marks.names(text.as_slice()) {
        return false;
    }
    let first = cut_schemed(text.as_slice(), &marks);
    let second = cut_bare(first.as_slice(), &marks);
    all_space(second.as_slice())
}

} // verus!
