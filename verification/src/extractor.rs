//! The link extractor: the candidate links of a text in the order in which they stand
//! in it, each once.

use crate::grammar::{
    bare_at, bare_found, bare_link_has_text, bare_links, bare_links_are_candidates,
    bare_word_is_found, end_of_run, found, found_links_stand_in_the_text, is_bare_link_at,
    is_candidate, is_schemed_link_at, merged, merged_holds_both, names_marketplace, run_end,
    schemed_at, schemed_found, schemed_link_has_text, schemed_links,
    schemed_links_are_candidates, schemed_word_is_found, texts, word_starts_at, Marks,
};
use crate::text::{chars_of, first_from, first_from_is_least, first_from_is_unique};
use vstd::prelude::*;
use vstd::slice::slice_subrange;
use vstd::string::*;

verus! {

/// `list` with `item` at its end, unless it holds `item` already.
pub open spec fn push_new(list: Seq<Seq<char>>, item: Seq<char>) -> Seq<Seq<char>> {
    if list.contains(item) {
        list
    } else {
        list.push(item)
    }
}

/// `list` with each item kept where it first occurs and left out after that.
pub open spec fn without_repeats(list: Seq<Seq<char>>) -> Seq<Seq<char>>
    decreases list.len(),
{
    if list.len() == 0 {
        list
    } else {
        push_new(without_repeats(list.drop_last()), list.last())
    }
}

/// The candidate links of a text: the links with a scheme that name the marketplace
/// and the bare links, in the order in which they start in the text, each once, where
/// it first occurs.
pub open spec fn extracted(text: Seq<char>) -> Seq<Seq<char>> {
    without_repeats(texts(found(text)))
}

/// The position in the text at which `link` first starts, or the length of the text
/// where it is not found.
pub open spec fn first_position(text: Seq<char>, link: Seq<char>) -> int {
    let at = first_index(texts(found(text)), link);
    if 0 <= at < found(text).len() {
        found(text)[at].0
    } else {
        text.len() as int
    }
}

/// `without_repeats` holds what the list holds, and nothing twice.
pub proof fn without_repeats_keeps_each_once(list: Seq<Seq<char>>)
    ensures
        without_repeats(list).no_duplicates(),
        forall|item: Seq<char>| without_repeats(list).contains(item) <==> list.contains(item),
    decreases list.len(),
{
    if list.len() > 0 {
        let front = list.drop_last();
        let kept = without_repeats(front);
        without_repeats_keeps_each_once(front);
        assert forall|item: Seq<char>| without_repeats(list).contains(item) <==> list.contains(
            item,
        ) by {
            if list.contains(item) {
                let i = choose|i: int| 0 <= i < list.len() && list[i] == item;
                if i < front.len() {
                    assert(front[i] == item);
                    assert(front.contains(item));
                    assert(kept.contains(item));
                }
                if kept.contains(item) {
                    let k = choose|k: int| 0 <= k < kept.len() && kept[k] == item;
                    assert(without_repeats(list)[k] == item);
                } else {
                    assert(item == list.last());
                    assert(kept.push(item)[kept.len() as int] == item);
                }
            }
            if without_repeats(list).contains(item) {
                let k = choose|k: int|
                    0 <= k < without_repeats(list).len() && without_repeats(list)[k] == item;
                if k < kept.len() {
                    assert(kept[k] == item);
                    assert(kept.contains(item));
                    assert(front.contains(item));
                    let i = choose|i: int| 0 <= i < front.len() && front[i] == item;
                    assert(list[i] == item);
                } else {
                    assert(item == list.last());
                    assert(list[list.len() - 1] == item);
                }
            }
        }
    }
}

/// Where `item` first occurs in `list`, or the length of `list` where it does not
/// occur.
pub open spec fn first_index(list: Seq<Seq<char>>, item: Seq<char>) -> int {
    first_from(list.len() as int, 0, |j: int| stands_at(list, item, j))
}

/// `item` stands in `list` at position `j`.
pub open spec fn stands_at(list: Seq<Seq<char>>, item: Seq<char>, j: int) -> bool {
    list[j] == item
}

/// What is kept stands in the order in which it first occurs in the list. For the
/// links of a text, whose list goes by their positions, `extracted_links_stand_in_text_order`
/// says the same of the positions in the text.
pub proof fn without_repeats_keeps_list_order(list: Seq<Seq<char>>)
    ensures
        forall|i: int, j: int|
            0 <= i < j < without_repeats(list).len() ==> first_index(
                list,
                #[trigger] without_repeats(list)[i],
            ) < first_index(list, #[trigger] without_repeats(list)[j]) < list.len(),
    decreases list.len(),
{
    let kept = without_repeats(list);
    if list.len() > 0 {
        let front = list.drop_last();
        let before = without_repeats(front);
        without_repeats_keeps_list_order(front);
        without_repeats_keeps_each_once(front);
        assert forall|i: int, j: int| 0 <= i < j < kept.len() implies first_index(
            list,
            #[trigger] kept[i],
        ) < first_index(list, #[trigger] kept[j]) < list.len() by {
            assert(before.contains(before[i]));
            first_index_of_earlier_item(list, kept[i]);
            if j < before.len() {
                assert(before.contains(before[j]));
                first_index_of_earlier_item(list, kept[j]);
                assert(first_index(front, before[i]) < first_index(front, before[j]));
            } else {
                assert(kept[j] == list.last());
                assert(!front.contains(list.last()));
                first_index_of_last_item(list);
            }
        }
    }
}

/// An item that occurs before the last position first occurs where it does in the
/// list without its last item.
proof fn first_index_of_earlier_item(list: Seq<Seq<char>>, item: Seq<char>)
    requires
        list.len() > 0,
        list.drop_last().contains(item),
    ensures
        first_index(list, item) == first_index(list.drop_last(), item),
        first_index(list, item) < list.len() - 1,
{
    let front = list.drop_last();
    let stop = |j: int| stands_at(front, item, j);
    first_from_is_least(front.len() as int, 0, stop);
    let at = first_index(front, item);
    if at >= front.len() {
        let k = choose|k: int| 0 <= k < front.len() && front[k] == item;
        assert(!stop(k));
    }
    let whole = |j: int| stands_at(list, item, j);
    assert forall|j: int| 0 <= j < at implies !(#[trigger] whole(j)) by {
        assert(!stop(j));
        assert(front[j] == list[j]);
    }
    assert(stop(at));
    assert(front[at] == list[at]);
    assert(whole(at));
    first_from_is_unique(list.len() as int, 0, whole, at);
}

/// An item that occurs at the last position only first occurs there.
proof fn first_index_of_last_item(list: Seq<Seq<char>>)
    requires
        list.len() > 0,
        !list.drop_last().contains(list.last()),
    ensures
        first_index(list, list.last()) == list.len() - 1,
{
    let front = list.drop_last();
    let whole = |j: int| stands_at(list, list.last(), j);
    assert forall|j: int| 0 <= j < list.len() - 1 implies !(#[trigger] whole(j)) by {
        assert(front[j] == list[j]);
        if list[j] == list.last() {
            assert(front.contains(list.last()));
        }
    }
    assert(whole(list.len() - 1));
    first_from_is_unique(list.len() as int, 0, whole, list.len() - 1);
}

/// A list in which nothing occurs twice is left as it is.
pub proof fn without_repeats_keeps_distinct(list: Seq<Seq<char>>)
    requires
        list.no_duplicates(),
    ensures
        without_repeats(list) == list,
    decreases list.len(),
{
    if list.len() > 0 {
        let front = list.drop_last();
        assert(front.no_duplicates());
        without_repeats_keeps_distinct(front);
        if front.contains(list.last()) {
            let i = choose|i: int| 0 <= i < front.len() && front[i] == list.last();
            assert(list[i] == list[list.len() - 1]);
        }
        assert(front.push(list.last()) =~= list);
    }
}

/// Leaving the repeats out a second time changes nothing.
pub proof fn without_repeats_is_idempotent(list: Seq<Seq<char>>)
    ensures
        without_repeats(without_repeats(list)) == without_repeats(list),
{
    without_repeats_keeps_each_once(list);
    without_repeats_keeps_distinct(without_repeats(list));
}

/// A link is among the links of a text if and only if it is found as a link with a
/// scheme or as a bare link.
pub proof fn found_links_are_of_both_kinds(text: Seq<char>)
    ensures
        forall|link: Seq<char>|
            texts(found(text)).contains(link) <==> schemed_links(text, 0).contains(link)
                || bare_links(text, 0).contains(link),
        found(text).len() == schemed_links(text, 0).len() + bare_links(text, 0).len(),
{
    let a = schemed_found(text, 0);
    let b = bare_found(text, 0);
    let all = found(text);
    found_links_stand_in_the_text(text);
    merged_holds_both(a, b);
    assert forall|link: Seq<char>|
        texts(all).contains(link) <==> schemed_links(text, 0).contains(link) || bare_links(
            text,
            0,
        ).contains(link) by {
        if texts(all).contains(link) {
            let k = choose|k: int| 0 <= k < texts(all).len() && texts(all)[k] == link;
            assert(all.contains(all[k]));
            if a.contains(all[k]) {
                let i = choose|i: int| 0 <= i < a.len() && a[i] == all[k];
                assert(texts(a)[i] == link);
            } else {
                let i = choose|i: int| 0 <= i < b.len() && b[i] == all[k];
                assert(texts(b)[i] == link);
            }
        }
        if schemed_links(text, 0).contains(link) {
            let i = choose|i: int| 0 <= i < texts(a).len() && texts(a)[i] == link;
            assert(a.contains(a[i]));
            let k = choose|k: int| 0 <= k < all.len() && all[k] == a[i];
            assert(texts(all)[k] == link);
        }
        if bare_links(text, 0).contains(link) {
            let i = choose|i: int| 0 <= i < texts(b).len() && texts(b)[i] == link;
            assert(b.contains(b[i]));
            let k = choose|k: int| 0 <= k < all.len() && all[k] == b[i];
            assert(texts(all)[k] == link);
        }
    }
}

/// In what is extracted from a text no link occurs twice, and a link is extracted if
/// and only if it is found in the text, as a link with a scheme or as a bare link.
pub proof fn extracted_links_are_distinct(text: Seq<char>)
    ensures
        extracted(text).no_duplicates(),
        forall|link: Seq<char>|
            extracted(text).contains(link) <==> schemed_links(text, 0).contains(link)
                || bare_links(text, 0).contains(link),
{
    without_repeats_keeps_each_once(texts(found(text)));
    found_links_are_of_both_kinds(text);
}

/// The links that are extracted stand in the order of the positions at which each
/// first starts in the text.
pub proof fn extracted_links_stand_in_text_order(text: Seq<char>)
    ensures
        forall|i: int, j: int|
            0 <= i < j < extracted(text).len() ==> 0 <= first_position(
                text,
                #[trigger] extracted(text)[i],
            ) < first_position(text, #[trigger] extracted(text)[j]) < text.len(),
        forall|i: int|
            0 <= i < extracted(text).len() ==> {
                let link = #[trigger] extracted(text)[i];
                let p = first_position(text, link);
                is_schemed_link_at(text, p, link) || is_bare_link_at(text, p, link)
            },
{
    let all = found(text);
    let list = texts(all);
    let kept = extracted(text);
    without_repeats_keeps_list_order(list);
    without_repeats_keeps_each_once(list);
    found_links_stand_in_the_text(text);
    assert forall|i: int| 0 <= i < kept.len() implies {
        let at = first_index(list, #[trigger] kept[i]);
        0 <= at < all.len() && all[at].1 == kept[i]
    } by {
        assert(kept.contains(kept[i]));
        assert(list.contains(kept[i]));
        let stop = |j: int| stands_at(list, kept[i], j);
        first_from_is_least(list.len() as int, 0, stop);
        let at = first_index(list, kept[i]);
        if at >= list.len() {
            let k = choose|k: int| 0 <= k < list.len() && list[k] == kept[i];
            assert(!stop(k));
        }
        assert(stop(at));
    }
    assert forall|i: int, j: int| 0 <= i < j < kept.len() implies 0 <= first_position(
        text,
        #[trigger] kept[i],
    ) < first_position(text, #[trigger] kept[j]) < text.len() by {
        let a = first_index(list, kept[i]);
        let b = first_index(list, kept[j]);
        assert(a < b);
        assert(all[a].0 < all[b].0);
        assert(is_schemed_link_at(text, all[a].0, all[a].1) || is_bare_link_at(
            text,
            all[a].0,
            all[a].1,
        ));
        assert(is_schemed_link_at(text, all[b].0, all[b].1) || is_bare_link_at(
            text,
            all[b].0,
            all[b].1,
        ));
    }
    assert forall|i: int| 0 <= i < kept.len() implies {
        let link = #[trigger] kept[i];
        let p = first_position(text, link);
        is_schemed_link_at(text, p, link) || is_bare_link_at(text, p, link)
    } by {
        let a = first_index(list, kept[i]);
        assert(is_schemed_link_at(text, all[a].0, all[a].1) || is_bare_link_at(
            text,
            all[a].0,
            all[a].1,
        ));
    }
}

/// Each link that is extracted is a candidate link: a word that starts with a scheme
/// and names the marketplace.
pub proof fn extracted_links_are_candidates(text: Seq<char>)
    ensures
        forall|k: int|
            0 <= k < extracted(text).len() ==> is_candidate(#[trigger] extracted(text)[k]),
{
    let schemed = schemed_links(text, 0);
    let bare = bare_links(text, 0);
    extracted_links_are_distinct(text);
    schemed_links_are_candidates(text, 0);
    bare_links_are_candidates(text, 0);
    assert forall|k: int| 0 <= k < extracted(text).len() implies is_candidate(
        #[trigger] extracted(text)[k],
    ) by {
        let link = extracted(text)[k];
        assert(extracted(text).contains(link));
        if schemed.contains(link) {
            let i = choose|i: int| 0 <= i < schemed.len() && schemed[i] == link;
        } else {
            let i = choose|i: int| 0 <= i < bare.len() && bare[i] == link;
        }
    }
}

/// A word of the text that starts with a scheme and names the marketplace is
/// extracted as it stands; a word that starts with a bare marketplace domain is
/// extracted with `https://` before it.
pub proof fn words_that_are_links_are_extracted(text: Seq<char>, p: int)
    requires
        word_starts_at(text, p),
    ensures
        schemed_at(text, p) && names_marketplace(text.subrange(p, run_end(text, p)))
            ==> extracted(text).contains(text.subrange(p, run_end(text, p))),
        bare_at(text, p) ==> extracted(text).contains(
            "https://"@ + text.subrange(p, run_end(text, p)),
        ),
{
    extracted_links_are_distinct(text);
    if schemed_at(text, p) && names_marketplace(text.subrange(p, run_end(text, p))) {
        schemed_word_is_found(text, 0, p);
    }
    if bare_at(text, p) {
        bare_word_is_found(text, 0, p);
    }
}

/// Two runs of the extractor on one text give the same list, in the same order, and
/// nothing occurs twice in it.
pub proof fn extraction_is_repeatable(
    text: Seq<char>,
    first: Seq<Seq<char>>,
    second: Seq<Seq<char>>,
)
    requires
        first == extracted(text),
        second == extracted(text),
    ensures
        first == second,
        first.no_duplicates(),
        without_repeats(first) == first,
{
    extracted_links_are_distinct(text);
    without_repeats_keeps_distinct(first);
}

/// Puts `link` at the end of `urls` unless it is there already.
pub fn push_unique(urls: &mut Vec<String>, link: String)
    ensures
        final(urls).deep_view() == push_new(old(urls).deep_view(), link@),
{
    let mut i: usize = 0;
    while i < urls.len()
        invariant
            i <= urls.len(),
            *urls == *old(urls),
            forall|j: int| 0 <= j < i ==> urls.deep_view()[j] != link@,
        decreases urls.len() - i,
    {
        if urls[i] == link {
            assert(urls.deep_view()[i as int] == link@);
            return ;
        }
        i += 1;
    }
    urls.push(link);
    assert(urls.deep_view() =~= old(urls).deep_view().push(link@));
}

/// What each link of a list holds: its position and its text.
pub open spec fn found_view(list: Seq<(usize, String)>) -> Seq<(int, Seq<char>)> {
    Seq::new(list.len(), |k: int| (list[k].0 as int, list[k].1@))
}

/// Finds the links with a scheme that name the marketplace, each with its position.
pub fn find_schemed(content: &str, s: &[char], marks: &Marks) -> (list: Vec<(usize, String)>)
    requires
        marks.wf(),
        s@ == content@,
    ensures
        found_view(list@) == schemed_found(content@, 0),
{
    let n = s.len();
    let mut list: Vec<(usize, String)> = Vec::new();
    assert(found_view(list@) =~= Seq::empty());
    let mut pos: usize = 0;
    while pos < n
        invariant
            pos <= n,
            n == s@.len(),
            s@ == content@,
            marks.wf(),
            found_view(list@) + schemed_found(s@, pos as int) == schemed_found(s@, 0),
        decreases n - pos,
    {
        if marks.is_schemed_at(s, pos) {
            proof {
                schemed_link_has_text(s@, pos as int);
            }
            let end = end_of_run(s, pos);
            if marks.names(slice_subrange(s, pos, end)) {
                let ghost before = found_view(list@);
                let link = content.substring_char(pos, end).to_owned();
                list.push((pos, link));
                proof {
                    let item = (pos as int, s@.subrange(pos as int, end as int));
                    assert(found_view(list@) =~= before.push(item));
                    assert(before.push(item) + schemed_found(s@, end as int) =~= before + (
                        seq![item] + schemed_found(s@, end as int)));
                }
            }
            pos = end;
        } else {
            pos += 1;
        }
    }
    assert(found_view(list@) =~= found_view(list@) + schemed_found(s@, pos as int));
    list
}

/// Finds the bare links, each with its position and with `https://` put before it.
pub fn find_bare(content: &str, s: &[char], marks: &Marks) -> (list: Vec<(usize, String)>)
    requires
        marks.wf(),
        s@ == content@,
    ensures
        found_view(list@) == bare_found(content@, 0),
{
    let n = s.len();
    let mut list: Vec<(usize, String)> = Vec::new();
    assert(found_view(list@) =~= Seq::empty());
    let mut pos: usize = 0;
    while pos < n
        invariant
            pos <= n,
            n == s@.len(),
            s@ == content@,
            marks.wf(),
            found_view(list@) + bare_found(s@, pos as int) == bare_found(s@, 0),
        decreases n - pos,
    {
        if marks.is_bare_match_at(s, pos) {
            let start = if pos == 0 && marks.is_bare_at(s, 0) {
                0
            } else {
                pos + 1
            };
            proof {
                bare_link_has_text(s@, start as int);
            }
            let end = end_of_run(s, start);
            let ghost before = found_view(list@);
            let mut link = "https://".to_owned();
            link.append(content.substring_char(start, end));
            list.push((start, link));
            proof {
                let item = (start as int, "https://"@ + s@.subrange(start as int, end as int));
                assert(found_view(list@) =~= before.push(item));
                assert(before.push(item) + bare_found(s@, end as int) =~= before + (seq![item]
                    + bare_found(s@, end as int)));
            }
            pos = end;
        } else {
            pos += 1;
        }
    }
    assert(found_view(list@) =~= found_view(list@) + bare_found(s@, pos as int));
    list
}

/// Puts two lists of links, each in the order of its positions, into one list in that
/// order, and leaves out each link where it occurs again.
pub fn merge_links(schemed: &Vec<(usize, String)>, bare: &Vec<(usize, String)>) -> (urls: Vec<
    String,
>)
    ensures
        urls.deep_view() == without_repeats(texts(merged(found_view(schemed@), found_view(bare@)))),
{
    let ghost a = found_view(schemed@);
    let ghost b = found_view(bare@);
    let ghost mut done: Seq<(int, Seq<char>)> = Seq::empty();
    let mut urls: Vec<String> = Vec::new();
    let mut i: usize = 0;
    let mut j: usize = 0;
    assert(a.skip(0) =~= a && b.skip(0) =~= b);
    assert(done + merged(a, b) =~= merged(a, b));
    assert(urls.deep_view() =~= without_repeats(texts(done)));
    while i < schemed.len() || j < bare.len()
        invariant
            i <= schemed.len(),
            j <= bare.len(),
            a == found_view(schemed@),
            b == found_view(bare@),
            done + merged(a.skip(i as int), b.skip(j as int)) == merged(a, b),
            urls.deep_view() == without_repeats(texts(done)),
        decreases (schemed.len() - i) + (bare.len() - j),
    {
        let ghost left = a.skip(i as int);
        let ghost right = b.skip(j as int);
        let ghost before = done;
        let link = if i < schemed.len() && (j >= bare.len() || schemed[i].0 <= bare[j].0) {
            proof {
                assert(left[0] == a[i as int]);
                assert(left.drop_first() =~= a.skip(i + 1));
                if j < bare.len() {
                    assert(right[0] == b[j as int]);
                } else {
                    assert(merged(left.drop_first(), right) == left.drop_first());
                    assert(seq![left[0]] + left.drop_first() =~= left);
                }
                done = done.push(a[i as int]);
                assert(done + merged(a.skip(i + 1), right) =~= before + merged(left, right));
            }
            i += 1;
            schemed[i - 1].1.clone()
        } else {
            proof {
                assert(right[0] == b[j as int]);
                assert(right.drop_first() =~= b.skip(j + 1));
                if i < schemed.len() {
                    assert(left[0] == a[i as int]);
                } else {
                    assert(seq![right[0]] + right.drop_first() =~= right);
                }
                done = done.push(b[j as int]);
                assert(done + merged(left, b.skip(j + 1)) =~= before + merged(left, right));
            }
            j += 1;
            bare[j - 1].1.clone()
        };
        proof {
            assert(texts(done).drop_last() =~= texts(before));
            assert(texts(done).last() == link@);
        }
        push_unique(&mut urls, link);
    }
    assert(done =~= merged(a, b));
    urls
}

/// Finds the marketplace links in a text.
pub fn extract_amazon_urls(content: &str) -> (urls: Vec<String>)
    ensures
        urls.deep_view() == extracted(content@),
        urls.deep_view().no_duplicates(),
{
    let text = chars_of(content);
    let marks = Marks::new();
    let schemed = find_schemed(content, text.as_slice(), &marks);
    let bare = find_bare(content, text.as_slice(), &marks);
    proof {
        extracted_links_are_distinct(content@);
    }
    merge_links(&schemed, &bare)
}

} // verus!
