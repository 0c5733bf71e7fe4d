//! Texts as sequences of characters: searching, trimming, substituting, and writing
//! numbers.

use vstd::prelude::*;
use vstd::string::*;

verus! {

// Characters

/// Whether `c` is one of the Unicode white-space characters.
pub open spec fn is_space(c: char) -> bool {
    let n = c as u32;
    ||| 0x09 <= n <= 0x0D
    ||| n == 0x20
    ||| n == 0x85
    ||| n == 0xA0
    ||| n == 0x1680
    ||| 0x2000 <= n <= 0x200A
    ||| n == 0x2028
    ||| n == 0x2029
    ||| n == 0x202F
    ||| n == 0x205F
    ||| n == 0x3000
}

/// Decides `is_space`.
pub fn is_space_char(c: char) -> (b: bool)
    ensures
        b == is_space(c),
{
    let n: u32 = c as u32;
    (0x09 <= n && n <= 0x0D) || n == 0x20 || n == 0x85 || n == 0xA0 || n == 0x1680 || (0x2000 <= n
        && n <= 0x200A) || n == 0x2028 || n == 0x2029 || n == 0x202F || n == 0x205F || n == 0x3000
}

/// The characters of `s`, in order.
pub fn chars_of(s: &str) -> (v: Vec<char>)
    ensures
        v@ == s@,
{
    let mut v: Vec<char> = Vec::new();
    let it = s.chars();
    for c in iter: it
        invariant
            v@ == iter.seq().take(iter.index()),
            iter.seq() == s@,
    {
        v.push(c);
    }
    v
}

/// The text that an optional string holds.
pub open spec fn views(s: Option<String>) -> Option<Seq<char>> {
    match s {
        Some(s) => Some(s@),
        None => None,
    }
}

// Searching

/// The least position `j` with `from <= j` at which `stop` holds, or `len` where it
/// holds nowhere from `from` on.
pub open spec fn first_from(len: int, from: int, stop: spec_fn(int) -> bool) -> int
    decreases len - from,
{
    if from >= len || stop(from) {
        from
    } else {
        first_from(len, from + 1, stop)
    }
}

/// `first_from` is where it says, and nothing before it stops.
pub proof fn first_from_is_least(len: int, from: int, stop: spec_fn(int) -> bool)
    requires
        from <= len,
    ensures
        from <= first_from(len, from, stop) <= len,
        first_from(len, from, stop) < len ==> stop(first_from(len, from, stop)),
        forall|j: int| from <= j < first_from(len, from, stop) ==> !(#[trigger] stop(j)),
    decreases len - from,
{
    if !(from >= len || stop(from)) {
        first_from_is_least(len, from + 1, stop);
    }
}

/// A position that stops, with none before it that does, is `first_from`.
pub proof fn first_from_is_unique(len: int, from: int, stop: spec_fn(int) -> bool, at: int)
    requires
        from <= at <= len,
        at < len ==> stop(at),
        forall|j: int| from <= j < at ==> !(#[trigger] stop(j)),
    ensures
        first_from(len, from, stop) == at,
{
    first_from_is_least(len, from, stop);
}

/// `pat` stands in `s` at position `i`.
pub open spec fn occurs_at(s: Seq<char>, pat: Seq<char>, i: int) -> bool {
    0 <= i && i + pat.len() <= s.len() && s.subrange(i, i + pat.len()) == pat
}

/// `pat` stands somewhere in `s`.
pub open spec fn contains(s: Seq<char>, pat: Seq<char>) -> bool {
    exists|i: int| occurs_at(s, pat, i)
}

/// Decides `occurs_at`.
pub fn matches_at(s: &[char], i: usize, pat: &[char]) -> (b: bool)
    ensures
        b == occurs_at(s@, pat@, i as int),
{
    if i > s.len() || pat.len() > s.len() - i {
        return false;
    }
    let mut k: usize = 0;
    while k < pat.len()
        invariant
            k <= pat.len(),
            i + pat.len() <= s.len(),
            forall|j: int| 0 <= j < k ==> s@[i + j] == pat@[j],
        decreases pat.len() - k,
    {
        if s[i + k] != pat[k] {
            proof {
                assert(s@.subrange(i as int, i + pat.len())[k as int] == s@[i + k]);
            }
            return false;
        }
        k += 1;
    }
    proof {
        assert(s@.subrange(i as int, i + pat.len()) =~= pat@);
    }
    true
}

/// The first position at or after `from` where `pat` stands in `s`.
pub fn find_from(s: &[char], from: usize, pat: &[char]) -> (r: Option<usize>)
    ensures
        match r {
            Some(i) => from <= i && occurs_at(s@, pat@, i as int) && forall|j: int|
                from <= j < i ==> !occurs_at(s@, pat@, j),
            None => forall|j: int| from <= j ==> !occurs_at(s@, pat@, j),
        },
{
    let mut i: usize = from;
    while i < s.len()
        invariant
            from <= i,
            forall|j: int| from <= j < i ==> !occurs_at(s@, pat@, j),
        decreases s.len() - i,
    {
        if matches_at(s, i, pat) {
            return Some(i);
        }
        i += 1;
    }
    if matches_at(s, i, pat) {
        Some(i)
    } else {
        None
    }
}

/// Decides `contains`.
pub fn has(s: &[char], pat: &[char]) -> (b: bool)
    ensures
        b == contains(s@, pat@),
{
    find_from(s, 0, pat).is_some()
}

/// Whether two texts hold the same characters.
pub fn same_text(a: &str, b: &str) -> (same: bool)
    ensures
        same == (a@ == b@),
{
    let left = chars_of(a);
    let right = chars_of(b);
    if left.len() != right.len() {
        return false;
    }
    let same = matches_at(left.as_slice(), 0, right.as_slice());
    proof {
        assert(a@.subrange(0, a@.len() as int) =~= a@);
    }
    same
}

// Prefixes

/// `s` without `prefix` in front, where it stands there; else `s`.
pub open spec fn stripped(s: Seq<char>, prefix: Seq<char>) -> Seq<char> {
    if occurs_at(s, prefix, 0) {
        s.subrange(prefix.len() as int, s.len() as int)
    } else {
        s
    }
}

/// `s` without `prefix` in front, where it stands there; else `otherwise`.
pub open spec fn stripped_or(s: Seq<char>, prefix: Seq<char>, otherwise: Seq<char>) -> Seq<char> {
    if occurs_at(s, prefix, 0) {
        s.subrange(prefix.len() as int, s.len() as int)
    } else {
        otherwise
    }
}

/// A text does not start with a prefix from which it differs at some position.
pub proof fn differs_from_prefix(s: Seq<char>, prefix: Seq<char>, k: int)
    requires
        0 <= k < prefix.len(),
        k < s.len() ==> s[k] != prefix[k],
    ensures
        !occurs_at(s, prefix, 0),
        stripped(s, prefix) == s,
{
    if occurs_at(s, prefix, 0) {
        assert(s.subrange(0, prefix.len() as int)[k] == s[k]);
    }
}

/// A prefix comes off the text that it was put in front of.
pub proof fn prefix_comes_off(prefix: Seq<char>, rest: Seq<char>)
    ensures
        occurs_at(prefix + rest, prefix, 0),
        stripped(prefix + rest, prefix) == rest,
{
    let s = prefix + rest;
    assert(s.subrange(0, prefix.len() as int) =~= prefix);
    assert(s.subrange(prefix.len() as int, s.len() as int) =~= rest);
}

/// Takes `prefix` off the front of `s` once, where it stands there.
pub fn strip_once<'a>(s: &'a str, prefix: &str) -> (r: &'a str)
    ensures
        r@ == stripped(s@, prefix@),
{
    let text = chars_of(s);
    let lead = chars_of(prefix);
    if matches_at(text.as_slice(), 0, lead.as_slice()) {
        s.substring_char(lead.len(), text.len())
    } else {
        s
    }
}

// White space

/// Every character of `s` is white space.
pub open spec fn is_blank(s: Seq<char>) -> bool {
    forall|i: int| 0 <= i < s.len() ==> is_space(#[trigger] s[i])
}

/// `s` without the white space at its start and at its end.
pub open spec fn trimmed(s: Seq<char>) -> Seq<char> {
    let start = first_from(s.len() as int, 0, |j: int| !is_space(s[j]));
    let end = first_from(
        s.len() as int,
        start,
        |e: int| is_blank(s.subrange(e, s.len() as int)),
    );
    s.subrange(start, end)
}

/// Takes the white space off both ends of `s`.
pub fn trim(s: &str) -> (t: &str)
    ensures
        t@ == trimmed(s@),
{
    let text = chars_of(s);
    let n = text.len();
    let mut start: usize = 0;
    while start < n && is_space_char(text[start])
        invariant
            start <= n,
            n == text@.len(),
            forall|j: int| 0 <= j < start ==> is_space(text@[j]),
        decreases n - start,
    {
        start += 1;
    }
    let mut end: usize = n;
    while end > start && is_space_char(text[end - 1])
        invariant
            start <= end <= n,
            n == text@.len(),
            forall|j: int| end <= j < n ==> is_space(text@[j]),
        decreases end,
    {
        end -= 1;
    }
    proof {
        let chars = s@;
        let lead = |j: int| !is_space(chars[j]);
        assert(start < n ==> lead(start as int));
        first_from_is_unique(n as int, 0, lead, start as int);
        let tail = |e: int| is_blank(chars.subrange(e, chars.len() as int));
        assert(end < n ==> tail(end as int));
        assert forall|e: int| start <= e < end implies !(#[trigger] tail(e)) by {
            assert(chars.subrange(e, n as int)[end - 1 - e] == chars[end - 1]);
        }
        first_from_is_unique(n as int, start as int, tail, end as int);
    }
    s.substring_char(start, end)
}

// Substitution

/// `s` from `from` on, with `with` in place of each `pat`, taken from the left and not
/// overlapping. An empty `pat` stands nowhere.
pub open spec fn substituted(s: Seq<char>, pat: Seq<char>, with: Seq<char>, from: int) -> Seq<char>
    decreases s.len() - from,
{
    if from < 0 || from >= s.len() {
        Seq::empty()
    } else if pat.len() > 0 && occurs_at(s, pat, from) {
        with + substituted(s, pat, with, from + pat.len())
    } else {
        seq![s[from]] + substituted(s, pat, with, from + 1)
    }
}

/// Where `pat` does not stand, the text is kept as it is.
pub proof fn substituted_keeps_other_text(
    s: Seq<char>,
    pat: Seq<char>,
    with: Seq<char>,
    from: int,
    to: int,
)
    requires
        0 <= from <= to <= s.len(),
        forall|j: int| from <= j < to ==> !occurs_at(s, pat, j),
    ensures
        substituted(s, pat, with, from) == s.subrange(from, to) + substituted(s, pat, with, to),
    decreases to - from,
{
    if from < to {
        substituted_keeps_other_text(s, pat, with, from + 1, to);
        assert(seq![s[from]] + (s.subrange(from + 1, to) + substituted(s, pat, with, to))
            =~= s.subrange(from, to) + substituted(s, pat, with, to));
    } else {
        assert(s.subrange(from, to) + substituted(s, pat, with, to) =~= substituted(
            s,
            pat,
            with,
            to,
        ));
    }
}

/// With an empty `pat` the text is kept as it is.
pub proof fn substituted_of_empty_pattern(s: Seq<char>, with: Seq<char>, from: int)
    requires
        0 <= from <= s.len(),
    ensures
        substituted(s, Seq::empty(), with, from) == s.subrange(from, s.len() as int),
    decreases s.len() - from,
{
    if from < s.len() {
        substituted_of_empty_pattern(s, with, from + 1);
        assert(seq![s[from]] + s.subrange(from + 1, s.len() as int) =~= s.subrange(
            from,
            s.len() as int,
        ));
    } else {
        assert(s.subrange(from, s.len() as int) =~= Seq::<char>::empty());
    }
}

/// A text in which `pat` stands nowhere is left as it is.
pub proof fn substituted_without_match(s: Seq<char>, pat: Seq<char>, with: Seq<char>)
    requires
        !contains(s, pat) || pat.len() == 0,
    ensures
        substituted(s, pat, with, 0) == s,
{
    if pat.len() == 0 {
        assert(pat =~= Seq::<char>::empty());
        substituted_of_empty_pattern(s, with, 0);
        assert(s.subrange(0, s.len() as int) =~= s);
    } else {
        assert forall|j: int| 0 <= j < s.len() implies !occurs_at(s, pat, j) by {}
        substituted_keeps_other_text(s, pat, with, 0, s.len() as int);
        assert(s.subrange(0, s.len() as int) + Seq::<char>::empty() =~= s);
    }
}

/// A text in which `pat` stands once has `with` there and is otherwise kept.
pub proof fn substituted_single_match(
    before: Seq<char>,
    pat: Seq<char>,
    after: Seq<char>,
    with: Seq<char>,
)
    requires
        pat.len() > 0,
        forall|j: int| j != before.len() ==> !occurs_at(before + pat + after, pat, j),
    ensures
        substituted(before + pat + after, pat, with, 0) == before + with + after,
{
    let s = before + pat + after;
    let at = before.len() as int;
    let behind = at + pat.len();
    assert(s.subrange(at, behind) =~= pat);
    substituted_keeps_other_text(s, pat, with, 0, at);
    substituted_keeps_other_text(s, pat, with, behind, s.len() as int);
    assert(s.subrange(0, at) =~= before);
    assert(s.subrange(behind, s.len() as int) =~= after);
    if at < s.len() {
        assert(substituted(s, pat, with, at) == with + substituted(s, pat, with, behind));
    }
    assert(before + (with + (after + Seq::<char>::empty())) =~= before + with + after);
}

/// `s` with `with` in place of each `pat`.
pub fn substitute(s: &str, pat: &str, with: &str) -> (out: String)
    ensures
        out@ == substituted(s@, pat@, with@, 0),
{
    let text = chars_of(s);
    let mark = chars_of(pat);
    let n = text.len();
    if mark.len() == 0 {
        proof {
            assert(pat@ =~= Seq::<char>::empty());
            substituted_without_match(s@, pat@, with@);
        }
        return s.to_owned();
    }
    let mut out = String::new();
    let mut pos: usize = 0;
    while pos < n
        invariant
            pos <= n,
            n == text@.len(),
            text@ == s@,
            mark@ == pat@,
            mark@.len() > 0,
            out@ + substituted(s@, pat@, with@, pos as int) == substituted(s@, pat@, with@, 0),
        decreases n - pos,
    {
        match find_from(text.as_slice(), pos, mark.as_slice()) {
            Some(at) => {
                proof {
                    substituted_keeps_other_text(s@, pat@, with@, pos as int, at as int);
                    assert(out@ + s@.subrange(pos as int, at as int) + with@ + substituted(
                        s@,
                        pat@,
                        with@,
                        at + mark@.len(),
                    ) =~= out@ + substituted(s@, pat@, with@, pos as int));
                }
                out.append(s.substring_char(pos, at));
                out.append(with);
                pos = at + mark.len();
            },
            None => {
                proof {
                    substituted_keeps_other_text(s@, pat@, with@, pos as int, n as int);
                    assert(out@ + s@.subrange(pos as int, n as int) + substituted(
                        s@,
                        pat@,
                        with@,
                        n as int,
                    ) =~= out@ + substituted(s@, pat@, with@, pos as int));
                }
                out.append(s.substring_char(pos, n));
                pos = n;
            },
        }
    }
    assert(out@ + substituted(s@, pat@, with@, pos as int) =~= out@);
    out
}

// Numbers

/// The character that stands for the digit `d`.
pub open spec fn digit_char(d: int) -> char {
    if d == 0 {
        '0'
    } else if d == 1 {
        '1'
    } else if d == 2 {
        '2'
    } else if d == 3 {
        '3'
    } else if d == 4 {
        '4'
    } else if d == 5 {
        '5'
    } else if d == 6 {
        '6'
    } else if d == 7 {
        '7'
    } else if d == 8 {
        '8'
    } else {
        '9'
    }
}

/// The number written in decimal digits, without leading zeros.
pub open spec fn decimal(n: nat) -> Seq<char>
    decreases n,
{
    if n < 10 {
        seq![digit_char(n as int)]
    } else {
        decimal(n / 10).push(digit_char((n % 10) as int))
    }
}

/// The number written in decimal digits, with `-` before it where it is negative.
pub open spec fn signed_decimal(n: int) -> Seq<char> {
    if n < 0 {
        "-"@ + decimal((-n) as nat)
    } else {
        decimal(n as nat)
    }
}

/// The digit `d` as a text of one character.
fn digit_text(d: u64) -> (t: &'static str)
    requires
        d < 10,
    ensures
        t@ == seq![digit_char(d as int)],
{
    proof {
        reveal_strlit("0");
        reveal_strlit("1");
        reveal_strlit("2");
        reveal_strlit("3");
        reveal_strlit("4");
        reveal_strlit("5");
        reveal_strlit("6");
        reveal_strlit("7");
        reveal_strlit("8");
        reveal_strlit("9");
    }
    let t = if d == 0 {
        "0"
    } else if d == 1 {
        "1"
    } else if d == 2 {
        "2"
    } else if d == 3 {
        "3"
    } else if d == 4 {
        "4"
    } else if d == 5 {
        "5"
    } else if d == 6 {
        "6"
    } else if d == 7 {
        "7"
    } else if d == 8 {
        "8"
    } else {
        "9"
    };
    assert(t@ =~= seq![digit_char(d as int)]);
    t
}

/// Writes `n` in decimal digits.
pub fn decimal_text(n: u64) -> (t: String)
    ensures
        t@ == decimal(n as nat),
    decreases n,
{
    if n < 10 {
        digit_text(n).to_owned()
    } else {
        let mut t = decimal_text(n / 10);
        t.append(digit_text(n % 10));
        assert(t@ =~= decimal((n / 10) as nat).push(digit_char((n % 10) as int)));
        t
    }
}

/// Writes `n` in decimal digits, with its sign where it is negative.
pub fn signed_decimal_text(n: i64) -> (t: String)
    ensures
        t@ == signed_decimal(n as int),
{
    if n < 0 {
        let magnitude: u64 = (-(n + 1)) as u64 + 1;
        let mut t = "-".to_owned();
        t.append(decimal_text(magnitude).as_str());
        t
    } else {
        decimal_text(n as u64)
    }
}

// Letter case

/// What `str::to_uppercase` makes of a text.
pub uninterp spec fn uppercased(s: Seq<char>) -> Seq<char>;

/// Calls `str::to_uppercase`. The contract only names the outcome: it is `uppercased` of
/// the text.
#[verifier::external_body]
pub(crate) fn to_upper(s: &str) -> (r: String)
    ensures
        r@ == uppercased(s@),
{
    s.to_uppercase()
}

/// What `str::to_lowercase` makes of a text.
pub uninterp spec fn lowercased(s: Seq<char>) -> Seq<char>;

/// Calls `str::to_lowercase`. The contract only names the outcome: it is `lowercased` of
/// the text.
#[verifier::external_body]
pub(crate) fn to_lower(s: &str) -> (r: String)
    ensures
        r@ == lowercased(s@),
{
    s.to_lowercase()
}

} // verus!
