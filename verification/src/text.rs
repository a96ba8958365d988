//! Text primitives on sequences of characters: lower-casing, white space,
//! substring search and counting, and splitting a query into terms.
//!
//! Every position and length in this module counts characters, never bytes,
//! so no operation here can cut a character in two.

use vstd::prelude::*;

verus! {

/// The lower-case form of a text: what `str::to_lowercase` makes of it.
/// Nothing is said here of what that is for a given text.
pub uninterp spec fn lowercase(text: Seq<char>) -> Seq<char>;

/// Calls `str::to_lowercase`. Not proved: the result is the lower-case form of
/// `text`, which depends on the characters of `text` and on nothing else.
#[verifier::external_body]
pub(crate) fn to_lowercase(text: &str) -> (lowered: String)
    ensures
        lowered@ == lowercase(text@),
{
    text.to_lowercase()
}

/// The characters that carry the Unicode property `White_Space`.
pub open spec fn is_whitespace(c: char) -> bool {
    let code = c as u32;
    ||| 0x09 <= code <= 0x0D
    ||| code == 0x20
    ||| code == 0x85
    ||| code == 0xA0
    ||| code == 0x1680
    ||| 0x2000 <= code <= 0x200A
    ||| code == 0x2028
    ||| code == 0x2029
    ||| code == 0x202F
    ||| code == 0x205F
    ||| code == 0x3000
}

/// Tells whether `c` is a white-space character.
pub fn whitespace(c: char) -> (b: bool)
    ensures
        b == is_whitespace(c),
{
    let code: u32 = c as u32;
    (0x09 <= code && code <= 0x0D) || code == 0x20 || code == 0x85 || code == 0xA0 || code == 0x1680
        || (0x2000 <= code && code <= 0x200A) || code == 0x2028 || code == 0x2029 || code == 0x202F
        || code == 0x205F || code == 0x3000
}

/// The characters of `text`, in order.
pub fn chars_of(text: &str) -> (chars: Vec<char>)
    ensures
        chars@ == text@,
{
    let mut chars: Vec<char> = Vec::new();
    for c in it: text.chars()
        invariant
            chars@ == it.seq().take(it.index() as int),
            it.seq() == text@,
    {
        chars.push(c);
    }
    chars
}

/// `needle` stands in `hay` at index `at`.
pub open spec fn occurs_at(hay: Seq<char>, needle: Seq<char>, at: int) -> bool {
    &&& 0 <= at
    &&& at + needle.len() <= hay.len()
    &&& forall|k: int| 0 <= k < needle.len() ==> hay[at + k] == needle[k]
}

/// The least index, not below `from`, at which `needle` stands in `hay`.
pub open spec fn first_match(hay: Seq<char>, needle: Seq<char>, from: int) -> Option<int>
    decreases hay.len() - from,
{
    if from < 0 || from + needle.len() > hay.len() {
        None
    } else if occurs_at(hay, needle, from) {
        Some(from)
    } else {
        first_match(hay, needle, from + 1)
    }
}

/// `needle` occurs somewhere in `hay`.
pub open spec fn contains(hay: Seq<char>, needle: Seq<char>) -> bool {
    first_match(hay, needle, 0) is Some
}

/// What `first_match` finds is an occurrence, and no occurrence lies between
/// `from` and it; where it finds nothing, there is no occurrence from `from` on.
pub proof fn lemma_first_match(hay: Seq<char>, needle: Seq<char>, from: int)
    requires
        0 <= from,
    ensures
        match first_match(hay, needle, from) {
            Some(at) => {
                &&& from <= at
                &&& occurs_at(hay, needle, at)
                &&& forall|j: int| from <= j < at ==> !occurs_at(hay, needle, j)
            },
            None => forall|j: int| from <= j ==> !occurs_at(hay, needle, j),
        },
    decreases hay.len() - from,
{
    if from + needle.len() > hay.len() {
    } else if occurs_at(hay, needle, from) {
    } else {
        lemma_first_match(hay, needle, from + 1);
    }
}

/// The number of occurrences of a non-empty `needle` in `hay` from `from` on,
/// counted from the left without overlap: after a match the count goes on
/// behind it. (A match lies at or behind `from` and inside `hay`; the test
/// for it lets the count be seen to end.)
pub open spec fn count_matches(hay: Seq<char>, needle: Seq<char>, from: int) -> nat
    decreases hay.len() - from,
{
    let found = first_match(hay, needle, from);
    if needle.len() > 0 && found is Some && from <= found.unwrap() <= hay.len() - needle.len() {
        1 + count_matches(hay, needle, found.unwrap() + needle.len())
    } else {
        0
    }
}

/// The number of occurrences of `needle` in `hay`, counted from the left
/// without overlap. The empty needle occurs once before each character and
/// once at the end.
pub open spec fn occurrences(hay: Seq<char>, needle: Seq<char>) -> nat {
    if needle.len() == 0 {
        hay.len() + 1
    } else {
        count_matches(hay, needle, 0)
    }
}

/// Without overlap, a non-empty needle occurs at most once per character of
/// what is left of `hay`.
pub proof fn lemma_count_matches_bound(hay: Seq<char>, needle: Seq<char>, from: int)
    requires
        0 <= from,
    ensures
        count_matches(hay, needle, from) <= if from <= hay.len() {
            hay.len() - from
        } else {
            0
        },
    decreases hay.len() - from,
{
    if needle.len() > 0 {
        lemma_first_match(hay, needle, from);
        match first_match(hay, needle, from) {
            Some(at) => {
                lemma_count_matches_bound(hay, needle, at + needle.len());
            },
            None => {},
        }
    }
}

/// Tells whether `needle` stands in `hay` at index `at`.
pub fn matches_at(hay: &Vec<char>, needle: &Vec<char>, at: usize) -> (b: bool)
    ensures
        b == occurs_at(hay@, needle@, at as int),
{
    if needle.len() > hay.len() || at > hay.len() - needle.len() {
        return false;
    }
    let mut k: usize = 0;
    while k < needle.len()
        invariant
            k <= needle.len(),
            at + needle.len() <= hay.len(),
            forall|j: int| 0 <= j < k ==> hay@[at + j] == needle@[j],
        decreases needle.len() - k,
    {
        if hay[at + k] != needle[k] {
            return false;
        }
        k += 1;
    }
    true
}

/// Finds the first occurrence of `needle` in `hay` at or behind index `from`.
pub fn find_from(hay: &Vec<char>, needle: &Vec<char>, from: usize) -> (found: Option<usize>)
    ensures
        match found {
            Some(at) => first_match(hay@, needle@, from as int) == Some(at as int),
            None => first_match(hay@, needle@, from as int) is None,
        },
{
    if needle.len() > hay.len() || from > hay.len() - needle.len() {
        return None;
    }
    let last: usize = hay.len() - needle.len();
    let mut at: usize = from;
    while at <= last
        invariant
            from <= at <= last + 1,
            last == hay.len() - needle.len(),
            needle.len() <= hay.len(),
            first_match(hay@, needle@, from as int) == first_match(hay@, needle@, at as int),
        decreases last + 1 - at,
    {
        if matches_at(hay, needle, at) {
            return Some(at);
        }
        at += 1;
    }
    None
}

/// Counts the occurrences of `needle` in `hay` from the left without overlap.
/// The count stops at `u64::MAX`.
pub fn count_occurrences(hay: &Vec<char>, needle: &Vec<char>) -> (count: u64)
    ensures
        count == capped(occurrences(hay@, needle@) as int),
{
    if needle.len() == 0 {
        return (hay.len() as u64).saturating_add(1);
    }
    let mut count: u64 = 0;
    let mut from: usize = 0;
    proof {
        lemma_count_matches_bound(hay@, needle@, 0);
    }
    loop
        invariant
            needle.len() > 0,
            from <= hay.len(),
            count + count_matches(hay@, needle@, from as int) == count_matches(hay@, needle@, 0),
            count_matches(hay@, needle@, 0) <= hay.len(),
        decreases hay.len() - from,
    {
        proof {
            lemma_first_match(hay@, needle@, from as int);
        }
        match find_from(hay, needle, from) {
            None => {
                return count;
            },
            Some(at) => {
                count = count + 1;
                from = at + needle.len();
            },
        }
    }
}

/// `value`, or `u64::MAX` where `value` is larger.
pub open spec fn capped(value: int) -> u64 {
    if value <= u64::MAX {
        value as u64
    } else {
        u64::MAX
    }
}

/// The index behind the run of characters that starts at `from` and holds no
/// white space.
pub open spec fn run_end(text: Seq<char>, from: int) -> int
    decreases text.len() - from,
{
    if from < 0 || from >= text.len() || is_whitespace(text[from]) {
        from
    } else {
        run_end(text, from + 1)
    }
}

/// The terms of `text` from index `from` on: its maximal runs of characters
/// that are not white space, in order. (A run that starts on such a character
/// is not empty and ends inside the text; the test for it lets the terms be
/// seen to end.)
pub open spec fn terms_from(text: Seq<char>, from: int) -> Seq<Seq<char>>
    decreases text.len() - from,
{
    if from < 0 || from >= text.len() {
        Seq::empty()
    } else if is_whitespace(text[from]) {
        terms_from(text, from + 1)
    } else if from < run_end(text, from) <= text.len() {
        seq![text.subrange(from, run_end(text, from))] + terms_from(text, run_end(text, from))
    } else {
        Seq::empty()
    }
}

/// The terms of a query: what is left when it is split at white space.
pub open spec fn terms_of(text: Seq<char>) -> Seq<Seq<char>> {
    terms_from(text, 0)
}

/// A run that starts on a character that is no white space is not empty, ends
/// inside the text, holds no white space, and ends at white space or at the
/// end of the text.
pub proof fn lemma_run_end(text: Seq<char>, from: int)
    requires
        0 <= from < text.len(),
        !is_whitespace(text[from]),
    ensures
        from < run_end(text, from) <= text.len(),
        forall|k: int| from <= k < run_end(text, from) ==> !is_whitespace(text[k]),
        run_end(text, from) < text.len() ==> is_whitespace(text[run_end(text, from)]),
    decreases text.len() - from,
{
    if from + 1 < text.len() && !is_whitespace(text[from + 1]) {
        lemma_run_end(text, from + 1);
    } else {
        assert(run_end(text, from + 1) == from + 1);
    }
}

/// All characters of `text` are white space.
pub open spec fn is_blank(text: Seq<char>) -> bool {
    forall|k: int| 0 <= k < text.len() ==> is_whitespace(text[k])
}

/// From index `from` on a text has no term exactly when all its characters
/// from there on are white space.
proof fn lemma_no_terms_from(text: Seq<char>, from: int)
    requires
        0 <= from,
    ensures
        terms_from(text, from).len() == 0 <==> forall|k: int|
            from <= k < text.len() ==> is_whitespace(text[k]),
    decreases text.len() - from,
{
    if from < text.len() {
        if is_whitespace(text[from]) {
            lemma_no_terms_from(text, from + 1);
        } else {
            lemma_run_end(text, from);
        }
    }
}

/// A text has no term exactly when it is blank.
pub proof fn lemma_no_terms(text: Seq<char>)
    ensures
        terms_of(text).len() == 0 <==> is_blank(text),
{
    lemma_no_terms_from(text, 0);
}

/// No term is empty, and no term holds white space.
pub proof fn lemma_terms_are_words(text: Seq<char>, from: int)
    requires
        0 <= from,
    ensures
        forall|i: int|
            0 <= i < terms_from(text, from).len() ==> {
                &&& (#[trigger] terms_from(text, from)[i]).len() > 0
                &&& forall|k: int|
                    0 <= k < terms_from(text, from)[i].len() ==> !is_whitespace(
                        terms_from(text, from)[i][k],
                    )
            },
    decreases text.len() - from,
{
    if from < text.len() {
        if is_whitespace(text[from]) {
            lemma_terms_are_words(text, from + 1);
            assert(terms_from(text, from) == terms_from(text, from + 1));
        } else {
            lemma_run_end(text, from);
            let end = run_end(text, from);
            lemma_terms_are_words(text, end);
            let head = text.subrange(from, end);
            let rest = terms_from(text, end);
            assert(terms_from(text, from) == seq![head] + rest);
            assert forall|i: int| 0 <= i < terms_from(text, from).len() implies {
                &&& (#[trigger] terms_from(text, from)[i]).len() > 0
                &&& forall|k: int|
                    0 <= k < terms_from(text, from)[i].len() ==> !is_whitespace(
                        terms_from(text, from)[i][k],
                    )
            } by {
                if i == 0 {
                    assert(terms_from(text, from)[0] == head);
                } else {
                    assert(terms_from(text, from)[i] == rest[i - 1]);
                }
            }
        }
    }
}

/// The texts that `spans` cut out of `text`, in order.
pub open spec fn cut(text: Seq<char>, spans: Seq<(usize, usize)>) -> Seq<Seq<char>> {
    Seq::new(spans.len(), |i: int| text.subrange(spans[i].0 as int, spans[i].1 as int))
}

/// Splits `text` at white space: the result holds, for each term in order,
/// the index of its first character and the index behind its last.
pub fn split_terms(text: &Vec<char>) -> (spans: Vec<(usize, usize)>)
    ensures
        cut(text@, spans@) == terms_of(text@),
        forall|i: int| 0 <= i < spans.len() ==> (#[trigger] spans[i]).0 < spans[i].1 <= text.len(),
{
    let mut spans: Vec<(usize, usize)> = Vec::new();
    let mut at: usize = 0;
    while at < text.len()
        invariant
            at <= text.len(),
            cut(text@, spans@) + terms_from(text@, at as int) == terms_of(text@),
            forall|i: int| 0 <= i < spans.len() ==> (#[trigger] spans[i]).0 < spans[i].1 <= text.len(),
        decreases text.len() - at,
    {
        if whitespace(text[at]) {
            at += 1;
        } else {
            let start: usize = at;
            while at < text.len() && !whitespace(text[at])
                invariant
                    start <= at <= text.len(),
                    start < text.len(),
                    !is_whitespace(text@[start as int]),
                    run_end(text@, start as int) == run_end(text@, at as int),
                decreases text.len() - at,
            {
                at += 1;
            }
            proof {
                lemma_run_end(text@, start as int);
                assert(run_end(text@, at as int) == at);
                let before = cut(text@, spans@);
                let head = text@.subrange(start as int, at as int);
                assert(terms_from(text@, start as int) == seq![head] + terms_from(text@, at as int));
                assert(before.push(head) + terms_from(text@, at as int) == before + terms_from(
                    text@,
                    start as int,
                ));
                assert(cut(text@, spans@.push((start, at))) =~= before.push(head));
            }
            spans.push((start, at));
        }
    }
    assert(terms_from(text@, at as int) == Seq::<Seq<char>>::empty());
    assert(cut(text@, spans@) + Seq::<Seq<char>>::empty() == cut(text@, spans@));
    spans
}

/// The ten decimal digits.
pub open spec fn digits() -> Seq<char> {
    seq!['0', '1', '2', '3', '4', '5', '6', '7', '8', '9']
}

/// The decimal numeral of a number that is not negative, without leading
/// zeros.
pub open spec fn decimal(n: int) -> Seq<char>
    decreases n,
{
    if n < 10 {
        seq![digits()[n]]
    } else {
        decimal(n / 10).push(digits()[n % 10])
    }
}

/// The decimal numeral of a number, with `-` before it where the number is
/// negative.
pub open spec fn signed_decimal(n: int) -> Seq<char> {
    if n < 0 {
        seq!['-'] + decimal(-n)
    } else {
        decimal(n)
    }
}

/// The numeral of one digit.
fn digit_text(d: u64) -> (text: &'static str)
    requires
        d < 10,
    ensures
        text@ == seq![digits()[d as int]],
{
    proof {
        reveal_strlit("0");
        reveal_strlit("1");
        reveal_strlit("2");
        reveal_strlit("3");
        reveal_strlit("4");
        reveal_strlit("5");
        reveal_strlit("6");
        reveal_strlit("7");
        reveal_strlit("8");
        reveal_strlit("9");
    }
    let text = if d == 0 {
        "0"
    } else if d == 1 {
        "1"
    } else if d == 2 {
        "2"
    } else if d == 3 {
        "3"
    } else if d == 4 {
        "4"
    } else if d == 5 {
        "5"
    } else if d == 6 {
        "6"
    } else if d == 7 {
        "7"
    } else if d == 8 {
        "8"
    } else {
        "9"
    };
    assert(text@ =~= seq![digits()[d as int]]);
    text
}

/// Writes the decimal numeral of `n` behind `text`.
fn append_decimal(text: &mut String, n: u64)
    ensures
        final(text)@ == old(text)@ + decimal(n as int),
    decreases n,
{
    if n >= 10 {
        append_decimal(text, n / 10);
    }
    text.append(digit_text(n % 10));
    assert(text@ =~= old(text)@ + decimal(n as int));
}

/// The decimal numeral of `n`, which is not negative.
pub fn numeral(n: u64) -> (text: String)
    ensures
        text@ == decimal(n as int),
{
    proof {
        reveal_strlit("");
    }
    let mut text = "".to_owned();
    append_decimal(&mut text, n);
    assert(text@ =~= decimal(n as int));
    text
}

/// The decimal numeral of `n`.
pub fn decimal_text(n: i64) -> (text: String)
    ensures
        text@ == signed_decimal(n as int),
{
    proof {
        reveal_strlit("-");
        reveal_strlit("");
    }
    if n < 0 {
        let magnitude: u64 = ((-(n + 1)) as u64) + 1;
        let mut text = "-".to_owned();
        append_decimal(&mut text, magnitude);
        assert(text@ =~= signed_decimal(n as int));
        text
    } else {
        let mut text = "".to_owned();
        append_decimal(&mut text, n as u64);
        assert(text@ =~= signed_decimal(n as int));
        text
    }
}

/// `first` with `second` behind it.
pub fn joined(first: &str, second: &str) -> (text: String)
    ensures
        text@ == first@ + second@,
{
    let mut text = first.to_owned();
    text.append(second);
    text
}

} // verus!
