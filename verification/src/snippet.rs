//! Snippets: a bounded excerpt of a content around the first query term that
//! occurs in it, with `...` where the excerpt leaves text out.
//!
//! Positions and lengths count characters. The match is looked for in the
//! lower-case form of the content; the excerpt is cut from the content as
//! written, at the same indices, held inside the content's bounds.
//!
//! A snippet round a match holds `max_length` characters at most, its
//! ellipses counted. Where no term occurs the snippet is the start of the
//! content: its first `max_length` characters, and an ellipsis behind them
//! where the content goes on.

use vstd::prelude::*;
use crate::query::{prepare_terms, term_views, words_of, Term, TermView};
use crate::text::{
    chars_of, contains, find_from, first_match, lemma_first_match, lowercase, to_lowercase,
};

verus! {

/// The number of characters that a snippet keeps on each side of the match.
pub const CONTEXT: usize = 80;

/// The mark that stands where a snippet leaves text out.
pub open spec fn ellipsis() -> Seq<char> {
    seq!['.', '.', '.']
}

/// `text`, cut down where it is longer than `max_length`: then its first
/// `max_length - 3` characters (none where `max_length` is below 3) and an
/// ellipsis.
pub open spec fn clipped(text: Seq<char>, max_length: int) -> Seq<char> {
    if text.len() > max_length {
        text.take(
            if max_length >= 3 {
                max_length - 3
            } else {
                0
            },
        ) + ellipsis()
    } else {
        text
    }
}

/// The index behind the window round a match at `at` of a term of
/// `term_length` characters, in a content of `content_length` characters.
pub open spec fn window_end(at: int, term_length: int, content_length: int) -> int {
    if at + term_length + CONTEXT < content_length {
        at + term_length + CONTEXT
    } else {
        content_length
    }
}

/// The index at which the window round a match at `at` starts, given the
/// index `end` behind the window.
pub open spec fn window_start(at: int, end: int) -> int {
    if at <= CONTEXT {
        0
    } else if at - CONTEXT <= end {
        at - CONTEXT
    } else {
        end
    }
}

/// The window round a match at `at`, with an ellipsis before it where it does
/// not start the content and one behind it where it does not end the content.
pub open spec fn framed(content: Seq<char>, at: int, term_length: int) -> Seq<char> {
    let end = window_end(at, term_length, content.len() as int);
    let start = window_start(at, end);
    let lead = if start > 0 {
        ellipsis()
    } else {
        Seq::empty()
    };
    let trail = if end < content.len() {
        ellipsis()
    } else {
        Seq::empty()
    };
    lead + content.subrange(start, end) + trail
}

/// The index of the first term, from index `from` on, whose lower-case form
/// occurs in `lowered_content`.
pub open spec fn first_found(lowered_content: Seq<char>, terms: Seq<TermView>, from: int) -> Option<
    int,
>
    decreases terms.len() - from,
{
    if from < 0 || from >= terms.len() {
        None
    } else if contains(lowered_content, terms[from].lowered) {
        Some(from)
    } else {
        first_found(lowered_content, terms, from + 1)
    }
}

/// The start of `text`: the whole of it where it holds `max_length`
/// characters at most, else its first `max_length` characters and an
/// ellipsis.
pub open spec fn start_of(text: Seq<char>, max_length: int) -> Seq<char> {
    if text.len() > max_length {
        text.take(max_length) + ellipsis()
    } else {
        text
    }
}

/// The snippet of `content` for `terms`, where `lowered_content` is the text
/// in which the terms are looked for: the clipped frame round the first match
/// of the first term that occurs, or, where none occurs, the start of the
/// content.
pub open spec fn snippet(
    content: Seq<char>,
    lowered_content: Seq<char>,
    terms: Seq<TermView>,
    max_length: int,
) -> Seq<char> {
    match first_found(lowered_content, terms, 0) {
        Some(k) => clipped(
            framed(
                content,
                first_match(lowered_content, terms[k].lowered, 0).unwrap(),
                terms[k].length as int,
            ),
            max_length,
        ),
        None => start_of(content, max_length),
    }
}

/// The term that is found first is one of the terms, from `from` on, and
/// occurs in `lowered_content`.
pub proof fn lemma_first_found(lowered_content: Seq<char>, terms: Seq<TermView>, from: int)
    requires
        0 <= from,
    ensures
        first_found(lowered_content, terms, from) matches Some(k) ==> from <= k < terms.len()
            && contains(lowered_content, terms[k].lowered),
    decreases terms.len() - from,
{
    if from < terms.len() && !contains(lowered_content, terms[from].lowered) {
        lemma_first_found(lowered_content, terms, from + 1);
    }
}

/// The piece of `content` from index `from` to index `to`, with an ellipsis
/// before it where `lead` holds and one behind it where `trail` holds.
pub open spec fn excerpt(content: Seq<char>, from: int, to: int, lead: bool, trail: bool) -> Seq<
    char,
> {
    (if lead {
        ellipsis()
    } else {
        Seq::empty()
    }) + content.subrange(from, to) + (if trail {
        ellipsis()
    } else {
        Seq::empty()
    })
}

/// `text` is an excerpt of `content`: one piece of it as it is written, whole
/// characters all, with or without an ellipsis before it and with or without
/// one behind it.
pub open spec fn is_excerpt(text: Seq<char>, content: Seq<char>) -> bool {
    exists|from: int, to: int, lead: bool, trail: bool|
        0 <= from <= to <= content.len() && text == #[trigger] excerpt(
            content,
            from,
            to,
            lead,
            trail,
        )
}

/// Every snippet is an excerpt of its content, for every `max_length` from 6
/// on: between its ellipses stands one piece of the content, unchanged.
pub proof fn lemma_snippet_is_excerpt(
    content: Seq<char>,
    lowered_content: Seq<char>,
    terms: Seq<TermView>,
    max_length: int,
)
    requires
        max_length >= 6,
    ensures
        is_excerpt(snippet(content, lowered_content, terms, max_length), content),
{
    let text = snippet(content, lowered_content, terms, max_length);
    let n = content.len() as int;
    match first_found(lowered_content, terms, 0) {
        None => {
            if n > max_length {
                assert(text =~= excerpt(content, 0, max_length, false, true));
            } else {
                assert(text =~= excerpt(content, 0, n, false, false));
            }
        },
        Some(k) => {
            lemma_first_found(lowered_content, terms, 0);
            lemma_first_match(lowered_content, terms[k].lowered, 0);
            let at = first_match(lowered_content, terms[k].lowered, 0).unwrap();
            let end = window_end(at, terms[k].length as int, n);
            let start = window_start(at, end);
            let whole = framed(content, at, terms[k].length as int);
            assert(0 <= start <= end <= n);
            assert(whole =~= excerpt(content, start, end, start > 0, end < n));
            assert(content.subrange(start, end).len() == end - start);
            assert(ellipsis().len() == 3);
            assert(whole.len() == (if start > 0 {
                3int
            } else {
                0int
            }) + (end - start) + (if end < n {
                3int
            } else {
                0int
            }));
            if whole.len() > max_length {
                let lead: int = if start > 0 {
                    3
                } else {
                    0
                };
                let kept = max_length - 3 - lead;
                assert(0 <= kept <= end - start);
                assert(whole.take(max_length - 3) =~= excerpt(
                    content,
                    start,
                    start + kept,
                    start > 0,
                    false,
                ));
                assert(text =~= excerpt(content, start, start + kept, start > 0, true));
            }
        },
    }
}

/// A snippet round a match is no longer than `max_length`, for every
/// `max_length` from 3 on. A snippet for which no term occurs holds the
/// ellipsis at most beyond `max_length`.
pub proof fn lemma_snippet_length(
    content: Seq<char>,
    lowered_content: Seq<char>,
    terms: Seq<TermView>,
    max_length: int,
)
    requires
        max_length >= 0,
    ensures
        snippet(content, lowered_content, terms, max_length).len() <= max_length + 3,
        max_length >= 3 && first_found(lowered_content, terms, 0) is Some ==> snippet(
            content,
            lowered_content,
            terms,
            max_length,
        ).len() <= max_length,
{
}

/// A frame whose window starts behind the start of the content and ends
/// before its end begins with an ellipsis and ends with one, also after it is
/// clipped; and it is no longer than `max_length`. This for every
/// `max_length` from 6 on.
proof fn lemma_frame_inside_content(content: Seq<char>, at: int, term_length: int, max_length: int)
    requires
        max_length >= 6,
        term_length >= 0,
        CONTEXT < at,
        at + term_length + CONTEXT < content.len(),
    ensures
        ({
            let s = clipped(framed(content, at, term_length), max_length);
            &&& 6 <= s.len() <= max_length
            &&& s.take(3) == ellipsis()
            &&& s.skip(s.len() - 3) == ellipsis()
        }),
{
    let f = framed(content, at, term_length);
    let s = clipped(f, max_length);
    let end = at + term_length + CONTEXT;
    let start = at - CONTEXT;
    assert(f == ellipsis() + content.subrange(start, end) + ellipsis());
    assert(f.len() == term_length + 2 * CONTEXT + 6);
    assert(f.take(3) =~= ellipsis());
    if f.len() > max_length {
        assert(s == f.take(max_length - 3) + ellipsis());
        assert(s.take(3) =~= ellipsis());
        assert(s.skip(s.len() - 3) =~= ellipsis());
    } else {
        assert(s.skip(s.len() - 3) =~= ellipsis());
    }
}

/// Where the first term that occurs has its first match more than 80
/// characters behind the start of the content, and ends more than 80
/// characters before the end of the content, the snippet begins with an
/// ellipsis and ends with one, and is no longer than `max_length`. This for
/// every `max_length` from 6 on.
pub proof fn lemma_snippet_inside_content(
    content: Seq<char>,
    lowered_content: Seq<char>,
    terms: Seq<TermView>,
    max_length: int,
)
    requires
        max_length >= 6,
        first_found(lowered_content, terms, 0) is Some,
        ({
            let term = terms[first_found(lowered_content, terms, 0).unwrap()];
            let at = first_match(lowered_content, term.lowered, 0).unwrap();
            CONTEXT < at && at + term.length + CONTEXT < content.len()
        }),
    ensures
        ({
            let s = snippet(content, lowered_content, terms, max_length);
            &&& 6 <= s.len() <= max_length
            &&& s.take(3) == ellipsis()
            &&& s.skip(s.len() - 3) == ellipsis()
        }),
{
    let term = terms[first_found(lowered_content, terms, 0).unwrap()];
    let at = first_match(lowered_content, term.lowered, 0).unwrap();
    lemma_frame_inside_content(content, at, term.length as int, max_length);
}

/// Cuts `text` down to `max_length` characters where it is longer.
pub fn clip(text: &str, max_length: usize) -> (cut: String)
    ensures
        cut@ == clipped(text@, max_length as int),
        max_length >= 3 ==> cut@.len() <= max_length,
{
    if text.unicode_len() > max_length {
        let keep: usize = if max_length >= 3 {
            max_length - 3
        } else {
            0
        };
        let mut cut = text.substring_char(0, keep).to_owned();
        proof {
            reveal_strlit("...");
            assert("..."@ =~= ellipsis());
        }
        cut.append("...");
        cut
    } else {
        text.to_owned()
    }
}

/// Gives the start of `text`: all of it, or its first `max_length`
/// characters and an ellipsis.
pub fn shorten(text: &str, max_length: usize) -> (start: String)
    ensures
        start@ == start_of(text@, max_length as int),
        start@.len() <= max_length + 3,
{
    if text.unicode_len() > max_length {
        let mut start = text.substring_char(0, max_length).to_owned();
        proof {
            reveal_strlit("...");
            assert("..."@ =~= ellipsis());
        }
        start.append("...");
        start
    } else {
        text.to_owned()
    }
}

/// Builds the frame round a match at index `at` of a term of `term_length`
/// characters.
pub fn frame(content: &str, at: usize, term_length: usize) -> (text: String)
    ensures
        text@ == framed(content@, at as int, term_length as int),
{
    let length: usize = content.unicode_len();
    let end: usize = if at < length && term_length < length - at && CONTEXT < length - at
        - term_length {
        at + term_length + CONTEXT
    } else {
        length
    };
    let start: usize = if at <= CONTEXT {
        0
    } else if at - CONTEXT <= end {
        at - CONTEXT
    } else {
        end
    };
    proof {
        reveal_strlit("...");
        reveal_strlit("");
        assert("..."@ =~= ellipsis());
        assert(""@ =~= Seq::<char>::empty());
    }
    let mut text: String = if start > 0 {
        "...".to_owned()
    } else {
        "".to_owned()
    };
    text.append(content.substring_char(start, end));
    if end < length {
        text.append("...");
    } else {
        assert(text@ =~= text@ + Seq::<char>::empty());
    }
    text
}

/// Builds the snippet of `content` for `terms`, with the matches looked for in
/// `lowered_content`.
pub fn snippet_for(
    content: &str,
    lowered_content: &Vec<char>,
    terms: &Vec<Term>,
    max_length: usize,
) -> (text: String)
    ensures
        text@ == snippet(content@, lowered_content@, terms.deep_view(), max_length as int),
        max_length >= 6 ==> is_excerpt(text@, content@),
        text@.len() <= max_length + 3,
        max_length >= 3 && first_found(lowered_content@, terms.deep_view(), 0) is Some
            ==> text@.len() <= max_length,
{
    proof {
        if max_length >= 6 {
            lemma_snippet_is_excerpt(
                content@,
                lowered_content@,
                terms.deep_view(),
                max_length as int,
            );
        }
    }
    let mut k: usize = 0;
    while k < terms.len()
        invariant
            k <= terms.len(),
            max_length >= 6 ==> is_excerpt(
                snippet(content@, lowered_content@, terms.deep_view(), max_length as int),
                content@,
            ),
            first_found(lowered_content@, terms.deep_view(), 0) == first_found(
                lowered_content@,
                terms.deep_view(),
                k as int,
            ),
        decreases terms.len() - k,
    {
        assert(terms.deep_view()[k as int] == terms[k as int].deep_view());
        match find_from(lowered_content, &terms[k].lowered, 0) {
            Some(at) => {
                let whole = frame(content, at, terms[k].length);
                return clip(whole.as_str(), max_length);
            },
            None => {},
        }
        k += 1;
    }
    shorten(content, max_length)
}

/// Builds the snippet of `content` for the query terms `query_terms`: the
/// terms are compared in lower case with the lower-case form of the content.
pub fn create_snippet(content: &str, query_terms: &[&str], max_length: usize) -> (text: String)
    ensures
        text@ == snippet(
            content@,
            lowercase(content@),
            term_views(words_of(query_terms@)),
            max_length as int,
        ),
        max_length >= 6 ==> is_excerpt(text@, content@),
        text@.len() <= max_length + 3,
        max_length >= 3 && first_found(
            lowercase(content@),
            term_views(words_of(query_terms@)),
            0,
        ) is Some ==> text@.len() <= max_length,
{
    let terms = prepare_terms(query_terms);
    let lowered = to_lowercase(content);
    let lowered_content = chars_of(lowered.as_str());
    snippet_for(content, &lowered_content, &terms, max_length)
}

} // verus!
