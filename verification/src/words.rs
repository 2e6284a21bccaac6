//! Words: the maximal runs of characters that are not white space.
use crate::text;
use crate::text::{chars_of, is_whitespace};
use vstd::prelude::*;

verus! {

/// Where the word that covers position `i` ends.
pub open spec fn word_end(s: Seq<char>, i: int) -> int
    decreases s.len() - i,
{
    if 0 <= i < s.len() && !text::is_space(s[i]) {
        word_end(s, i + 1)
    } else {
        i
    }
}

/// The words at or after position `i`, each as its start and its end.
pub open spec fn spans_from(s: Seq<char>, i: int) -> Seq<(int, int)>
    decreases s.len() - i,
{
    if i < 0 || i >= s.len() {
        Seq::empty()
    } else if text::is_space(s[i]) {
        spans_from(s, i + 1)
    } else {
        proof {
            lemma_word_end(s, i);
        }
        seq![(i, word_end(s, i))] + spans_from(s, word_end(s, i))
    }
}

/// The words of a string, each as its start and its end.
pub open spec fn word_spans(s: Seq<char>) -> Seq<(int, int)> {
    spans_from(s, 0)
}

/// The words of a string.
pub open spec fn words(s: Seq<char>) -> Seq<Seq<char>> {
    word_spans(s).map_values(|span: (int, int)| s.subrange(span.0, span.1))
}

pub proof fn lemma_word_end(s: Seq<char>, i: int)
    requires
        0 <= i <= s.len(),
    ensures
        i <= word_end(s, i) <= s.len(),
        i < s.len() && !text::is_space(s[i]) ==> i < word_end(s, i),
    decreases s.len() - i,
{
    if i < s.len() && !text::is_space(s[i]) {
        lemma_word_end(s, i + 1);
    }
}

/// Every span lies inside the string, is not empty, and follows its predecessor.
pub proof fn lemma_spans_in_range(s: Seq<char>, i: int)
    requires
        0 <= i <= s.len(),
    ensures
        forall|k: int|
            0 <= k < spans_from(s, i).len() ==> i <= (#[trigger] spans_from(s, i)[k]).0
                < spans_from(s, i)[k].1 <= s.len(),
    decreases s.len() - i,
{
    if i < s.len() {
        lemma_word_end(s, i);
        if text::is_space(s[i]) {
            lemma_spans_in_range(s, i + 1);
            assert(spans_from(s, i) == spans_from(s, i + 1));
        } else {
            let e = word_end(s, i);
            lemma_spans_in_range(s, e);
            let rest = spans_from(s, e);
            assert forall|k: int| 0 <= k < spans_from(s, i).len() implies i <= (
            #[trigger] spans_from(s, i)[k]).0 < spans_from(s, i)[k].1 <= s.len() by {
                assert(spans_from(s, i) == seq![(i, e)] + rest);
                if k > 0 {
                    assert(spans_from(s, i)[k] == rest[k - 1]);
                }
            }
        }
    }
}

/// The word spans of a character vector.
pub open spec fn spans_view(spans: Seq<(usize, usize)>) -> Seq<(int, int)> {
    spans.map_values(|span: (usize, usize)| (span.0 as int, span.1 as int))
}

/// Finds the words of a string, each as the character positions where it starts and ends.
pub fn token_spans(input: &Vec<char>) -> (spans: Vec<(usize, usize)>)
    ensures
        spans_view(spans@) == word_spans(input@),
        forall|k: int|
            0 <= k < spans.len() ==> (#[trigger] spans@[k]).0 < spans@[k].1 <= input.len(),
{
    let mut spans: Vec<(usize, usize)> = Vec::new();
    let mut i: usize = 0;
    while i < input.len()
        invariant
            i <= input.len(),
            word_spans(input@) == spans_view(spans@) + spans_from(input@, i as int),
        decreases input.len() - i,
    {
        proof {
            lemma_word_end(input@, i as int);
        }
        if is_whitespace(input[i]) {
            i = i + 1;
        } else {
            let start: usize = i;
            let mut end: usize = i + 1;
            while end < input.len() && !is_whitespace(input[end])
                invariant
                    start < end <= input.len(),
                    word_end(input@, start as int) == word_end(input@, end as int),
                decreases input.len() - end,
            {
                end = end + 1;
            }
            let ghost before = spans@;
            spans.push((start, end));
            proof {
                assert(spans_view(spans@) =~= spans_view(before).push((start as int, end as int)));
                assert(spans_view(before) + (seq![(start as int, end as int)] + spans_from(
                    input@,
                    end as int,
                )) =~= spans_view(spans@) + spans_from(input@, end as int));
            }
            i = end;
        }
    }
    assert(spans_view(spans@) + Seq::<(int, int)>::empty() =~= spans_view(spans@));
    proof {
        lemma_spans_in_range(input@, 0);
        assert forall|k: int| 0 <= k < spans.len() implies (#[trigger] spans@[k]).0 < spans@[k].1
            <= input.len() by {
            assert(spans_view(spans@)[k] == word_spans(input@)[k]);
        }
    }
    spans
}

/// Counts the words of a string.
pub fn word_count(s: &str) -> (count: usize)
    ensures
        count == words(s@).len(),
{
    let chars = chars_of(s);
    let spans = token_spans(&chars);
    assert(spans_view(spans@).len() == spans.len());
    spans.len()
}

proof fn lemma_word_end_at(s: Seq<char>, i: int, n: int)
    requires
        0 <= i <= n <= s.len(),
        forall|k: int| i <= k < n ==> !text::is_space(#[trigger] s[k]),
        n == s.len() || text::is_space(s[n]),
    ensures
        word_end(s, i) == n,
    decreases n - i,
{
    if i < n {
        lemma_word_end_at(s, i + 1, n);
    }
}

/// A span, further on.
pub open spec fn moved(span: (int, int), by: int) -> (int, int) {
    (span.0 + by, span.1 + by)
}

proof fn lemma_word_end_moved(head: Seq<char>, s: Seq<char>, i: int)
    requires
        0 <= i <= s.len(),
    ensures
        word_end(head + s, head.len() + i) == head.len() + word_end(s, i),
    decreases s.len() - i,
{
    if i < s.len() {
        assert((head + s)[head.len() + i] == s[i]);
        if !text::is_space(s[i]) {
            lemma_word_end_moved(head, s, i + 1);
        }
    }
}

proof fn lemma_spans_moved(head: Seq<char>, s: Seq<char>, i: int)
    requires
        0 <= i <= s.len(),
    ensures
        spans_from(head + s, head.len() + i) == spans_from(s, i).map_values(
            |span: (int, int)| moved(span, head.len() as int),
        ),
    decreases s.len() - i,
{
    let by = head.len() as int;
    let whole = head + s;
    if i < s.len() {
        assert(whole[by + i] == s[i]);
        lemma_word_end(s, i);
        if text::is_space(s[i]) {
            lemma_spans_moved(head, s, i + 1);
        } else {
            let e = word_end(s, i);
            lemma_word_end_moved(head, s, i);
            lemma_spans_moved(head, s, e);
            assert(spans_from(whole, by + i) =~= spans_from(s, i).map_values(
                |span: (int, int)| moved(span, by),
            ));
        }
    } else {
        assert(spans_from(whole, by + i) =~= spans_from(s, i).map_values(
            |span: (int, int)| moved(span, by),
        ));
    }
}

proof fn lemma_blank_has_no_words(s: Seq<char>, i: int, n: int)
    requires
        0 <= i <= n <= s.len(),
        forall|k: int| i <= k < n ==> text::is_space(#[trigger] s[k]),
    ensures
        spans_from(s, i) == spans_from(s, n),
    decreases n - i,
{
    if i < n {
        lemma_blank_has_no_words(s, i + 1, n);
    }
}

/// The words of a text are read off one after the other: what stands before a word, without being
/// part of one, does not count, the first word goes up to the next white space, and the others are
/// those of what follows.
pub proof fn words_are_read_off_in_order(
    blank: Seq<char>,
    word: Seq<char>,
    gap: char,
    rest: Seq<char>,
)
    requires
        forall|k: int| 0 <= k < blank.len() ==> text::is_space(#[trigger] blank[k]),
        word.len() > 0,
        forall|k: int| 0 <= k < word.len() ==> !text::is_space(#[trigger] word[k]),
        text::is_space(gap),
    ensures
        words(blank + word + seq![gap] + rest) == seq![word] + words(rest),
        words(blank + word) == seq![word],
        words(blank).len() == 0,
        word_spans(blank + word + seq![gap] + rest)[0] == (
            blank.len() as int,
            (blank.len() + word.len()) as int,
        ),
{
    let from = blank.len() as int;
    let to = (blank.len() + word.len()) as int;
    let head = blank + word + seq![gap];
    let s = blank + word + seq![gap] + rest;
    assert(s =~= head + rest);
    assert forall|k: int| 0 <= k < from implies text::is_space(#[trigger] s[k]) by {
        assert(s[k] == blank[k]);
    }
    assert forall|k: int| from <= k < to implies !text::is_space(#[trigger] s[k]) by {
        assert(s[k] == word[k - from]);
    }
    assert(s[to] == gap);
    lemma_blank_has_no_words(s, 0, from);
    lemma_word_end_at(s, from, to);
    assert(spans_from(s, to) == spans_from(s, to + 1));
    lemma_spans_moved(head, rest, 0);
    let by = head.len() as int;
    let spans = spans_from(rest, 0);
    lemma_spans_in_range(rest, 0);
    assert(word_spans(s) == seq![(from, to)] + spans.map_values(
        |span: (int, int)| moved(span, by),
    ));
    assert forall|k: int| 0 <= k < words(s).len() implies #[trigger] words(s)[k] == (seq![word]
        + words(rest))[k] by {
        if k == 0 {
            assert(s.subrange(from, to) =~= word);
        } else {
            let span = spans[k - 1];
            assert(word_spans(s)[k] == moved(span, by));
            assert(s.subrange(by + span.0, by + span.1) =~= rest.subrange(span.0, span.1));
        }
    }
    assert(words(s) =~= seq![word] + words(rest));
    let alone = blank + word;
    assert forall|k: int| 0 <= k < from implies text::is_space(#[trigger] alone[k]) by {
        assert(alone[k] == blank[k]);
    }
    assert forall|k: int| from <= k < to implies !text::is_space(#[trigger] alone[k]) by {
        assert(alone[k] == word[k - from]);
    }
    lemma_blank_has_no_words(alone, 0, from);
    lemma_word_end_at(alone, from, to);
    assert(spans_from(alone, to) =~= Seq::<(int, int)>::empty());
    assert(alone.subrange(from, to) =~= word);
    assert(words(alone) =~= seq![word]);
    lemma_blank_has_no_words(blank, 0, from);
}

} // verus!
