//! Laws of texts.

use crate::text::{
    after_prefix, ascii_lower, before, before_last, decimal_of, find_from, find_in, first_word_of,
    is_white_space, joined, last_index, lemma_find_char, lemma_leading_word, trim_end, trim_start,
    trimmed,
};
use vstd::prelude::*;

verus! {

/// Whether a text is white space throughout.
pub open spec fn blank(text: Seq<char>) -> bool {
    forall|i: int| 0 <= i < text.len() ==> is_white_space(#[trigger] text[i])
}

/// Whether a text has no white space in it.
pub open spec fn solid(text: Seq<char>) -> bool {
    forall|i: int| 0 <= i < text.len() ==> !is_white_space(#[trigger] text[i])
}

/// What is taken away at the start.
proof fn lemma_trim_start(text: Seq<char>) -> (head: Seq<char>)
    ensures
        text == head + trim_start(text),
        blank(head),
        trim_start(text).len() > 0 ==> !is_white_space(trim_start(text)[0]),
    decreases text.len(),
{
    if text.len() > 0 && is_white_space(text[0]) {
        let shorter = lemma_trim_start(text.drop_first());
        let head = seq![text[0]] + shorter;
        assert(text == seq![text[0]] + text.drop_first());
        assert(trim_start(text) == trim_start(text.drop_first()));
        assert(text == head + trim_start(text));
        head
    } else {
        assert(text == Seq::<char>::empty() + text);
        Seq::empty()
    }
}

/// What is taken away at the end.
proof fn lemma_trim_end(text: Seq<char>) -> (tail: Seq<char>)
    ensures
        text == trim_end(text) + tail,
        blank(tail),
        trim_end(text).len() > 0 ==> !is_white_space(trim_end(text).last()) && trim_end(text)[0]
            == text[0],
    decreases text.len(),
{
    if text.len() > 0 && is_white_space(text.last()) {
        let shorter = lemma_trim_end(text.drop_last());
        let tail = shorter.push(text.last());
        assert(text == text.drop_last().push(text.last()));
        assert(trim_end(text) == trim_end(text.drop_last()));
        assert(text == trim_end(text) + tail);
        tail
    } else {
        assert(text == text + Seq::<char>::empty());
        Seq::empty()
    }
}

/// Trimming takes white space away at both ends, all of it, and nothing else.
pub proof fn law_trimmed(text: Seq<char>) -> (around: (Seq<char>, Seq<char>))
    ensures
        text == around.0 + trimmed(text) + around.1,
        blank(around.0),
        blank(around.1),
        trimmed(text).len() > 0 ==> !is_white_space(trimmed(text)[0]) && !is_white_space(
            trimmed(text).last(),
        ),
{
    let head = lemma_trim_start(text);
    let tail = lemma_trim_end(trim_start(text));
    assert(text == head + trimmed(text) + tail);
    (head, tail)
}

/// What is trimmed away is all of a text exactly where it is white space throughout.
pub proof fn law_trimmed_to_nothing(text: Seq<char>)
    ensures
        trimmed(text).len() == 0 <==> blank(text),
{
    let (head, tail) = law_trimmed(text);
    if trimmed(text).len() == 0 {
        assert forall|i: int| 0 <= i < text.len() implies is_white_space(#[trigger] text[i]) by {
            if i < head.len() {
                assert(text[i] == head[i]);
            } else {
                assert(text[i] == tail[i - head.len()]);
            }
        }
    } else {
        assert(text[head.len() as int] == trimmed(text)[0]);
    }
}

/// The first word of a text is what has no white space in it, after any white space that the text
/// begins with, up to more white space or the end. A blank text has none.
pub proof fn law_first_word(text: Seq<char>) -> (around: (Seq<char>, Seq<char>))
    ensures
        match first_word_of(text) {
            Some(word) => {
                &&& text == around.0 + word + around.1
                &&& blank(around.0)
                &&& word.len() > 0
                &&& solid(word)
                &&& around.1.len() > 0 ==> is_white_space(around.1[0])
            },
            None => blank(text),
        },
{
    let head = lemma_trim_start(text);
    let rest = trim_start(text);
    if rest.len() == 0 {
        assert(text == head);
        (head, Seq::empty())
    } else {
        let n = lemma_word_end(rest, 0);
        lemma_leading_word(rest, n);
        let tail = rest.skip(n);
        assert(rest == rest.take(n) + tail);
        assert(text == head + rest.take(n) + tail);
        (head, tail)
    }
}

/// Where a word ends.
proof fn lemma_word_end(text: Seq<char>, from: int) -> (n: int)
    requires
        0 <= from <= text.len(),
    ensures
        from <= n <= text.len(),
        forall|i: int| from <= i < n ==> !is_white_space(#[trigger] text[i]),
        n < text.len() ==> is_white_space(text[n]),
    decreases text.len() - from,
{
    if from < text.len() && !is_white_space(text[from]) {
        lemma_word_end(text, from + 1)
    } else {
        from
    }
}

/// A search finds the first place where the pattern stands, and none exactly where it stands
/// nowhere.
pub proof fn law_find(text: Seq<char>, pattern: Seq<char>)
    ensures
        match find_in(text, pattern) {
            Some(i) => {
                &&& 0 <= i <= text.len() - pattern.len()
                &&& text.subrange(i, i + pattern.len()) == pattern
                &&& forall|j: int|
                    0 <= j < i ==> #[trigger] text.subrange(j, j + pattern.len()) != pattern
            },
            None => forall|j: int|
                0 <= j <= text.len() - pattern.len() ==> #[trigger] text.subrange(
                    j,
                    j + pattern.len(),
                ) != pattern,
        },
{
    lemma_find(text, pattern, 0);
}

/// What a search finds from some place on.
proof fn lemma_find(text: Seq<char>, pattern: Seq<char>, from: int)
    requires
        0 <= from,
    ensures
        match find_from(text, pattern, from) {
            Some(i) => {
                &&& from <= i <= text.len() - pattern.len()
                &&& text.subrange(i, i + pattern.len()) == pattern
                &&& forall|j: int|
                    from <= j < i ==> #[trigger] text.subrange(j, j + pattern.len()) != pattern
            },
            None => forall|j: int|
                from <= j <= text.len() - pattern.len() ==> #[trigger] text.subrange(
                    j,
                    j + pattern.len(),
                ) != pattern,
        },
    decreases text.len() + 1 - from,
{
    if from + pattern.len() <= text.len() && text.subrange(from, from + pattern.len()) != pattern {
        lemma_find(text, pattern, from + 1);
    }
}

/// Where a text is a part without `c` and, if there is more, `c` and the rest, `before` is that
/// part.
pub proof fn law_before(part: Seq<char>, c: char, rest: Seq<char>)
    requires
        !part.contains(c),
    ensures
        before(part, c) == part,
        before(part.push(c) + rest, c) == part,
{
    let text = part.push(c) + rest;
    lemma_find_char(part, c, 0);
    lemma_find_char(text, c, 0);
    if let Some(i) = find_in(part, seq![c]) {
        assert(part[i] == c);
        assert(false);
    }
    let n = part.len() as int;
    assert(text[n] == c);
    match find_in(text, seq![c]) {
        Some(i) => {
            if i < n {
                assert(part[i] == c);
                assert(false);
            }
            assert(text.take(n) == part);
        },
        None => {
            assert(false);
        },
    }
}

/// Where a text is a part and then, if there is more, `c` and a rest without `c`, `before_last` is
/// that part; a text without `c` it leaves as it is.
pub proof fn law_before_last(part: Seq<char>, c: char, rest: Seq<char>)
    requires
        !rest.contains(c),
    ensures
        before_last(rest, c) == rest,
        before_last(part.push(c) + rest, c) == part,
{
    let text = part.push(c) + rest;
    let n = part.len() as int;
    lemma_last_index(rest, c, rest.len() as int, 0);
    assert(text[n] == c);
    assert forall|j: int| n + 1 <= j < text.len() implies #[trigger] text[j] != c by {
        assert(text[j] == rest[j - n - 1]);
        assert(rest.contains(rest[j - n - 1]));
    }
    assert forall|j: int| 0 <= j < rest.len() implies #[trigger] rest[j] != c by {
        assert(rest.contains(rest[j]));
    }
    lemma_last_index(rest, c, rest.len() as int, 0);
    lemma_last_index(text, c, text.len() as int, n + 1);
    assert(text.take(n) == part);
}

/// What a search from the end finds where there is no `c` from `from` on.
proof fn lemma_last_index(text: Seq<char>, c: char, to: int, from: int)
    requires
        0 <= from <= to <= text.len(),
    ensures
        (forall|j: int| from <= j < to ==> #[trigger] text[j] != c) ==> last_index(text, c, to)
            == last_index(text, c, from),
    decreases to,
{
    if from < to {
        lemma_last_index(text, c, to - 1, from);
        assert(text[to - 1] == text[to - 1]);
    }
}

/// A text starts with a prefix exactly where it is the prefix and something more, and that is what
/// follows it.
pub proof fn law_after_prefix(text: Seq<char>, prefix: Seq<char>, rest: Seq<char>)
    ensures
        after_prefix(text, prefix) == Some(rest) <==> text == prefix + rest,
{
    let n = prefix.len() as int;
    if text == prefix + rest {
        assert(text.take(n) == prefix);
        assert(text.skip(n) == rest);
    }
    if after_prefix(text, prefix) == Some(rest) {
        assert(text == text.take(n) + text.skip(n));
    }
}

/// What is joined of nothing is nothing, of one part is that part, and of more is what is joined of
/// a first and of a second share of them with the separator between.
pub proof fn law_joined(a: Seq<Seq<char>>, b: Seq<Seq<char>>, part: Seq<char>, separator: Seq<char>)
    ensures
        joined(Seq::empty(), separator) == Seq::<char>::empty(),
        joined(seq![part], separator) == part,
        a.len() > 0 && b.len() > 0 ==> joined(a + b, separator) == joined(a, separator) + separator
            + joined(b, separator),
    decreases b.len(),
{
    if a.len() > 0 && b.len() > 0 {
        let both = a + b;
        assert(both.last() == b.last());
        if b.len() == 1 {
            assert(both.drop_last() == a);
        } else {
            law_joined(a, b.drop_last(), part, separator);
            assert(both.drop_last() == a + b.drop_last());
            assert(joined(both, separator) == joined(a, separator) + separator + joined(
                b,
                separator,
            ));
        }
    }
}

/// The number that decimal digits stand for.
pub open spec fn number_of(digits: Seq<char>) -> int
    decreases digits.len(),
{
    if digits.len() == 0 {
        0
    } else {
        10 * number_of(digits.drop_last()) + (digits.last() as int - '0' as int)
    }
}

/// A number in decimal is made of digits, begins with no needless zero, and stands for the number.
pub proof fn law_decimal(n: nat)
    ensures
        decimal_of(n).len() > 0,
        forall|i: int| 0 <= i < decimal_of(n).len() ==> '0' <= #[trigger] decimal_of(n)[i] <= '9',
        n > 0 ==> decimal_of(n)[0] != '0',
        n == 0 ==> decimal_of(n).len() == 1,
        number_of(decimal_of(n)) == n,
    decreases n,
{
    if n < 10 {
        let digits = decimal_of(n);
        assert(digits.drop_last().len() == 0);
        assert(number_of(digits.drop_last()) == 0);
    } else {
        law_decimal(n / 10);
        assert(decimal_of(n).drop_last() == decimal_of(n / 10));
        assert(decimal_of(n)[0] == decimal_of(n / 10)[0]);
    }
}

/// Lower case leaves all characters in their places and changes none but the capital letters of
/// ASCII, each to its small letter. Twice is as good as once.
pub proof fn law_ascii_lower(text: Seq<char>)
    ensures
        ascii_lower(text).len() == text.len(),
        forall|i: int|
            0 <= i < text.len() ==> {
                let c = #[trigger] text[i];
                let small = ascii_lower(text)[i];
                if 'A' <= c <= 'Z' {
                    small as int - 'a' as int == c as int - 'A' as int
                } else {
                    small == c
                }
            },
        ascii_lower(ascii_lower(text)) == ascii_lower(text),
{
    assert(ascii_lower(ascii_lower(text)) =~= ascii_lower(text));
}

} // verus!
