//! Text helpers: what the library needs of strings, stated over sequences of characters.

use vstd::prelude::*;
use vstd::string::*;

verus! {

/// The Unicode `White_Space` property.
pub open spec fn is_white_space(c: char) -> bool {
    ||| '\u{9}' <= c <= '\u{d}'
    ||| c == ' '
    ||| c == '\u{85}'
    ||| c == '\u{a0}'
    ||| c == '\u{1680}'
    ||| '\u{2000}' <= c <= '\u{200a}'
    ||| c == '\u{2028}'
    ||| c == '\u{2029}'
    ||| c == '\u{202f}'
    ||| c == '\u{205f}'
    ||| c == '\u{3000}'
}

/// Whether `c` has the Unicode `White_Space` property.
pub fn white_space(c: char) -> (r: bool)
    ensures
        r == is_white_space(c),
{
    ('\u{9}' <= c && c <= '\u{d}') || c == ' ' || c == '\u{85}' || c == '\u{a0}' || c == '\u{1680}'
        || ('\u{2000}' <= c && c <= '\u{200a}') || c == '\u{2028}' || c == '\u{2029}'
        || c == '\u{202f}' || c == '\u{205f}' || c == '\u{3000}'
}

/// The characters of `text`, one by one.
pub fn chars_of(text: &str) -> (r: Vec<char>)
    ensures
        r@ == text@,
{
    let mut out: Vec<char> = Vec::new();
    for c in it: text.chars()
        invariant
            it.seq() == text@,
            out@ == it.seq().take(it.index() as int),
    {
        out.push(c);
    }
    out
}

/// Whether two texts hold the same characters.
pub fn same(a: &str, b: &str) -> (r: bool)
    ensures
        r == (a@ == b@),
{
    a.to_owned() == b.to_owned()
}

/// The same text again, if there is one.
pub fn clone_text(text: &Option<String>) -> (r: Option<String>)
    ensures
        r.deep_view() == text.deep_view(),
{
    match text {
        Some(some) => Some(some.clone()),
        None => None,
    }
}

/// `text` without its leading white space.
pub open spec fn trim_start(text: Seq<char>) -> Seq<char>
    decreases text.len(),
{
    if text.len() > 0 && is_white_space(text[0]) {
        trim_start(text.drop_first())
    } else {
        text
    }
}

/// `text` without its trailing white space.
pub open spec fn trim_end(text: Seq<char>) -> Seq<char>
    decreases text.len(),
{
    if text.len() > 0 && is_white_space(text.last()) {
        trim_end(text.drop_last())
    } else {
        text
    }
}

/// `text` without white space at either end.
pub open spec fn trimmed(text: Seq<char>) -> Seq<char> {
    trim_end(trim_start(text))
}

/// Index of the first character of `chars` that is no white space, or the length.
fn first_visible(chars: &Vec<char>) -> (from: usize)
    ensures
        from <= chars@.len(),
        trim_start(chars@) == chars@.skip(from as int),
        from < chars@.len() ==> !is_white_space(chars@[from as int]),
{
    let mut from: usize = 0;
    proof {
        assert(chars@.skip(0) == chars@);
    }
    while from < chars.len() && white_space(chars[from])
        invariant
            from <= chars@.len(),
            trim_start(chars@) == trim_start(chars@.skip(from as int)),
        decreases chars@.len() - from,
    {
        proof {
            assert(chars@.skip(from as int).drop_first() == chars@.skip(from + 1));
        }
        from = from + 1;
    }
    from
}

/// `text` without white space at either end, as a text of its own.
pub fn trim(text: &str) -> (r: String)
    ensures
        r@ == trimmed(text@),
{
    let chars: Vec<char> = chars_of(text);
    let from: usize = first_visible(&chars);
    let mut to: usize = chars.len();
    proof {
        assert(text@.skip(from as int) == text@.subrange(from as int, to as int));
    }
    while from < to && white_space(chars[to - 1])
        invariant
            from <= to <= chars@.len(),
            chars@ == text@,
            trimmed(text@) == trim_end(text@.subrange(from as int, to as int)),
        decreases to,
    {
        proof {
            assert(text@.subrange(from as int, to as int).drop_last() == text@.subrange(
                from as int,
                to - 1,
            ));
        }
        to = to - 1;
    }
    text.substring_char(from, to).to_owned()
}

/// The longest prefix of `text` that holds no white space.
pub open spec fn leading_word(text: Seq<char>) -> Seq<char>
    decreases text.len(),
{
    if text.len() == 0 || is_white_space(text[0]) {
        seq![]
    } else {
        seq![text[0]] + leading_word(text.drop_first())
    }
}

/// The first word of `text`, words being parted by white space; `None` if there is none.
pub open spec fn first_word_of(text: Seq<char>) -> Option<Seq<char>> {
    if trim_start(text).len() == 0 {
        None
    } else {
        Some(leading_word(trim_start(text)))
    }
}

/// A word that white space or the end of the text follows is the leading one.
pub proof fn lemma_leading_word(text: Seq<char>, n: int)
    requires
        0 <= n <= text.len(),
        forall|i: int| 0 <= i < n ==> !is_white_space(#[trigger] text[i]),
        n < text.len() ==> is_white_space(text[n]),
    ensures
        leading_word(text) == text.take(n),
    decreases n,
{
    if n > 0 {
        lemma_leading_word(text.drop_first(), n - 1);
        assert(text.take(n) == seq![text[0]] + text.drop_first().take(n - 1));
    } else {
        assert(text.take(0) == Seq::<char>::empty());
    }
}

/// The first word of `text`, words being parted by white space.
pub fn first_word(text: &str) -> (r: Option<String>)
    ensures
        r.deep_view() == first_word_of(text@),
{
    let chars: Vec<char> = chars_of(text);
    let from: usize = first_visible(&chars);
    if from == chars.len() {
        return None;
    }
    let mut to: usize = from;
    while to < chars.len() && !white_space(chars[to])
        invariant
            from <= to <= chars@.len(),
            forall|i: int| from <= i < to ==> !is_white_space(#[trigger] chars@[i]),
        decreases chars@.len() - to,
    {
        to = to + 1;
    }
    proof {
        let rest = text@.skip(from as int);
        assert forall|i: int| 0 <= i < to - from implies !is_white_space(#[trigger] rest[i]) by {
            assert(rest[i] == chars@[from + i]);
        }
        lemma_leading_word(rest, to - from);
        assert(rest.take(to - from) == text@.subrange(from as int, to as int));
    }
    Some(text.substring_char(from, to).to_owned())
}

/// Index of the first occurrence of `pattern` in `text` at `from` or later.
pub open spec fn find_from(text: Seq<char>, pattern: Seq<char>, from: int) -> Option<int>
    decreases text.len() + 1 - from,
{
    if from + pattern.len() > text.len() {
        None
    } else if text.subrange(from, from + pattern.len()) == pattern {
        Some(from)
    } else {
        find_from(text, pattern, from + 1)
    }
}

/// Index of the first occurrence of `pattern` in `text`.
pub open spec fn find_in(text: Seq<char>, pattern: Seq<char>) -> Option<int> {
    find_from(text, pattern, 0)
}

/// Whether `pattern` stands in `text` at index `at`.
fn stands_at(text: &Vec<char>, pattern: &Vec<char>, at: usize) -> (r: bool)
    requires
        at + pattern@.len() <= text@.len(),
    ensures
        r == (text@.subrange(at as int, at + pattern@.len()) == pattern@),
{
    let end: usize = text.len();
    let mut i: usize = 0;
    while i < pattern.len()
        invariant
            i <= pattern@.len(),
            end == text@.len(),
            at + pattern@.len() <= text@.len(),
            forall|j: int| 0 <= j < i ==> text@[at + j] == #[trigger] pattern@[j],
        decreases pattern@.len() - i,
    {
        if text[at + i] != pattern[i] {
            proof {
                assert(text@.subrange(at as int, at + pattern@.len())[i as int] != pattern@[i as int]);
            }
            return false;
        }
        i = i + 1;
    }
    proof {
        assert(text@.subrange(at as int, at + pattern@.len()) =~= pattern@);
    }
    true
}

/// Index of the first occurrence of `pattern` in `text`, counted in characters.
pub fn find(text: &str, pattern: &str) -> (r: Option<usize>)
    ensures
        match r {
            Some(i) => find_in(text@, pattern@) == Some(i as int) && i + pattern@.len()
                <= text@.len(),
            None => find_in(text@, pattern@) is None,
        },
{
    let chars: Vec<char> = chars_of(text);
    let wanted: Vec<char> = chars_of(pattern);
    if wanted.len() > chars.len() {
        return None;
    }
    let last: usize = chars.len() - wanted.len();
    let mut i: usize = 0;
    while i <= last
        invariant
            chars@ == text@,
            wanted@ == pattern@,
            last == text@.len() - pattern@.len(),
            i <= last + 1,
            find_in(text@, pattern@) == find_from(text@, pattern@, i as int),
        decreases last + 1 - i,
    {
        if stands_at(&chars, &wanted, i) {
            return Some(i);
        }
        if i == last {
            proof {
                assert(find_from(text@, pattern@, last + 1) is None);
            }
            return None;
        }
        i = i + 1;
    }
    None
}

/// The part of `text` before the first `c`; all of it if there is none.
pub open spec fn before(text: Seq<char>, c: char) -> Seq<char> {
    match find_in(text, seq![c]) {
        Some(i) => text.take(i),
        None => text,
    }
}

/// What `before` gives has no `c`, and is a prefix.
pub proof fn lemma_before(text: Seq<char>, c: char)
    ensures
        before(text, c).len() <= text.len(),
        before(text, c) == text.take(before(text, c).len() as int),
        !before(text, c).contains(c),
        before(text, c).len() < text.len() ==> text[before(text, c).len() as int] == c,
{
    lemma_find_char(text, c, 0);
    assert(text.take(text.len() as int) == text);
}

/// What a search for one character finds.
pub proof fn lemma_find_char(text: Seq<char>, c: char, from: int)
    requires
        0 <= from <= text.len(),
    ensures
        match find_from(text, seq![c], from) {
            Some(i) => from <= i < text.len() && text[i] == c && forall|j: int|
                from <= j < i ==> #[trigger] text[j] != c,
            None => forall|j: int| from <= j < text.len() ==> #[trigger] text[j] != c,
        },
    decreases text.len() - from,
{
    if from < text.len() {
        let here = text.subrange(from, from + 1);
        assert(here == seq![text[from]]);
        assert(here[0] == text[from]);
        assert(seq![c][0] == c);
        if text[from] != c {
            assert(here != seq![c]);
            lemma_find_char(text, c, from + 1);
        }
    }
}

/// The part of `text` before the first `c`, as a text of its own.
pub fn take_before(text: &str, c: char) -> (r: String)
    ensures
        r@ == before(text@, c),
{
    let chars: Vec<char> = chars_of(text);
    let mut i: usize = 0;
    while i < chars.len() && chars[i] != c
        invariant
            i <= chars@.len(),
            chars@ == text@,
            forall|j: int| 0 <= j < i ==> #[trigger] text@[j] != c,
        decreases chars@.len() - i,
    {
        i = i + 1;
    }
    proof {
        lemma_find_char(text@, c, 0);
        assert(text@.take(i as int) == text@.subrange(0, i as int));
        assert(text@.take(text@.len() as int) == text@);
        if i < text@.len() {
            assert(text@[i as int] == c);
        }
    }
    text.substring_char(0, i).to_owned()
}

/// Index of the last `c` in the first `to` characters of `text`.
pub open spec fn last_index(text: Seq<char>, c: char, to: int) -> Option<int>
    decreases to,
{
    if to <= 0 {
        None
    } else if text[to - 1] == c {
        Some(to - 1)
    } else {
        last_index(text, c, to - 1)
    }
}

/// The part of `text` before the last `c`; all of it if there is none.
pub open spec fn before_last(text: Seq<char>, c: char) -> Seq<char> {
    match last_index(text, c, text.len() as int) {
        Some(i) => text.take(i),
        None => text,
    }
}

/// The part of `text` before the last `c`, as a text of its own.
pub fn take_before_last(text: &str, c: char) -> (r: String)
    ensures
        r@ == before_last(text@, c),
{
    let chars: Vec<char> = chars_of(text);
    let mut to: usize = chars.len();
    while to > 0
        invariant
            to <= chars@.len(),
            chars@ == text@,
            last_index(text@, c, text@.len() as int) == last_index(text@, c, to as int),
        decreases to,
    {
        if chars[to - 1] == c {
            proof {
                assert(text@.take(to - 1) == text@.subrange(0, to - 1));
            }
            return text.substring_char(0, to - 1).to_owned();
        }
        to = to - 1;
    }
    text.to_owned()
}

/// If `text` starts with `prefix`, what follows it.
pub open spec fn after_prefix(text: Seq<char>, prefix: Seq<char>) -> Option<Seq<char>> {
    if prefix.len() <= text.len() && text.take(prefix.len() as int) == prefix {
        Some(text.skip(prefix.len() as int))
    } else {
        None
    }
}

/// If `text` starts with `prefix`, what follows it, as a text of its own.
pub fn strip_prefix(text: &str, prefix: &str) -> (r: Option<String>)
    ensures
        r.deep_view() == after_prefix(text@, prefix@),
{
    let chars: Vec<char> = chars_of(text);
    let wanted: Vec<char> = chars_of(prefix);
    proof {
        if prefix@.len() <= text@.len() {
            assert(text@.take(prefix@.len() as int) == text@.subrange(0, prefix@.len() as int));
            assert(text@.skip(prefix@.len() as int) == text@.subrange(
                prefix@.len() as int,
                text@.len() as int,
            ));
        }
    }
    if wanted.len() <= chars.len() && stands_at(&chars, &wanted, 0) {
        Some(text.substring_char(wanted.len(), chars.len()).to_owned())
    } else {
        None
    }
}

/// `parts` in a row, with `separator` between each two.
pub open spec fn joined(parts: Seq<Seq<char>>, separator: Seq<char>) -> Seq<char>
    decreases parts.len(),
{
    if parts.len() == 0 {
        seq![]
    } else if parts.len() == 1 {
        parts[0]
    } else {
        joined(parts.drop_last(), separator) + separator + parts.last()
    }
}

/// `parts` in a row, with `separator` between each two, as one text.
pub fn join(parts: &Vec<String>, separator: &str) -> (r: String)
    ensures
        r@ == joined(parts.deep_view(), separator@),
{
    let mut out: String = String::new();
    let mut i: usize = 0;
    let ghost all = parts.deep_view();
    while i < parts.len()
        invariant
            i <= parts@.len(),
            all == parts.deep_view(),
            out@ == joined(all.take(i as int), separator@),
        decreases parts@.len() - i,
    {
        if i > 0 {
            out.append(separator);
        }
        out.append(parts[i].as_str());
        proof {
            let next = all.take(i + 1);
            assert(next.drop_last() == all.take(i as int));
            assert(next.last() == parts@[i as int]@);
            if i == 0 {
                assert(all.take(0) == Seq::<Seq<char>>::empty());
                assert(out@ == next[0]);
            }
        }
        i = i + 1;
    }
    proof {
        assert(all.take(parts@.len() as int) == all);
    }
    out
}

/// The decimal digit `d`, which is below ten.
pub open spec fn digit_of(d: nat) -> char {
    (('0' as u32) + d) as char
}

/// `n` in decimal, without leading zeros.
pub open spec fn decimal_of(n: nat) -> Seq<char>
    decreases n,
{
    if n < 10 {
        seq![digit_of(n)]
    } else {
        decimal_of(n / 10).push(digit_of(n % 10))
    }
}

/// One decimal digit as a text.
fn digit(d: u64) -> (r: &'static str)
    requires
        d < 10,
    ensures
        r@ == seq![digit_of(d as nat)],
{
    proof {
        reveal_strlit("0");
        reveal_strlit("1");
        reveal_strlit("2");
        reveal_strlit("3");
        reveal_strlit("4");
        reveal_strlit("5");
        reveal_strlit("6");
        reveal_strlit("7");
        reveal_strlit("8");
        reveal_strlit("9");
    }
    let r = match d {
        0 => "0",
        1 => "1",
        2 => "2",
        3 => "3",
        4 => "4",
        5 => "5",
        6 => "6",
        7 => "7",
        8 => "8",
        _ => "9",
    };
    proof {
        assert(r@ =~= seq![digit_of(d as nat)]);
    }
    r
}

/// `n` in decimal.
pub fn decimal(n: u64) -> (r: String)
    ensures
        r@ == decimal_of(n as nat),
    decreases n,
{
    if n < 10 {
        digit(n).to_owned()
    } else {
        let mut out: String = decimal(n / 10);
        out.append(digit(n % 10));
        out
    }
}

/// `c` in lower case if it is an ASCII letter, else `c`.
pub open spec fn ascii_lower_char(c: char) -> char {
    if 'A' <= c <= 'Z' {
        ((c as u32) + 32) as char
    } else {
        c
    }
}

/// `text` with each ASCII letter in lower case.
pub open spec fn ascii_lower(text: Seq<char>) -> Seq<char> {
    text.map_values(|c: char| ascii_lower_char(c))
}

} // verus!
