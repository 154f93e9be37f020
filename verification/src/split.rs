//! Taking texts apart: prefixes, separators, whitespace and line ends.

use vstd::prelude::*;
use crate::text::{chars_of, text_between};
use crate::text;

verus! {

// ---------------------------------------------------------------------------
// Prefixes
// ---------------------------------------------------------------------------

/// Whether `s` begins with `prefix`.
pub open spec fn begins_with(s: Seq<char>, prefix: Seq<char>) -> bool {
    prefix.len() <= s.len() && s.take(prefix.len() as int) == prefix
}

/// Whether a text begins with another.
pub fn starts_with(text: &str, prefix: &str) -> (found: bool)
    ensures
        found == begins_with(text@, prefix@),
{
    let chars = chars_of(text);
    let wanted = chars_of(prefix);
    if wanted.len() > chars.len() {
        return false;
    }
    let mut i: usize = 0;
    while i < wanted.len()
        invariant
            i <= wanted@.len() <= chars@.len(),
            chars@ == text@,
            wanted@ == prefix@,
            forall|k: int| 0 <= k < i ==> chars@[k] == wanted@[k],
        decreases wanted@.len() - i,
    {
        if chars[i] != wanted[i] {
            assert(text@.take(prefix@.len() as int)[i as int] != prefix@[i as int]);
            return false;
        }
        i = i + 1;
    }
    assert(text@.take(prefix@.len() as int) =~= prefix@);
    true
}

// ---------------------------------------------------------------------------
// Separators
// ---------------------------------------------------------------------------

/// Where `c` first occurs in `s`, or the length of `s` where it does not.
pub open spec fn first_of(s: Seq<char>, c: char) -> nat
    decreases s.len(),
{
    if s.len() == 0 || s[0] == c {
        0
    } else {
        1 + first_of(s.skip(1), c)
    }
}

/// The pieces of `s` between the separators, at most `limit` of them: the last
/// piece then holds all that is left.
pub open spec fn pieces(s: Seq<char>, separator: char, limit: nat) -> Seq<Seq<char>>
    decreases limit,
{
    let at = first_of(s, separator) as int;
    if limit <= 1 || at == s.len() {
        seq![s]
    } else {
        seq![s.take(at)] + pieces(s.skip(at + 1), separator, (limit - 1) as nat)
    }
}

/// What [`first_of`] finds: the separator stands there and nowhere before.
pub proof fn lemma_first_of(s: Seq<char>, c: char)
    ensures
        first_of(s, c) <= s.len(),
        forall|i: int| 0 <= i < first_of(s, c) ==> #[trigger] s[i] != c,
        first_of(s, c) < s.len() ==> s[first_of(s, c) as int] == c,
    decreases s.len(),
{
    if s.len() != 0 && s[0] != c {
        lemma_first_of(s.skip(1), c);
        assert forall|i: int| 0 <= i < first_of(s, c) implies #[trigger] s[i] != c by {
            if i > 0 {
                assert(s.skip(1)[i - 1] == s[i]);
            }
        }
    }
}

/// A place before which there is no separator, and that ends the text or holds
/// one, is where [`first_of`] points to.
pub proof fn lemma_first_of_is(s: Seq<char>, c: char, n: int)
    requires
        0 <= n <= s.len(),
        forall|i: int| 0 <= i < n ==> #[trigger] s[i] != c,
        n == s.len() || s[n] == c,
    ensures
        first_of(s, c) == n,
{
    lemma_first_of(s, c);
    let at = first_of(s, c) as int;
    if at < n {
        assert(s[at] != c);
    }
    if n < at {
        assert(s[n] != c);
    }
}

/// What stands before the first separator is the first piece.
pub proof fn lemma_first_piece(a: Seq<char>, rest: Seq<char>, separator: char, limit: nat)
    requires
        limit >= 2,
        forall|i: int| 0 <= i < a.len() ==> #[trigger] a[i] != separator,
    ensures
        pieces(a + seq![separator] + rest, separator, limit) == seq![a] + pieces(
            rest,
            separator,
            (limit - 1) as nat,
        ),
{
    let s = a + seq![separator] + rest;
    lemma_first_of_is(s, separator, a.len() as int);
    assert(s.take(a.len() as int) == a);
    assert(s.skip(a.len() as int + 1) == rest);
}

/// A text without a separator is its own only piece.
pub proof fn lemma_only_piece(s: Seq<char>, separator: char, limit: nat)
    requires
        forall|i: int| 0 <= i < s.len() ==> #[trigger] s[i] != separator,
    ensures
        pieces(s, separator, limit) == seq![s],
{
    lemma_first_of_is(s, separator, s.len() as int);
}

/// Where `c` first occurs at or after `from`, or the length.
fn find_from(chars: &Vec<char>, c: char, from: usize) -> (at: usize)
    requires
        from <= chars@.len(),
    ensures
        from <= at <= chars@.len(),
        at == from + first_of(chars@.skip(from as int), c),
{
    let mut i: usize = from;
    while i < chars.len() && chars[i] != c
        invariant
            from <= i <= chars@.len(),
            forall|k: int| from <= k < i ==> chars@[k] != c,
        decreases chars@.len() - i,
    {
        i = i + 1;
    }
    proof {
        lemma_first_of_is(chars@.skip(from as int), c, i - from);
    }
    i
}

/// Splits a text at a separator into at most `limit` pieces.
pub fn split_pieces(text: &str, separator: char, limit: usize) -> (parts: Vec<String>)
    requires
        limit >= 1,
    ensures
        text::texts(parts@) == pieces(text@, separator, limit as nat),
{
    let chars = chars_of(text);
    let mut parts: Vec<String> = Vec::new();
    let mut start: usize = 0;
    let mut left: usize = limit;
    let mut end: usize = find_from(&chars, separator, 0);
    assert(text::texts(parts@) + pieces(text@.skip(0), separator, limit as nat) == pieces(
        text@,
        separator,
        limit as nat,
    )) by {
        assert(text@.skip(0) == text@);
        assert(text::texts(parts@) == Seq::<Seq<char>>::empty());
    }
    while left > 1 && end < chars.len()
        invariant
            1 <= left <= limit,
            start <= end <= chars@.len(),
            chars@ == text@,
            end == start + first_of(text@.skip(start as int), separator),
            text::texts(parts@) + pieces(text@.skip(start as int), separator, left as nat) == pieces(
                text@,
                separator,
                limit as nat,
            ),
        decreases left,
    {
        let part = text_between(&chars, start, end);
        let ghost before = parts@;
        let ghost rest = text@.skip(start as int);
        parts.push(part);
        proof {
            assert(text::texts(parts@) == text::texts(before).push(part@));
            assert(part@ == rest.take(end - start));
            assert(rest.skip(end - start + 1) == text@.skip(end + 1));
            let tail = pieces(text@.skip(end + 1), separator, (left - 1) as nat);
            assert(pieces(rest, separator, left as nat) == seq![part@] + tail);
            assert(text::texts(before) + (seq![part@] + tail) == text::texts(parts@) + tail);
        }
        start = end + 1;
        left = left - 1;
        end = find_from(&chars, separator, start);
    }
    let part = text_between(&chars, start, chars.len());
    let ghost before = parts@;
    parts.push(part);
    proof {
        assert(text::texts(parts@) == text::texts(before).push(part@));
        assert(part@ == text@.skip(start as int));
        assert(pieces(text@.skip(start as int), separator, left as nat) == seq![part@]);
        assert(text::texts(before) + seq![part@] == text::texts(parts@));
    }
    parts
}

// ---------------------------------------------------------------------------
// Whitespace
// ---------------------------------------------------------------------------

/// Whether a character is whitespace: it has the Unicode property `White_Space`.
pub open spec fn is_space(c: char) -> bool {
    ||| '\u{9}' <= c <= '\u{d}'
    ||| c == '\u{20}'
    ||| c == '\u{85}'
    ||| c == '\u{a0}'
    ||| c == '\u{1680}'
    ||| '\u{2000}' <= c <= '\u{200a}'
    ||| c == '\u{2028}'
    ||| c == '\u{2029}'
    ||| c == '\u{202f}'
    ||| c == '\u{205f}'
    ||| c == '\u{3000}'
}

/// Whether a character is whitespace.
pub fn is_whitespace(c: char) -> (space: bool)
    ensures
        space == is_space(c),
{
    ('\u{9}' <= c && c <= '\u{d}') || c == '\u{20}' || c == '\u{85}' || c == '\u{a0}' || c
        == '\u{1680}' || ('\u{2000}' <= c && c <= '\u{200a}') || c == '\u{2028}' || c == '\u{2029}'
        || c == '\u{202f}' || c == '\u{205f}' || c == '\u{3000}'
}

/// How many characters `s` has before its first whitespace.
pub open spec fn word_length(s: Seq<char>) -> nat
    decreases s.len(),
{
    if s.len() == 0 || is_space(s[0]) {
        0
    } else {
        1 + word_length(s.skip(1))
    }
}

/// The words of `s`: its longest stretches without whitespace, in order.
pub open spec fn words(s: Seq<char>) -> Seq<Seq<char>>
    decreases s.len(),
{
    if s.len() == 0 {
        Seq::empty()
    } else if is_space(s[0]) {
        words(s.skip(1))
    } else {
        let n = word_length(s) as int;
        proof {
            lemma_word_length(s);
        }
        seq![s.take(n)] + words(s.skip(n))
    }
}

/// What [`word_length`] finds: no whitespace before it, and whitespace or the
/// end after it.
pub proof fn lemma_word_length(s: Seq<char>)
    ensures
        word_length(s) <= s.len(),
        forall|i: int| 0 <= i < word_length(s) ==> !is_space(#[trigger] s[i]),
        word_length(s) < s.len() ==> is_space(s[word_length(s) as int]),
    decreases s.len(),
{
    if s.len() != 0 && !is_space(s[0]) {
        lemma_word_length(s.skip(1));
        assert forall|i: int| 0 <= i < word_length(s) implies !is_space(#[trigger] s[i]) by {
            if i > 0 {
                assert(s.skip(1)[i - 1] == s[i]);
            }
        }
    }
}

proof fn lemma_word_length_is(s: Seq<char>, n: int)
    requires
        0 <= n <= s.len(),
        forall|i: int| 0 <= i < n ==> !is_space(#[trigger] s[i]),
        n == s.len() || is_space(s[n]),
    ensures
        word_length(s) == n,
{
    lemma_word_length(s);
    let at = word_length(s) as int;
    if at < n {
        assert(!is_space(s[at]));
    }
    if n < at {
        assert(!is_space(s[n]));
    }
}

/// A word is not empty and holds no whitespace.
pub proof fn lemma_words(s: Seq<char>)
    ensures
        forall|i: int| 0 <= i < words(s).len() ==> (#[trigger] words(s)[i]).len() > 0,
        forall|i: int, k: int|
            0 <= i < words(s).len() && 0 <= k < words(s)[i].len() ==> !is_space(
                #[trigger] words(s)[i][k],
            ),
    decreases s.len(),
{
    if s.len() > 0 {
        if is_space(s[0]) {
            lemma_words(s.skip(1));
            assert(words(s) == words(s.skip(1)));
        } else {
            let n = word_length(s) as int;
            lemma_word_length(s);
            let rest = words(s.skip(n));
            lemma_words(s.skip(n));
            assert(words(s) == seq![s.take(n)] + rest);
            assert forall|i: int| 0 <= i < words(s).len() implies (#[trigger] words(s)[i]).len()
                > 0 by {
                if i > 0 {
                    assert(words(s)[i] == rest[i - 1]);
                }
            }
            assert forall|i: int, k: int|
                0 <= i < words(s).len() && 0 <= k < words(s)[i].len() implies !is_space(
                #[trigger] words(s)[i][k],
            ) by {
                if i > 0 {
                    assert(words(s)[i] == rest[i - 1]);
                    assert(!is_space(rest[i - 1][k]));
                } else {
                    assert(words(s)[0][k] == s[k]);
                }
            }
        }
    }
}

/// Splits a text into its words.
pub fn split_words(text: &str) -> (list: Vec<String>)
    ensures
        text::texts(list@) == words(text@),
{
    let chars = chars_of(text);
    let mut list: Vec<String> = Vec::new();
    let mut i: usize = 0;
    assert(text@.skip(0) == text@);
    assert(text::texts(list@) + words(text@) == words(text@));
    while i < chars.len()
        invariant
            i <= chars@.len(),
            chars@ == text@,
            text::texts(list@) + words(text@.skip(i as int)) == words(text@),
        decreases chars@.len() - i,
    {
        let ghost rest = text@.skip(i as int);
        if is_whitespace(chars[i]) {
            assert(rest.skip(1) == text@.skip(i + 1));
            i = i + 1;
        } else {
            let start: usize = i;
            i = i + 1;
            while i < chars.len() && !is_whitespace(chars[i])
                invariant
                    start < i <= chars@.len(),
                    forall|k: int| start <= k < i ==> !is_space(chars@[k]),
                decreases chars@.len() - i,
            {
                i = i + 1;
            }
            let word = text_between(&chars, start, i);
            let ghost before = list@;
            list.push(word);
            proof {
                lemma_word_length_is(rest, i - start);
                assert(text::texts(list@) == text::texts(before).push(word@));
                assert(word@ == rest.take(i - start));
                assert(rest.skip(i - start) == text@.skip(i as int));
                let tail = words(text@.skip(i as int));
                assert(words(rest) == seq![word@] + tail);
                assert(text::texts(before) + (seq![word@] + tail) == text::texts(list@) + tail);
            }
        }
    }
    assert(text@.skip(i as int) == Seq::<char>::empty());
    assert(text::texts(list@) + Seq::<Seq<char>>::empty() == text::texts(list@));
    list
}

/// Whether a text holds whitespace.
pub(crate) fn has_whitespace(text: &str) -> (found: bool)
    ensures
        found == exists|i: int| 0 <= i < text@.len() && is_space(#[trigger] text@[i]),
{
    let chars = chars_of(text);
    let mut i: usize = 0;
    while i < chars.len()
        invariant
            i <= chars@.len(),
            chars@ == text@,
            forall|k: int| 0 <= k < i ==> !is_space(#[trigger] text@[k]),
        decreases chars@.len() - i,
    {
        if is_whitespace(chars[i]) {
            assert(is_space(text@[i as int]));
            return true;
        }
        i = i + 1;
    }
    false
}

// ---------------------------------------------------------------------------
// Line ends
// ---------------------------------------------------------------------------

/// Whether a character ends a line.
pub open spec fn is_line_end(c: char) -> bool {
    c == '\r' || c == '\n'
}

/// `s` without the line ends that follow it.
pub open spec fn without_line_end(s: Seq<char>) -> Seq<char>
    decreases s.len(),
{
    if s.len() > 0 && is_line_end(s.last()) {
        without_line_end(s.drop_last())
    } else {
        s
    }
}

/// A text without the line ends that follow it.
pub fn trim_line_end(text: &str) -> (line: String)
    ensures
        line@ == without_line_end(text@),
{
    let chars = chars_of(text);
    let mut end: usize = chars.len();
    assert(text@.take(end as int) == text@);
    while end > 0 && (chars[end - 1] == '\r' || chars[end - 1] == '\n')
        invariant
            end <= chars@.len(),
            chars@ == text@,
            without_line_end(text@.take(end as int)) == without_line_end(text@),
        decreases end,
    {
        assert(text@.take(end as int).drop_last() == text@.take(end - 1));
        end = end - 1;
    }
    text_between(&chars, 0, end)
}

/// Whether a text holds a line end.
pub(crate) fn has_line_end(text: &str) -> (found: bool)
    ensures
        found == exists|i: int| 0 <= i < text@.len() && is_line_end(#[trigger] text@[i]),
{
    let chars = chars_of(text);
    let mut i: usize = 0;
    while i < chars.len()
        invariant
            i <= chars@.len(),
            chars@ == text@,
            forall|k: int| 0 <= k < i ==> !is_line_end(#[trigger] text@[k]),
        decreases chars@.len() - i,
    {
        if chars[i] == '\r' || chars[i] == '\n' {
            assert(is_line_end(text@[i as int]));
            return true;
        }
        i = i + 1;
    }
    false
}

// ---------------------------------------------------------------------------
// What taking apart keeps
// ---------------------------------------------------------------------------

/// A text begins with another exactly where the other one and a rest make it up.
pub proof fn lemma_begins_with(s: Seq<char>, prefix: Seq<char>, rest: Seq<char>)
    ensures
        begins_with(prefix + rest, prefix),
        begins_with(s, prefix) ==> s == prefix + s.skip(prefix.len() as int),
{
    assert((prefix + rest).take(prefix.len() as int) == prefix);
    if begins_with(s, prefix) {
        assert(s == s.take(prefix.len() as int) + s.skip(prefix.len() as int));
    }
}

/// Pieces with the separator between them.
pub open spec fn rejoined(parts: Seq<Seq<char>>, separator: char) -> Seq<char>
    decreases parts.len(),
{
    if parts.len() == 0 {
        Seq::empty()
    } else if parts.len() == 1 {
        parts[0]
    } else {
        parts[0] + seq![separator] + rejoined(parts.skip(1), separator)
    }
}

/// The pieces of a text make it up again with the separator between them. There are no
/// more of them than the limit; only the last one may hold the separator, and does so
/// only where the limit is reached.
pub proof fn lemma_pieces(s: Seq<char>, separator: char, limit: nat)
    requires
        limit >= 1,
    ensures
        1 <= pieces(s, separator, limit).len() <= limit,
        rejoined(pieces(s, separator, limit), separator) == s,
        forall|i: int, k: int|
            0 <= i < pieces(s, separator, limit).len() - 1 && 0 <= k < pieces(
                s,
                separator,
                limit,
            )[i].len() ==> #[trigger] pieces(s, separator, limit)[i][k] != separator,
        pieces(s, separator, limit).len() < limit ==> forall|k: int|
            0 <= k < pieces(s, separator, limit).last().len() ==> #[trigger] pieces(
                s,
                separator,
                limit,
            ).last()[k] != separator,
    decreases limit,
{
    let parts = pieces(s, separator, limit);
    let at = first_of(s, separator) as int;
    lemma_first_of(s, separator);
    if limit > 1 && at < s.len() {
        let rest = pieces(s.skip(at + 1), separator, (limit - 1) as nat);
        lemma_pieces(s.skip(at + 1), separator, (limit - 1) as nat);
        assert(parts == seq![s.take(at)] + rest);
        assert(parts.skip(1) == rest);
        assert(s == s.take(at) + seq![separator] + s.skip(at + 1));
        assert(parts.last() == rest.last());
        assert forall|i: int, k: int|
            0 <= i < parts.len() - 1 && 0 <= k < parts[i].len() implies #[trigger] parts[i][k]
            != separator by {
            if i > 0 {
                assert(parts[i] == rest[i - 1]);
                assert(rest[i - 1][k] != separator);
            } else {
                assert(parts[0][k] == s[k]);
            }
        }
    } else {
        assert(parts == seq![s]);
    }
}

/// Whitespace ends a word: what stands before it and what stands after it are taken
/// apart on their own.
pub proof fn lemma_words_around_space(a: Seq<char>, space: char, b: Seq<char>)
    requires
        is_space(space),
    ensures
        words(a + seq![space] + b) == words(a) + words(b),
    decreases a.len(),
{
    let s = a + seq![space] + b;
    if a.len() == 0 {
        assert(s.skip(1) == b);
        assert(words(a) + words(b) == words(b));
    } else if is_space(a[0]) {
        assert(s.skip(1) == a.skip(1) + seq![space] + b);
        lemma_words_around_space(a.skip(1), space, b);
    } else {
        let n = word_length(a) as int;
        lemma_word_length(a);
        assert forall|i: int| 0 <= i < n implies !is_space(#[trigger] s[i]) by {
            assert(!is_space(a[i]));
        }
        lemma_word_length_is(s, n);
        assert(s.take(n) == a.take(n));
        assert(s.skip(n) == a.skip(n) + seq![space] + b);
        lemma_words_around_space(a.skip(n), space, b);
        assert(words(s) == seq![a.take(n)] + words(s.skip(n)));
        assert(words(a) == seq![a.take(n)] + words(a.skip(n)));
        assert(words(s) == words(a) + words(b));
    }
}

/// A text without whitespace is one word, and an empty one is none.
pub proof fn lemma_single_word(s: Seq<char>)
    requires
        forall|i: int| 0 <= i < s.len() ==> !is_space(#[trigger] s[i]),
    ensures
        s.len() > 0 ==> words(s) == seq![s],
        s.len() == 0 ==> words(s).len() == 0,
{
    if s.len() > 0 {
        lemma_word_length_is(s, s.len() as int);
        assert(!is_space(s[0]));
        assert(s.take(s.len() as int) == s);
        assert(words(s.skip(s.len() as int)) == Seq::<Seq<char>>::empty());
        assert(words(s) == seq![s] + words(s.skip(s.len() as int)));
    }
}

/// Whether a text is a word: it is not empty and holds no whitespace.
pub open spec fn is_word(s: Seq<char>) -> bool {
    s.len() > 0 && forall|i: int| 0 <= i < s.len() ==> !is_space(#[trigger] s[i])
}

/// Words are read back from the text that they make up with a space between each.
pub proof fn lemma_words_are_read_back(list: Seq<Seq<char>>)
    requires
        forall|i: int| 0 <= i < list.len() ==> is_word(#[trigger] list[i]),
    ensures
        words(rejoined(list, ' ')) == list,
    decreases list.len(),
{
    if list.len() > 0 {
        assert(is_word(list[0]));
        lemma_single_word(list[0]);
        if list.len() > 1 {
            let rest = list.skip(1);
            assert forall|i: int| 0 <= i < rest.len() implies is_word(#[trigger] rest[i]) by {
                assert(is_word(list[i + 1]));
            }
            lemma_words_are_read_back(rest);
            lemma_words_around_space(list[0], ' ', rejoined(rest, ' '));
            assert(seq![list[0]] + rest == list);
        } else {
            assert(seq![list[0]] == list);
        }
    } else {
        assert(list == Seq::<Seq<char>>::empty());
    }
}

/// Only line ends are taken from the end of a line, and all of them.
pub proof fn lemma_without_line_end(s: Seq<char>)
    ensures
        without_line_end(s).len() <= s.len(),
        without_line_end(s) == s.take(without_line_end(s).len() as int),
        forall|i: int|
            without_line_end(s).len() <= i < s.len() ==> #[trigger] s[i] == '\r' || s[i] == '\n',
        without_line_end(s).len() > 0 ==> without_line_end(s).last() != '\r'
            && without_line_end(s).last() != '\n',
    decreases s.len(),
{
    if s.len() > 0 && is_line_end(s.last()) {
        let shorter = s.drop_last();
        lemma_without_line_end(shorter);
        let n = without_line_end(s).len() as int;
        assert(shorter.take(n) == s.take(n));
        assert forall|i: int| n <= i < s.len() implies #[trigger] s[i] == '\r' || s[i]
            == '\n' by {
            if i < shorter.len() {
                assert(shorter[i] == s[i]);
            }
        }
    } else {
        assert(s.take(s.len() as int) == s);
    }
}

} // verus!
