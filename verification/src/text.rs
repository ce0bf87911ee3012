//! Cutting texts apart: prefixes, suffixes and the pieces between separators.
use vstd::prelude::*;
use vstd::string::*;
use crate::scalar::Scalar;

verus! {

/// What separates the pieces of a list written as text.
#[derive(Clone, Copy, PartialEq, Eq, Structural)]
pub enum Separator {
    /// A single comma.
    Comma,
    /// A single space or a single comma.
    SpaceOrComma,
    /// Any white space character.
    Whitespace,
}

/// Whether `c` is a white space character (the Unicode property `White_Space`).
pub open spec fn is_whitespace(c: char) -> bool {
    ||| c == ' '
    ||| '\u{9}' <= c <= '\u{d}'
    ||| c == '\u{85}'
    ||| c == '\u{a0}'
    ||| c == '\u{1680}'
    ||| '\u{2000}' <= c <= '\u{200a}'
    ||| c == '\u{2028}'
    ||| c == '\u{2029}'
    ||| c == '\u{202f}'
    ||| c == '\u{205f}'
    ||| c == '\u{3000}'
}

/// Whether `c` separates two pieces.
pub open spec fn separates(separator: Separator, c: char) -> bool {
    match separator {
        Separator::Comma => c == ',',
        Separator::SpaceOrComma => c == ' ' || c == ',',
        Separator::Whitespace => is_whitespace(c),
    }
}

/// Whether `text` begins with `prefix`.
pub open spec fn begins_with(text: Seq<char>, prefix: Seq<char>) -> bool {
    prefix.len() <= text.len() && text.take(prefix.len() as int) == prefix
}

/// Whether `text` ends with `suffix`.
pub open spec fn ends_with(text: Seq<char>, suffix: Seq<char>) -> bool {
    suffix.len() <= text.len() && text.skip(text.len() - suffix.len()) == suffix
}

/// `text` with every leading repetition of `prefix` taken off.
pub open spec fn without_leading(text: Seq<char>, prefix: Seq<char>) -> Seq<char>
    decreases text.len(),
{
    if prefix.len() > 0 && begins_with(text, prefix) {
        without_leading(text.skip(prefix.len() as int), prefix)
    } else {
        text
    }
}

/// `text` with every trailing repetition of `suffix` taken off.
pub open spec fn without_trailing(text: Seq<char>, suffix: Seq<char>) -> Seq<char>
    decreases text.len(),
{
    if suffix.len() > 0 && ends_with(text, suffix) {
        without_trailing(text.take(text.len() - suffix.len()), suffix)
    } else {
        text
    }
}

/// The pieces of `text` between its separators, in order. A text with `n`
/// separators has `n + 1` pieces, and a piece may be empty.
pub open spec fn pieces(text: Seq<char>, separator: Separator) -> Seq<Seq<char>>
    decreases text.len(),
{
    if text.len() == 0 {
        seq![Seq::<char>::empty()]
    } else {
        let before = pieces(text.drop_last(), separator);
        if separates(separator, text.last()) {
            before.push(Seq::<char>::empty())
        } else {
            before.drop_last().push(before.last().push(text.last()))
        }
    }
}

/// The pieces that are not empty, in order.
pub open spec fn filled(all: Seq<Seq<char>>) -> Seq<Seq<char>>
    decreases all.len(),
{
    if all.len() == 0 {
        all
    } else if all.last().len() == 0 {
        filled(all.drop_last())
    } else {
        filled(all.drop_last()).push(all.last())
    }
}

/// The words of `text`: what stands between runs of white space.
pub open spec fn words(text: Seq<char>) -> Seq<Seq<char>> {
    filled(pieces(text, Separator::Whitespace))
}

/// The part of a text from one character position up to another.
#[derive(Clone, Copy)]
pub struct Span {
    pub from: usize,
    pub to: usize,
}

impl Span {
    /// Whether the span lies within a text of `len` characters.
    pub open spec fn within(self, len: nat) -> bool {
        self.from <= self.to <= len
    }

    /// The characters of `text` that the span covers.
    pub open spec fn of(self, text: Seq<char>) -> Seq<char> {
        text.subrange(self.from as int, self.to as int)
    }
}

/// The texts that a list of spans covers.
pub open spec fn covered(spans: Seq<Span>, text: Seq<char>) -> Seq<Seq<char>> {
    Seq::new(spans.len(), |i: int| spans[i].of(text))
}

/// Whether every span lies within a text of `len` characters.
pub open spec fn all_within(spans: Seq<Span>, len: nat) -> bool {
    forall|i: int| 0 <= i < spans.len() ==> (#[trigger] spans[i]).within(len)
}

/// The characters of a text.
pub fn chars_of(text: &str) -> (r: Vec<char>)
    ensures
        r@ == text@,
{
    let n = text.unicode_len();
    let plain = text.is_ascii();
    let mut chars: Vec<char> = Vec::new();
    let mut i: usize = 0;
    while i < n
        invariant
            n == text@.len(),
            plain == text.is_ascii(),
            i <= n,
            chars@ == text@.take(i as int),
        decreases n - i,
    {
        let c = if plain {
            text.get_ascii(i) as char
        } else {
            text.get_char(i)
        };
        assert(c == text@[i as int]);
        chars.push(c);
        i += 1;
    }
    chars
}

/// The part of a text that a span covers. `plain` says whether the text
/// holds nothing but ASCII characters, where the part is found at once.
pub fn part<'a>(text: &'a str, span: Span, plain: bool) -> (r: &'a str)
    requires
        span.within(text@.len()),
        plain == text.is_ascii(),
    ensures
        r@ == span.of(text@),
{
    if plain {
        text.substring_ascii(span.from, span.to)
    } else {
        text.substring_char(span.from, span.to)
    }
}

/// Whether two texts are the same.
pub fn same_text(a: &str, b: &str) -> (r: bool)
    ensures
        r == (a@ == b@),
{
    let n = a.unicode_len();
    if n != b.unicode_len() {
        return false;
    }
    let plain = a.is_ascii() && b.is_ascii();
    let mut i: usize = 0;
    while i < n
        invariant
            n == a@.len(),
            n == b@.len(),
            plain ==> a.is_ascii() && b.is_ascii(),
            i <= n,
            a@.take(i as int) == b@.take(i as int),
        decreases n - i,
    {
        let same = if plain {
            a.get_ascii(i) == b.get_ascii(i)
        } else {
            a.get_char(i) == b.get_char(i)
        };
        if !same {
            assert(a@[i as int] != b@[i as int]);
            return false;
        }
        assert(a@.take(i + 1) == a@.take(i as int).push(a@[i as int]));
        assert(b@.take(i + 1) == b@.take(i as int).push(b@[i as int]));
        i += 1;
    }
    assert(a@.take(i as int) == a@);
    assert(b@.take(i as int) == b@);
    true
}

/// Tests whether a character is white space.
pub fn white(c: char) -> (r: bool)
    ensures
        r == is_whitespace(c),
{
    c == ' ' || ('\u{9}' <= c && c <= '\u{d}') || c == '\u{85}' || c == '\u{a0}' || c
        == '\u{1680}' || ('\u{2000}' <= c && c <= '\u{200a}') || c == '\u{2028}' || c
        == '\u{2029}' || c == '\u{202f}' || c == '\u{205f}' || c == '\u{3000}'
}

/// Tests whether a character separates two pieces.
pub fn is_separator(separator: Separator, c: char) -> (r: bool)
    ensures
        r == separates(separator, c),
{
    match separator {
        Separator::Comma => c == ',',
        Separator::SpaceOrComma => c == ' ' || c == ',',
        Separator::Whitespace => white(c),
    }
}

/// Tests whether `pattern` stands in `text` at position `at`.
pub fn stands_at(text: &Vec<char>, at: usize, pattern: &Vec<char>) -> (r: bool)
    requires
        at <= text.len(),
    ensures
        r == begins_with(text@.skip(at as int), pattern@),
{
    if pattern.len() > text.len() - at {
        return false;
    }
    let mut i: usize = 0;
    while i < pattern.len()
        invariant
            at <= text.len(),
            pattern.len() <= text.len() - at,
            i <= pattern.len(),
            text@.skip(at as int).take(i as int) == pattern@.take(i as int),
        decreases pattern.len() - i,
    {
        if text[at + i] != pattern[i] {
            assert(text@.skip(at as int).take(pattern.len() as int)[i as int] != pattern@[i as int]);
            return false;
        }
        assert(text@.skip(at as int).take(i + 1) == text@.skip(at as int).take(i as int).push(
            text@[at + i],
        ));
        assert(pattern@.take(i + 1) == pattern@.take(i as int).push(pattern@[i as int]));
        i += 1;
    }
    assert(pattern@.take(i as int) == pattern@);
    true
}

/// Finds what is left of `text` once every leading repetition of `prefix`
/// and then every trailing repetition of `suffix` is taken off.
pub fn trimmed(text: &Vec<char>, prefix: &Vec<char>, suffix: &Vec<char>) -> (r: Span)
    ensures
        r.within(text@.len()),
        r.of(text@) == without_trailing(without_leading(text@, prefix@), suffix@),
{
    let mut from: usize = 0;
    assert(text@.skip(0) == text@);
    if prefix.len() > 0 {
        while stands_at(text, from, prefix)
            invariant
                from <= text.len(),
                prefix.len() > 0,
                without_leading(text@.skip(from as int), prefix@) == without_leading(
                    text@,
                    prefix@,
                ),
            decreases text.len() - from,
        {
            assert(text@.skip(from as int).skip(prefix.len() as int) == text@.skip(
                from + prefix.len(),
            ));
            from += prefix.len();
        }
    }
    let ghost head = text@.skip(from as int);
    assert(without_leading(text@, prefix@) == head);
    let mut to: usize = text.len();
    if suffix.len() > 0 {
        while to - from >= suffix.len() && stands_at(text, to - suffix.len(), suffix)
            invariant
                from <= to <= text.len(),
                suffix.len() > 0,
                head == text@.skip(from as int),
                without_trailing(text@.subrange(from as int, to as int), suffix@)
                    == without_trailing(head, suffix@),
            decreases to - from,
        {
            let ghost part = text@.subrange(from as int, to as int);
            assert(part.skip(part.len() - suffix.len()) == text@.skip(to - suffix.len()).take(
                suffix.len() as int,
            ));
            assert(part.take(part.len() - suffix.len()) == text@.subrange(
                from as int,
                to - suffix.len(),
            ));
            to -= suffix.len();
        }
        proof {
            let part = text@.subrange(from as int, to as int);
            if to - from >= suffix.len() {
                assert(part.skip(part.len() - suffix.len()) == text@.skip(to - suffix.len()).take(
                    suffix.len() as int,
                ));
            }
            assert(!ends_with(part, suffix@));
        }
    } else {
        assert(text@.subrange(from as int, to as int) == head);
    }
    Span { from, to }
}

/// Cuts the part of `text` that `span` covers into its pieces.
pub fn split(text: &Vec<char>, span: Span, separator: Separator) -> (r: Vec<Span>)
    requires
        span.within(text@.len()),
    ensures
        all_within(r@, text@.len()),
        covered(r@, text@) == pieces(span.of(text@), separator),
{
    let mut done: Vec<Span> = Vec::new();
    let mut start: usize = span.from;
    let mut i: usize = span.from;
    proof {
        assert(text@.subrange(span.from as int, span.from as int) == Seq::<char>::empty());
        assert(covered(done@, text@) == Seq::<Seq<char>>::empty());
        assert(Seq::<Seq<char>>::empty().push(Seq::<char>::empty()) == seq![Seq::<char>::empty()]);
    }
    while i < span.to
        invariant
            span.within(text@.len()),
            span.from <= start <= i <= span.to,
            all_within(done@, text@.len()),
            covered(done@, text@).push(text@.subrange(start as int, i as int)) == pieces(
                text@.subrange(span.from as int, i as int),
                separator,
            ),
        decreases span.to - i,
    {
        let ghost so_far = text@.subrange(span.from as int, i as int);
        let ghost next = text@.subrange(span.from as int, i + 1);
        assert(next.drop_last() == so_far);
        assert(next.last() == text@[i as int]);
        if is_separator(separator, text[i]) {
            let ghost before = covered(done@, text@);
            done.push(Span { from: start, to: i });
            start = i + 1;
            assert(covered(done@, text@) == before.push(text@.subrange(done@.last().from as int, i as int)));
            assert(text@.subrange(start as int, i + 1) == Seq::<char>::empty());
        } else {
            assert(text@.subrange(start as int, i + 1) == text@.subrange(start as int, i as int).push(
                text@[i as int],
            ));
            let ghost before = pieces(so_far, separator);
            assert(before.drop_last() == covered(done@, text@));
        }
        i += 1;
    }
    let ghost before = covered(done@, text@);
    done.push(Span { from: start, to: i });
    assert(covered(done@, text@) == before.push(text@.subrange(start as int, i as int)));
    done
}

/// Keeps the spans that cover at least one character.
pub fn keep_filled(text: &Vec<char>, spans: &Vec<Span>) -> (r: Vec<Span>)
    requires
        all_within(spans@, text@.len()),
    ensures
        all_within(r@, text@.len()),
        covered(r@, text@) == filled(covered(spans@, text@)),
{
    let mut kept: Vec<Span> = Vec::new();
    let mut i: usize = 0;
    while i < spans.len()
        invariant
            i <= spans.len(),
            all_within(spans@, text@.len()),
            all_within(kept@, text@.len()),
            covered(kept@, text@) == filled(covered(spans@.take(i as int), text@)),
        decreases spans.len() - i,
    {
        let ghost next = covered(spans@.take(i + 1), text@);
        assert(next.drop_last() == covered(spans@.take(i as int), text@));
        assert(next.last() == spans@[i as int].of(text@));
        let span = spans[i];
        assert(span.within(text@.len()));
        if span.to > span.from {
            let ghost before = covered(kept@, text@);
            kept.push(span);
            assert(covered(kept@, text@) == before.push(span.of(text@)));
        }
        i += 1;
    }
    assert(spans@.take(i as int) == spans@);
    kept
}

/// The numbers that a list of texts denotes, if each denotes one.
pub open spec fn numbers<T: Scalar>(texts: Seq<Seq<char>>) -> Option<Seq<T>>
    decreases texts.len(),
{
    if texts.len() == 0 {
        Some(Seq::empty())
    } else {
        match (numbers::<T>(texts.drop_last()), T::parse_spec(texts.last())) {
            (Some(before), Some(number)) => Some(before.push(number)),
            _ => None,
        }
    }
}

/// Where the first `n` texts do not all denote numbers, the whole list does
/// not.
proof fn lemma_numbers_fail<T: Scalar>(texts: Seq<Seq<char>>, n: int)
    requires
        0 <= n <= texts.len(),
        numbers::<T>(texts.take(n)) is None,
    ensures
        numbers::<T>(texts) is None,
    decreases texts.len() - n,
{
    if n < texts.len() {
        assert(texts.take(n + 1).drop_last() == texts.take(n));
        lemma_numbers_fail::<T>(texts, n + 1);
    } else {
        assert(texts.take(n) == texts);
    }
}

/// Reads the parts of `text` that `spans` cover as numbers, one after the
/// other, and gives up at the first part that is none.
pub fn read_numbers<T: Scalar>(text: &str, spans: &Vec<Span>) -> (r: Option<Vec<T>>)
    requires
        all_within(spans@, text@.len()),
    ensures
        match r {
            Some(data) => numbers::<T>(covered(spans@, text@)) == Some(data@),
            None => numbers::<T>(covered(spans@, text@)) is None,
        },
{
    let plain = text.is_ascii();
    let mut data: Vec<T> = Vec::new();
    let mut i: usize = 0;
    while i < spans.len()
        invariant
            i <= spans.len(),
            plain == text.is_ascii(),
            all_within(spans@, text@.len()),
            numbers::<T>(covered(spans@, text@).take(i as int)) == Some(data@),
        decreases spans.len() - i,
    {
        let span = spans[i];
        assert(span.within(text@.len()));
        let piece = part(text, span, plain);
        let ghost now = covered(spans@, text@).take(i + 1);
        assert(now.drop_last() == covered(spans@, text@).take(i as int));
        assert(now.last() == piece@);
        match T::parse(piece) {
            Some(number) => {
                data.push(number);
            },
            None => {
                proof {
                    assert(numbers::<T>(now) is None);
                    lemma_numbers_fail::<T>(covered(spans@, text@), i + 1);
                }
                return None;
            },
        }
        i += 1;
    }
    assert(covered(spans@, text@).take(i as int) == covered(spans@, text@));
    Some(data)
}

} // verus!
