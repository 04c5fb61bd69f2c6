//! Character-level building blocks of the configuration grammar: splitting a
//! line at delimiters and reading unsigned numbers.
//!
//! Every function works on a buffer of characters and a half-open range of
//! positions in it, so nothing is copied while a line is taken apart.

use vstd::prelude::*;

verus! {

/// What separates two fields of a line.
#[derive(Debug, Clone, Copy)]
pub enum Delimiter {
    /// One ASCII whitespace character: space, tab, line feed, form feed or
    /// carriage return.
    Whitespace,
    /// One given character.
    Char(char),
}

/// Whether `c` is ASCII whitespace.
pub open spec fn is_ascii_space(c: char) -> bool {
    c == ' ' || c == '\t' || c == '\n' || c == '\x0C' || c == '\r'
}

impl Delimiter {
    /// Whether `c` is a delimiter of this kind.
    pub open spec fn matches(self, c: char) -> bool {
        match self {
            Delimiter::Whitespace => is_ascii_space(c),
            Delimiter::Char(d) => c == d,
        }
    }

    /// Decides `matches`.
    pub fn is_match(&self, c: char) -> (r: bool)
        ensures
            r == self.matches(c),
    {
        match self {
            Delimiter::Whitespace => c == ' ' || c == '\t' || c == '\n' || c == '\x0C' || c == '\r',
            Delimiter::Char(d) => c == *d,
        }
    }
}

/// The fields of `s`: the pieces between consecutive delimiters, in order.
/// `n` delimiters give `n + 1` fields, some of which may be empty.
pub open spec fn split(s: Seq<char>, d: Delimiter) -> Seq<Seq<char>>
    decreases s.len(),
{
    if s.len() == 0 {
        seq![Seq::empty()]
    } else {
        let before = split(s.drop_last(), d);
        if d.matches(s.last()) {
            before.push(Seq::empty())
        } else {
            before.update(before.len() - 1, before.last().push(s.last()))
        }
    }
}

/// The words of `s`: its maximal runs of characters that are not ASCII
/// whitespace, in order.
pub open spec fn words(s: Seq<char>) -> Seq<Seq<char>> {
    split(s, Delimiter::Whitespace).filter(is_word())
}

/// What tells a word from the empty fields between adjacent blanks.
pub open spec fn is_word() -> spec_fn(Seq<char>) -> bool {
    |w: Seq<char>| w.len() > 0
}

/// A half-open range of positions in a character buffer.
#[derive(Debug, Clone, Copy, PartialEq, Eq, Structural)]
pub struct Span {
    pub start: usize,
    pub end: usize,
}

impl Span {
    /// The characters of `s` that the span covers.
    pub open spec fn of(self, s: Seq<char>) -> Seq<char> {
        s.subrange(self.start as int, self.end as int)
    }

    /// The span lies inside positions `from..to`.
    pub open spec fn within(self, from: int, to: int) -> bool {
        from <= self.start <= self.end <= to
    }
}

/// `spans` cut exactly the pieces `parts` out of positions `from..to` of `s`.
pub open spec fn spans_cut(
    s: Seq<char>,
    spans: Seq<Span>,
    parts: Seq<Seq<char>>,
    from: int,
    to: int,
) -> bool {
    &&& spans.len() == parts.len()
    &&& forall|k: int|
        0 <= k < spans.len() ==> (#[trigger] spans[k]).within(from, to) && spans[k].of(s)
            == parts[k]
}

/// A split always yields at least one field.
pub proof fn lemma_split_nonempty(s: Seq<char>, d: Delimiter)
    ensures
        split(s, d).len() >= 1,
    decreases s.len(),
{
    if s.len() > 0 {
        lemma_split_nonempty(s.drop_last(), d);
    }
}

/// No field of a split holds a delimiter.
pub proof fn law_fields_hold_no_delimiter(s: Seq<char>, d: Delimiter, k: int, i: int)
    requires
        0 <= k < split(s, d).len(),
        0 <= i < split(s, d)[k].len(),
    ensures
        !d.matches(split(s, d)[k][i]),
    decreases s.len(),
{
    if s.len() > 0 {
        let before = split(s.drop_last(), d);
        lemma_split_nonempty(s.drop_last(), d);
        if k < before.len() - 1 || (d.matches(s.last()) && k < before.len()) || i
            < before.last().len() {
            law_fields_hold_no_delimiter(s.drop_last(), d, k, i);
        }
    }
}

/// The fields of a split and the delimiters between them make up the whole
/// text: nothing is lost and nothing is added.
pub proof fn law_fields_cover_the_text(s: Seq<char>, d: Delimiter)
    ensures
        split(s, d).len() >= 1,
        total_len(split(s, d)) + split(s, d).len() - 1 == s.len(),
    decreases s.len(),
{
    if s.len() == 0 {
        let only = seq![Seq::<char>::empty()];
        assert(only.drop_last() == Seq::<Seq<char>>::empty());
        assert(total_len(only.drop_last()) == 0);
        assert(total_len(only) == 0);
    } else {
        let before = split(s.drop_last(), d);
        law_fields_cover_the_text(s.drop_last(), d);
        if d.matches(s.last()) {
            let grown = before.push(Seq::empty());
            assert(grown.drop_last() == before);
            assert(total_len(grown) == total_len(before));
        } else {
            let last = before.len() - 1;
            let grown = before.update(last, before.last().push(s.last()));
            assert(grown.drop_last() == before.drop_last());
            assert(total_len(grown) == total_len(before) + 1);
        }
    }
}

/// The number of characters in all of `parts` together.
pub open spec fn total_len(parts: Seq<Seq<char>>) -> int
    decreases parts.len(),
{
    if parts.len() == 0 {
        0
    } else {
        total_len(parts.drop_last()) + parts.last().len()
    }
}

/// Every kept part is one of the parts.
proof fn lemma_word_is_a_field(fields: Seq<Seq<char>>, k: int)
    requires
        0 <= k < fields.filter(is_word()).len(),
    ensures
        exists|j: int| 0 <= j < fields.len() && fields[j] == fields.filter(is_word())[k],
    decreases fields.len(),
{
    reveal(Seq::filter);
    if fields.len() > 0 {
        let shorter = fields.drop_last();
        if k < shorter.filter(is_word()).len() {
            lemma_word_is_a_field(shorter, k);
            let j = choose|j: int| 0 <= j < shorter.len() && shorter[j] == shorter.filter(
                is_word(),
            )[k];
            assert(fields[j] == fields.filter(is_word())[k]);
        } else {
            assert(fields[fields.len() - 1] == fields.filter(is_word())[k]);
        }
    }
}

/// A word is not empty and holds no whitespace.
pub proof fn law_words_are_solid(s: Seq<char>, k: int, i: int)
    requires
        0 <= k < words(s).len(),
    ensures
        words(s)[k].len() > 0,
        0 <= i < words(s)[k].len() ==> !is_ascii_space(words(s)[k][i]),
{
    let fields = split(s, Delimiter::Whitespace);
    fields.lemma_filter_pred(is_word(), k);
    lemma_word_is_a_field(fields, k);
    let j = choose|j: int| 0 <= j < fields.len() && fields[j] == words(s)[k];
    if 0 <= i < words(s)[k].len() {
        law_fields_hold_no_delimiter(s, Delimiter::Whitespace, j, i);
    }
}

/// The characters of a string slice, in order.
pub fn chars_of(text: &str) -> (chars: Vec<char>)
    ensures
        chars@ == text@,
{
    let n: usize = text.unicode_len();
    let mut chars: Vec<char> = Vec::new();
    let mut i: usize = 0;
    while i < n
        invariant
            n == text@.len(),
            i <= n,
            chars@ == text@.subrange(0, i as int),
        decreases n - i,
    {
        chars.push(text.get_char(i));
        i += 1;
    }
    chars
}

/// Cuts positions `from..to` of `line` at every delimiter `d`.
pub fn split_spans(line: &Vec<char>, from: usize, to: usize, d: Delimiter) -> (spans: Vec<Span>)
    requires
        from <= to <= line.len(),
    ensures
        spans_cut(line@, spans@, split(line@.subrange(from as int, to as int), d), from as int, to as int),
{
    let mut spans: Vec<Span> = Vec::new();
    let mut start: usize = from;
    let mut i: usize = from;
    while i < to
        invariant
            from <= start <= i <= to <= line.len(),
            split(line@.subrange(from as int, i as int), d).len() == spans.len() + 1,
            split(line@.subrange(from as int, i as int), d).last() == line@.subrange(
                start as int,
                i as int,
            ),
            forall|k: int|
                0 <= k < spans.len() ==> (#[trigger] spans[k]).within(from as int, to as int)
                    && spans[k].of(line@) == split(line@.subrange(from as int, i as int), d)[k],
        decreases to - i,
    {
        proof {
            let next = line@.subrange(from as int, i + 1);
            assert(next.drop_last() == line@.subrange(from as int, i as int));
            assert(next.last() == line@[i as int]);
            assert(line@.subrange(start as int, i as int).push(line@[i as int])
                == line@.subrange(start as int, i + 1));
        }
        if d.is_match(line[i]) {
            spans.push(Span { start, end: i });
            start = i + 1;
        }
        i += 1;
    }
    spans.push(Span { start, end: to });
    spans
}

/// Cuts `line` into its words.
pub fn word_spans(line: &Vec<char>) -> (spans: Vec<Span>)
    ensures
        spans_cut(line@, spans@, words(line@), 0, line.len() as int),
{
    let n: usize = line.len();
    let fields = split_spans(line, 0, n, Delimiter::Whitespace);
    let ghost parts = split(line@, Delimiter::Whitespace);
    let ghost keep = is_word();
    assert(line@.subrange(0, n as int) == line@);
    let mut spans: Vec<Span> = Vec::new();
    let mut k: usize = 0;
    assert(parts.take(0).filter(keep) == Seq::<Seq<char>>::empty()) by {
        reveal(Seq::filter);
    }
    while k < fields.len()
        invariant
            k <= fields.len(),
            n == line.len(),
            forall|w: Seq<char>| #[trigger] keep(w) == (w.len() > 0),
            spans_cut(line@, fields@, parts, 0, n as int),
            spans_cut(line@, spans@, parts.take(k as int).filter(keep), 0, n as int),
        decreases fields.len() - k,
    {
        let field = fields[k];
        proof {
            reveal(Seq::filter);
            let upto = parts.take(k + 1);
            assert(upto.drop_last() == parts.take(k as int));
            assert(upto.last() == parts[k as int]);
            assert(field.of(line@) == parts[k as int]);
            assert(upto.filter(keep) == if keep(parts[k as int]) {
                parts.take(k as int).filter(keep).push(parts[k as int])
            } else {
                parts.take(k as int).filter(keep)
            });
        }
        if field.start < field.end {
            spans.push(field);
        }
        k += 1;
    }
    assert(parts.take(k as int) == parts);
    spans
}

/// Whether positions `span` of `line` spell exactly `word`.
pub fn spells(line: &Vec<char>, span: Span, word: &str) -> (r: bool)
    requires
        span.within(0, line.len() as int),
    ensures
        r == (span.of(line@) == word@),
{
    let n: usize = word.unicode_len();
    if span.end - span.start != n {
        return false;
    }
    let mut i: usize = 0;
    while i < n
        invariant
            i <= n,
            n == word@.len(),
            n == span.end - span.start,
            span.within(0, line.len() as int),
            forall|j: int| 0 <= j < i ==> span.of(line@)[j] == word@[j],
        decreases n - i,
    {
        assert(span.of(line@)[i as int] == line@[span.start + i]);
        if line[span.start + i] != word.get_char(i) {
            return false;
        }
        i += 1;
    }
    assert(span.of(line@) =~= word@);
    true
}

/// The text of positions `span` of `text`, as a string of its own.
pub fn excerpt(text: &str, span: Span) -> (r: String)
    requires
        span.within(0, text@.len() as int),
    ensures
        r@ == span.of(text@),
{
    String::from_str(text.substring_char(span.start, span.end))
}

/// The base in which a number is written.
#[derive(Debug, Clone, Copy, PartialEq, Eq, Structural)]
pub enum Radix {
    Decimal,
    Hex,
}

/// Whether `c` is a digit in base `radix`; hexadecimal digits may be of
/// either case.
pub open spec fn is_digit(c: char, radix: Radix) -> bool {
    ||| '0' as u32 <= c as u32 <= '9' as u32
    ||| radix == Radix::Hex && 'a' as u32 <= c as u32 <= 'f' as u32
    ||| radix == Radix::Hex && 'A' as u32 <= c as u32 <= 'F' as u32
}

/// The value of the digit `c`.
pub open spec fn digit_value(c: char) -> int {
    if '0' as u32 <= c as u32 <= '9' as u32 {
        c as u32 - '0' as u32
    } else if 'a' as u32 <= c as u32 <= 'f' as u32 {
        c as u32 - 'a' as u32 + 10
    } else {
        c as u32 - 'A' as u32 + 10
    }
}

/// Whether `s` is a numeral in base `radix`: one or more digits and nothing
/// else (no sign, no blank, no underscore).
pub open spec fn is_numeral(s: Seq<char>, radix: Radix) -> bool {
    s.len() > 0 && forall|i: int| 0 <= i < s.len() ==> is_digit(#[trigger] s[i], radix)
}

/// The number that the digits of `s` denote in base `radix`, most significant
/// digit first.
pub open spec fn numeral_value(s: Seq<char>, radix: Radix) -> int
    decreases s.len(),
{
    if s.len() == 0 {
        0
    } else {
        match radix {
            Radix::Decimal => 10 * numeral_value(s.drop_last(), radix) + digit_value(s.last()),
            Radix::Hex => 16 * numeral_value(s.drop_last(), radix) + digit_value(s.last()),
        }
    }
}

/// The number that `s` denotes, if `s` is a numeral of at most `max`.
pub open spec fn read_numeral(s: Seq<char>, radix: Radix, max: int) -> Option<int> {
    if is_numeral(s, radix) && numeral_value(s, radix) <= max {
        Some(numeral_value(s, radix))
    } else {
        None
    }
}

/// Reading more digits never makes a numeral smaller.
pub proof fn lemma_numeral_prefix(s: Seq<char>, radix: Radix, k: int)
    requires
        0 <= k <= s.len(),
        forall|i: int| 0 <= i < s.len() ==> is_digit(#[trigger] s[i], radix),
    ensures
        0 <= numeral_value(s.take(k), radix) <= numeral_value(s, radix),
    decreases s.len(),
{
    if s.len() == 0 {
        assert(s.take(k) == s);
    } else {
        let shorter = s.drop_last();
        if k == s.len() {
            lemma_numeral_prefix(shorter, radix, k - 1);
            assert(shorter.take(k - 1) == shorter);
            assert(s.take(k) == s);
        } else {
            lemma_numeral_prefix(shorter, radix, k);
            assert(shorter.take(k) == s.take(k));
        }
    }
}

/// The value of `c` as a digit in base `radix`, if it is one.
pub fn digit_of(c: char, radix: Radix) -> (r: Option<u64>)
    ensures
        r is Some <==> is_digit(c, radix),
        r matches Some(v) ==> v == digit_value(c) && v < 16,
{
    let code: u32 = c as u32;
    if '0' as u32 <= code && code <= '9' as u32 {
        Some((code - '0' as u32) as u64)
    } else if radix == Radix::Hex && 'a' as u32 <= code && code <= 'f' as u32 {
        Some((code - 'a' as u32 + 10) as u64)
    } else if radix == Radix::Hex && 'A' as u32 <= code && code <= 'F' as u32 {
        Some((code - 'A' as u32 + 10) as u64)
    } else {
        None
    }
}

/// Reads positions `from..to` of `line` as a numeral of at most `max`.
pub fn parse_numeral(line: &Vec<char>, from: usize, to: usize, radix: Radix, max: u32) -> (r:
    Option<u32>)
    requires
        from <= to <= line.len(),
    ensures
        match r {
            Some(v) => read_numeral(line@.subrange(from as int, to as int), radix, max as int)
                == Some(v as int),
            None => read_numeral(line@.subrange(from as int, to as int), radix, max as int)
                is None,
        },
{
    let ghost s = line@.subrange(from as int, to as int);
    if from == to {
        return None;
    }
    let mut acc: u64 = 0;
    let mut i: usize = from;
    while i < to
        invariant
            from <= i <= to <= line.len(),
            s == line@.subrange(from as int, to as int),
            acc <= max,
            acc == numeral_value(s.take(i - from), radix),
            forall|j: int| 0 <= j < i - from ==> is_digit(#[trigger] s[j], radix),
        decreases to - i,
    {
        proof {
            let upto = s.take(i - from + 1);
            assert(upto.drop_last() == s.take(i - from));
            assert(upto.last() == s[i - from]);
            assert(s[i - from] == line@[i as int]);
        }
        match digit_of(line[i], radix) {
            None => {
                return None;
            },
            Some(d) => {
                let next: u64 = match radix {
                    Radix::Decimal => 10 * acc + d,
                    Radix::Hex => 16 * acc + d,
                };
                if next > max as u64 {
                    proof {
                        if is_numeral(s, radix) {
                            lemma_numeral_prefix(s, radix, i - from + 1);
                        }
                    }
                    return None;
                }
                acc = next;
            },
        }
        i += 1;
    }
    assert(s.take(to - from) == s);
    Some(acc as u32)
}

} // verus!
