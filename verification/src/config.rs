//! The configuration: one mapping per line, written
//! `<protocol> | <priority> | <src> -> <dst>`.

use crate::address::{parse_socket_address, read_socket_address, SocketAddress};
use crate::error::{ConfigError, ConfigErrorView, TOKENS};
use crate::protocol::{parse_protocol, read_protocol, Protocol};
use crate::text::{
    chars_of, excerpt, parse_numeral, read_numeral, spans_cut, spells, word_spans, words, Radix,
    Span,
};
use vstd::prelude::*;

verus! {

/// One relay rule: traffic of `protocol` that arrives at `src` is forwarded
/// to `dst`, tagged with `priority`.
#[derive(Debug, Clone, Copy, PartialEq, Eq, Hash, Structural)]
pub struct Mapping {
    pub protocol: Protocol,
    pub src: SocketAddress,
    pub dst: SocketAddress,
    pub priority: u8,
}

/// The mappings of a configuration, in the order of its lines.
#[derive(Debug, Clone, PartialEq, Eq, Hash)]
pub struct Config {
    pub maps: Vec<Mapping>,
}

/// The priority that `s` denotes: a decimal numeral of at most 255, which an
/// optional `+` may precede.
pub open spec fn read_priority(s: Seq<char>) -> Option<int> {
    if s.len() > 0 && s[0] == '+' {
        read_numeral(s.drop_first(), Radix::Decimal, 255)
    } else {
        read_numeral(s, Radix::Decimal, 255)
    }
}

/// The separator that a well-formed line has at `position`, if it has one
/// there.
pub open spec fn separator_at(position: int) -> Option<Seq<char>> {
    if position == 1 || position == 3 {
        Some("|"@)
    } else if position == 5 {
        Some("->"@)
    } else {
        None
    }
}

/// What is wrong with the shape of the words `w` at `position`, if anything:
/// a word is missing there, a separator is not the expected one, or, one past
/// the last token, a word is left over.
pub open spec fn deviation_at(w: Seq<Seq<char>>, position: int) -> Option<ConfigErrorView> {
    if position == TOKENS {
        if w.len() > TOKENS {
            Some(ConfigErrorView::TrailingToken { found: w[position] })
        } else {
            None
        }
    } else if w.len() <= position {
        Some(ConfigErrorView::MissingToken { position: position as usize })
    } else if separator_at(position) is Some && w[position] != separator_at(position).unwrap() {
        Some(ConfigErrorView::Separator { position: position as usize, found: w[position] })
    } else {
        None
    }
}

/// The first deviation of the words `w` at or after `position`.
pub open spec fn first_deviation(w: Seq<Seq<char>>, position: int) -> Option<ConfigErrorView>
    decreases TOKENS + 1 - position,
{
    if position < 0 || position > TOKENS {
        None
    } else if deviation_at(w, position) is Some {
        deviation_at(w, position)
    } else {
        first_deviation(w, position + 1)
    }
}

/// The mapping that the line `s` denotes, or what is wrong with it.
///
/// The shape of the line is judged first, word by word from the left. A
/// well-shaped line is then held to its protocol, its source address, its
/// destination address and its priority, in that order, and the first token
/// that fails is reported.
pub open spec fn read_mapping(s: Seq<char>) -> Result<Mapping, ConfigErrorView> {
    let w = words(s);
    if first_deviation(w, 0) is Some {
        Err(first_deviation(w, 0).unwrap())
    } else if read_protocol(w[0]) is None {
        Err(ConfigErrorView::Protocol { found: w[0] })
    } else if read_socket_address(w[4]) is None {
        Err(ConfigErrorView::Address { position: 4, found: w[4] })
    } else if read_socket_address(w[6]) is None {
        Err(ConfigErrorView::Address { position: 6, found: w[6] })
    } else if read_priority(w[2]) is None {
        Err(ConfigErrorView::Priority { found: w[2] })
    } else {
        Ok(
            Mapping {
                protocol: read_protocol(w[0]).unwrap(),
                src: read_socket_address(w[4]).unwrap(),
                dst: read_socket_address(w[6]).unwrap(),
                priority: read_priority(w[2]).unwrap() as u8,
            },
        )
    }
}

/// Reads positions `span` of `line` as a priority.
fn parse_priority(line: &Vec<char>, span: Span) -> (r: Option<u8>)
    requires
        span.within(0, line.len() as int),
    ensures
        match r {
            Some(v) => read_priority(span.of(line@)) == Some(v as int),
            None => read_priority(span.of(line@)) is None,
        },
{
    let mut from: usize = span.start;
    if span.start < span.end {
        assert(span.of(line@)[0] == line@[span.start as int]);
        if line[span.start] == '+' {
            assert(span.of(line@).drop_first() == line@.subrange(span.start + 1, span.end as int));
            from = span.start + 1;
        }
    }
    match parse_numeral(line, from, span.end, Radix::Decimal, 255) {
        Some(v) => Some(v as u8),
        None => None,
    }
}

/// Judges the shape of the words at `position`.
fn check_shape(text: &str, line: &Vec<char>, spans: &Vec<Span>, position: usize) -> (r: Option<
    ConfigError,
>)
    requires
        line@ == text@,
        spans_cut(line@, spans@, words(line@), 0, line.len() as int),
        position <= TOKENS,
    ensures
        match r {
            Some(e) => deviation_at(words(text@), position as int) == Some(e@),
            None => deviation_at(words(text@), position as int) is None,
        },
{
    if position == TOKENS {
        if spans.len() > TOKENS {
            Some(ConfigError::TrailingToken { found: excerpt(text, spans[position]) })
        } else {
            None
        }
    } else if spans.len() <= position {
        Some(ConfigError::MissingToken { position })
    } else if (position == 1 || position == 3) && !spells(line, spans[position], "|") {
        Some(ConfigError::Separator { position, found: excerpt(text, spans[position]) })
    } else if position == 5 && !spells(line, spans[position], "->") {
        Some(ConfigError::Separator { position, found: excerpt(text, spans[position]) })
    } else {
        None
    }
}

impl Mapping {
    /// Reads one line of the configuration.
    ///
    /// Succeeds exactly on the lines that `read_mapping` accepts, with the
    /// mapping it gives; on every other line the error is the one that
    /// `read_mapping` gives, with the offending token in it.
    pub fn from_str(text: &str) -> (r: Result<Mapping, ConfigError>)
        ensures
            match r {
                Ok(m) => read_mapping(text@) == Ok::<Mapping, ConfigErrorView>(m),
                Err(e) => read_mapping(text@) == Err::<Mapping, ConfigErrorView>(e@),
            },
    {
        let line = chars_of(text);
        let spans = word_spans(&line);
        let ghost w = words(text@);
        let mut position: usize = 0;
        while position <= TOKENS
            invariant
                position <= TOKENS + 1,
                line@ == text@,
                w == words(text@),
                spans_cut(line@, spans@, w, 0, line.len() as int),
                first_deviation(w, 0) == first_deviation(w, position as int),
                forall|k: int| 0 <= k < position ==> deviation_at(w, k) is None,
            decreases TOKENS + 1 - position,
        {
            match check_shape(text, &line, &spans, position) {
                Some(e) => {
                    return Err(e);
                },
                None => {},
            }
            position += 1;
        }
        assert(spans.len() == TOKENS) by {
            assert(deviation_at(w, 6) is None);
            assert(deviation_at(w, 7) is None);
        }
        let protocol = match parse_protocol(&line, spans[0]) {
            Some(p) => p,
            None => {
                return Err(ConfigError::Protocol { found: excerpt(text, spans[0]) });
            },
        };
        let src = match parse_socket_address(&line, spans[4].start, spans[4].end) {
            Some(a) => a,
            None => {
                return Err(ConfigError::Address { position: 4, found: excerpt(text, spans[4]) });
            },
        };
        let dst = match parse_socket_address(&line, spans[6].start, spans[6].end) {
            Some(a) => a,
            None => {
                return Err(ConfigError::Address { position: 6, found: excerpt(text, spans[6]) });
            },
        };
        let priority = match parse_priority(&line, spans[2]) {
            Some(p) => p,
            None => {
                return Err(ConfigError::Priority { found: excerpt(text, spans[2]) });
            },
        };
        Ok(Mapping { protocol, src, dst, priority })
    }
}

/// Why a configuration was refused: its first bad line, counted from 0, and
/// what is wrong with that line.
#[derive(Debug, Clone, PartialEq, Eq, Hash)]
pub struct ConfigFailure {
    pub line: usize,
    pub error: ConfigError,
}

impl Config {
    /// Reads a configuration from its lines, one mapping per line.
    ///
    /// Succeeds exactly where every line is a mapping, with the mappings in
    /// the order of the lines. Otherwise the failure names the first line
    /// that is none, with the error of that line.
    pub fn from_lines(lines: &Vec<String>) -> (r: Result<Config, ConfigFailure>)
        ensures
            match r {
                Ok(config) => config.maps@.len() == lines@.len() && forall|i: int|
                    0 <= i < lines@.len() ==> read_mapping(#[trigger] lines@[i]@) == Ok::<
                        Mapping,
                        ConfigErrorView,
                    >(config.maps@[i]),
                Err(failure) => failure.line < lines@.len() && read_mapping(lines@[failure.line as int]@)
                    == Err::<Mapping, ConfigErrorView>(failure.error@) && forall|i: int|
                    0 <= i < failure.line ==> read_mapping(#[trigger] lines@[i]@) is Ok,
            },
    {
        let mut maps: Vec<Mapping> = Vec::new();
        let mut i: usize = 0;
        while i < lines.len()
            invariant
                i <= lines.len(),
                maps@.len() == i,
                forall|k: int|
                    0 <= k < i ==> read_mapping(#[trigger] lines@[k]@) == Ok::<
                        Mapping,
                        ConfigErrorView,
                    >(maps@[k]),
            decreases lines.len() - i,
        {
            match Mapping::from_str(lines[i].as_str()) {
                Ok(mapping) => {
                    maps.push(mapping);
                },
                Err(error) => {
                    return Err(ConfigFailure { line: i, error });
                },
            }
            i += 1;
        }
        Ok(Config { maps })
    }
}

/// The words of a line have the shape of a mapping: seven of them, with `|`
/// as the second and the fourth and `->` as the sixth.
pub open spec fn well_shaped(w: Seq<Seq<char>>) -> bool {
    w.len() == TOKENS && w[1] == "|"@ && w[3] == "|"@ && w[5] == "->"@
}

/// The shape of a line is sound exactly where no word deviates.
pub proof fn lemma_shape(w: Seq<Seq<char>>)
    ensures
        well_shaped(w) <==> first_deviation(w, 0) is None,
        first_deviation(w, 0) matches Some(e) ==> exists|k: int|
            0 <= k <= TOKENS && deviation_at(w, k) == Some(e) && forall|j: int|
                0 <= j < k ==> deviation_at(w, j) is None,
{
    reveal_with_fuel(first_deviation, 9);
    if first_deviation(w, 0) is Some {
        let e = first_deviation(w, 0).unwrap();
        let k = if deviation_at(w, 0) is Some {
            0int
        } else if deviation_at(w, 1) is Some {
            1
        } else if deviation_at(w, 2) is Some {
            2
        } else if deviation_at(w, 3) is Some {
            3
        } else if deviation_at(w, 4) is Some {
            4
        } else if deviation_at(w, 5) is Some {
            5
        } else if deviation_at(w, 6) is Some {
            6
        } else {
            7
        };
        assert(deviation_at(w, k) == Some(e) && forall|j: int|
            0 <= j < k ==> deviation_at(w, j) is None);
    } else {
        assert(deviation_at(w, 1) is None);
        assert(deviation_at(w, 3) is None);
        assert(deviation_at(w, 5) is None);
        assert(deviation_at(w, 6) is None);
        assert(deviation_at(w, 7) is None);
    }
}

/// A valid line denotes the mapping whose fields are its tokens: the
/// protocol that the first word names, the priority that the third word
/// denotes, and the addresses that the fifth and the seventh word denote.
pub proof fn law_valid_line(s: Seq<char>)
    requires
        well_shaped(words(s)),
        read_protocol(words(s)[0]) is Some,
        read_priority(words(s)[2]) is Some,
        read_socket_address(words(s)[4]) is Some,
        read_socket_address(words(s)[6]) is Some,
    ensures
        read_mapping(s) == Ok::<Mapping, ConfigErrorView>(
            Mapping {
                protocol: read_protocol(words(s)[0]).unwrap(),
                src: read_socket_address(words(s)[4]).unwrap(),
                dst: read_socket_address(words(s)[6]).unwrap(),
                priority: read_priority(words(s)[2]).unwrap() as u8,
            },
        ),
{
    lemma_shape(words(s));
}

/// A line that lacks a token is refused. Where the separators it does have
/// are the right ones, the error names the first position that is empty.
pub proof fn law_missing_token(s: Seq<char>)
    requires
        words(s).len() < TOKENS,
    ensures
        read_mapping(s) is Err,
        read_mapping(s)->Err_0 is MissingToken || read_mapping(s)->Err_0 is Separator,
        read_mapping(s)->Err_0 matches ConfigErrorView::MissingToken { position } ==> position
            == words(s).len(),
{
    let w = words(s);
    lemma_shape(w);
    let e = first_deviation(w, 0).unwrap();
    let k = choose|k: int|
        0 <= k <= TOKENS && deviation_at(w, k) == Some(e) && forall|j: int|
            0 <= j < k ==> deviation_at(w, j) is None;
    if k > w.len() {
        assert(deviation_at(w, w.len() as int) is None);
    }
}

/// A line with a wrong separator is refused, and the error names the first
/// word that stands where a separator should: its position and the word
/// itself.
pub proof fn law_wrong_separator(s: Seq<char>, k: int)
    requires
        0 <= k < words(s).len(),
        k < TOKENS,
        separator_at(k) is Some,
        words(s)[k] != separator_at(k).unwrap(),
    ensures
        read_mapping(s) matches Err(ConfigErrorView::Separator { position, found }) && position <= k
            && found == words(s)[position as int] && separator_at(position as int) is Some && found
            != separator_at(position as int).unwrap(),
{
    let w = words(s);
    lemma_shape(w);
    let e = first_deviation(w, 0).unwrap();
    let p = choose|p: int|
        0 <= p <= TOKENS && deviation_at(w, p) == Some(e) && forall|j: int|
            0 <= j < p ==> deviation_at(w, j) is None;
    if p > k {
        assert(deviation_at(w, k) is None);
    }
}

/// A line with a word too many is refused, and the error names the first
/// word that is left over, unless a separator is wrong before it.
pub proof fn law_trailing_token(s: Seq<char>)
    requires
        words(s).len() > TOKENS,
    ensures
        read_mapping(s) is Err,
        read_mapping(s)->Err_0 is TrailingToken || read_mapping(s)->Err_0 is Separator,
        read_mapping(s)->Err_0 matches ConfigErrorView::TrailingToken { found } ==> found == words(
            s,
        )[TOKENS as int],
{
    let w = words(s);
    lemma_shape(w);
}

/// A well-shaped line whose protocol is neither `tcp` nor `udp` is refused,
/// and the error names the word that stands for the protocol.
pub proof fn law_unknown_protocol(s: Seq<char>)
    requires
        well_shaped(words(s)),
        words(s)[0] != "tcp"@,
        words(s)[0] != "udp"@,
    ensures
        read_mapping(s) == Err::<Mapping, ConfigErrorView>(
            ConfigErrorView::Protocol { found: words(s)[0] },
        ),
{
    lemma_shape(words(s));
}

/// A well-shaped line with a valid protocol and a bad address or priority
/// is refused, and the error names the first bad token among the source
/// address, the destination address and the priority, in that order.
pub proof fn law_bad_value(s: Seq<char>)
    requires
        well_shaped(words(s)),
        read_protocol(words(s)[0]) is Some,
    ensures
        read_socket_address(words(s)[4]) is None ==> read_mapping(s) == Err::<
            Mapping,
            ConfigErrorView,
        >(ConfigErrorView::Address { position: 4, found: words(s)[4] }),
        read_socket_address(words(s)[4]) is Some && read_socket_address(words(s)[6]) is None
            ==> read_mapping(s) == Err::<Mapping, ConfigErrorView>(
            ConfigErrorView::Address { position: 6, found: words(s)[6] },
        ),
        read_socket_address(words(s)[4]) is Some && read_socket_address(words(s)[6]) is Some
            && read_priority(words(s)[2]) is None ==> read_mapping(s) == Err::<
            Mapping,
            ConfigErrorView,
        >(ConfigErrorView::Priority { found: words(s)[2] }),
{
    lemma_shape(words(s));
}

} // verus!
