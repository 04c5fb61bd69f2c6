//! The transport protocol of a mapping.

use crate::error::ConfigError;
use crate::text::{chars_of, excerpt, spells, Span};
use vstd::prelude::*;

verus! {

/// Transport protocol relayed by a mapping.
#[derive(Debug, Clone, Copy, PartialEq, Eq, Hash, Structural)]
pub enum Protocol {
    Tcp,
    Udp,
}

/// The protocol that `s` names: `tcp` or `udp`, in lower case.
pub open spec fn read_protocol(s: Seq<char>) -> Option<Protocol> {
    if s == "tcp"@ {
        Some(Protocol::Tcp)
    } else if s == "udp"@ {
        Some(Protocol::Udp)
    } else {
        None
    }
}

/// Reads positions `span` of `line` as a protocol name.
pub fn parse_protocol(line: &Vec<char>, span: Span) -> (r: Option<Protocol>)
    requires
        span.within(0, line.len() as int),
    ensures
        r == read_protocol(span.of(line@)),
{
    if spells(line, span, "tcp") {
        Some(Protocol::Tcp)
    } else if spells(line, span, "udp") {
        Some(Protocol::Udp)
    } else {
        None
    }
}

impl Protocol {
    /// Reads a protocol name. Anything but `tcp` and `udp` is refused, with
    /// the text itself as the offending token.
    pub fn from_str(text: &str) -> (r: Result<Protocol, ConfigError>)
        ensures
            match r {
                Ok(p) => read_protocol(text@) == Some(p),
                Err(e) => read_protocol(text@) is None && e == (ConfigError::Protocol {
                    found: e->Protocol_found,
                }) && e->Protocol_found@ == text@,
            },
    {
        let line = chars_of(text);
        let whole = Span { start: 0, end: line.len() };
        assert(whole.of(line@) == text@);
        match parse_protocol(&line, whole) {
            Some(p) => Ok(p),
            None => Err(ConfigError::Protocol { found: excerpt(text, whole) }),
        }
    }

    /// The lower-case name of the protocol.
    pub fn name(&self) -> (r: &'static str)
        ensures
            read_protocol(r@) == Some(*self),
    {
        proof {
            reveal_strlit("tcp");
            reveal_strlit("udp");
            assert("udp"@[0] != "tcp"@[0]);
        }
        match self {
            Protocol::Tcp => "tcp",
            Protocol::Udp => "udp",
        }
    }
}

} // verus!
