//! What can go wrong: a malformed configuration line, or a failure of a relay
//! engine.

use vstd::prelude::*;

verus! {

/// Why a relay engine, or one of its connections, stopped.
#[derive(Debug, Clone, Copy, PartialEq, Eq, Hash, Structural)]
pub enum EngineError {
    /// The listening or datagram socket could not be bound.
    Bind,
    /// The listener failed while accepting.
    Accept,
    /// The destination could not be reached.
    Connect,
    /// A transfer failed midway.
    Io,
    /// The traffic priority could not be set on a socket.
    SocketOption,
}

/// The tokens of a mapping line, by position: `<protocol> | <priority> | <src> -> <dst>`.
pub const TOKENS: usize = 7;

/// Why a line is not a mapping. Every variant but `MissingToken` carries the
/// offending token as it stands in the line.
#[derive(Debug, Clone, PartialEq, Eq, Hash)]
pub enum ConfigError {
    /// The line ends before the token at `position` (counted from 0).
    MissingToken { position: usize },
    /// The token at `position` should be the separator `|` or `->`.
    Separator { position: usize, found: String },
    /// A token follows the destination address.
    TrailingToken { found: String },
    /// The protocol is neither `tcp` nor `udp`.
    Protocol { found: String },
    /// The token at `position` is not a socket address.
    Address { position: usize, found: String },
    /// The priority is not a number from 0 to 255.
    Priority { found: String },
}

/// A `ConfigError` with its token as a sequence of characters.
pub enum ConfigErrorView {
    MissingToken { position: usize },
    Separator { position: usize, found: Seq<char> },
    TrailingToken { found: Seq<char> },
    Protocol { found: Seq<char> },
    Address { position: usize, found: Seq<char> },
    Priority { found: Seq<char> },
}

impl View for ConfigError {
    type V = ConfigErrorView;

    open spec fn view(&self) -> ConfigErrorView {
        match *self {
            ConfigError::MissingToken { position } => ConfigErrorView::MissingToken { position },
            ConfigError::Separator { position, found } => ConfigErrorView::Separator {
                position,
                found: found@,
            },
            ConfigError::TrailingToken { found } => ConfigErrorView::TrailingToken {
                found: found@,
            },
            ConfigError::Protocol { found } => ConfigErrorView::Protocol { found: found@ },
            ConfigError::Address { position, found } => ConfigErrorView::Address {
                position,
                found: found@,
            },
            ConfigError::Priority { found } => ConfigErrorView::Priority { found: found@ },
        }
    }
}

/// What stands at `position` in a well-formed line.
pub open spec fn token_name(position: usize) -> Seq<char> {
    if position == 0 {
        "<protocol>"@
    } else if position == 1 || position == 3 {
        "|"@
    } else if position == 2 {
        "<priority>"@
    } else if position == 4 {
        "<src>"@
    } else if position == 5 {
        "->"@
    } else {
        "<dst>"@
    }
}

/// The reminder of the grammar that ends every message.
pub open spec fn grammar_hint() -> Seq<char> {
    "; expected '<protocol> | <priority> | <src> -> <dst>'"@
}

impl ConfigErrorView {
    /// The message of the error: it names the offending token and the
    /// expected grammar.
    pub open spec fn message(self) -> Seq<char> {
        match self {
            ConfigErrorView::MissingToken { position } => "missing "@ + token_name(position)
                + grammar_hint(),
            ConfigErrorView::Separator { position, found } => "'"@ + found + "' found in place of "@
                + token_name(position) + grammar_hint(),
            ConfigErrorView::TrailingToken { found } => "'"@ + found + "' found after <dst>"@
                + grammar_hint(),
            ConfigErrorView::Protocol { found } => "'"@ + found + "' is not a valid protocol name"@
                + grammar_hint(),
            ConfigErrorView::Address { position, found } => "'"@ + found
                + "' is not a valid socket address"@ + grammar_hint(),
            ConfigErrorView::Priority { found } => "'"@ + found
                + "' is not a valid priority number"@ + grammar_hint(),
        }
    }
}

/// The name of the token at `position`.
fn name_of(position: usize) -> (r: &'static str)
    ensures
        r@ == token_name(position),
{
    if position == 0 {
        "<protocol>"
    } else if position == 1 || position == 3 {
        "|"
    } else if position == 2 {
        "<priority>"
    } else if position == 4 {
        "<src>"
    } else if position == 5 {
        "->"
    } else {
        "<dst>"
    }
}

/// `'found'` followed by `rest` and the grammar reminder.
fn quoted(found: &String, rest: &str) -> (r: String)
    ensures
        r@ == "'"@ + found@ + rest@ + grammar_hint(),
{
    let mut text = String::from_str("'");
    text.append(found.as_str());
    text.append(rest);
    text.append("; expected '<protocol> | <priority> | <src> -> <dst>'");
    text
}

impl ConfigError {
    /// The message of the error, for a person to read.
    pub fn message(&self) -> (r: String)
        ensures
            r@ == self@.message(),
    {
        match self {
            ConfigError::MissingToken { position } => {
                let mut text = String::from_str("missing ");
                text.append(name_of(*position));
                text.append("; expected '<protocol> | <priority> | <src> -> <dst>'");
                text
            },
            ConfigError::Separator { position, found } => {
                let mut text = String::from_str("'");
                text.append(found.as_str());
                text.append("' found in place of ");
                text.append(name_of(*position));
                text.append("; expected '<protocol> | <priority> | <src> -> <dst>'");
                text
            },
            ConfigError::TrailingToken { found } => quoted(found, "' found after <dst>"),
            ConfigError::Protocol { found } => quoted(found, "' is not a valid protocol name"),
            ConfigError::Address { position, found } => quoted(
                found,
                "' is not a valid socket address",
            ),
            ConfigError::Priority { found } => quoted(found, "' is not a valid priority number"),
        }
    }
}

} // verus!
