//! The reports of the compiler.

use vstd::prelude::*;
use vstd::string::StringExecFns;
use crate::text::{append_decimal, decimal_text};
use crate::token::Message;

verus! {

/// Where a diagnostic points.
#[derive(Clone, Copy, Debug, PartialEq, Eq, Structural)]
pub enum Location {
    /// At the end of input, or at a token that is itself an error.
    AtEnd,
    /// At the token that starts at this position of the source.
    At(usize),
    /// At the chunk being written, not at a token.
    InChunk,
}

/// One report of the compiler.
#[derive(Clone, Copy, Debug, PartialEq, Eq, Structural)]
pub struct Diagnostic {
    pub line: u64,
    pub location: Location,
    pub message: Option<Message>,
}

impl Diagnostic {
    /// The message behind a line break and a blank, where there is one.
    pub open spec fn detail(self) -> Seq<char> {
        match self.message {
            Some(message) => "\n "@ + message.wording(),
            None => Seq::empty(),
        }
    }

    /// The report as a reader sees it: the line, the word `Error`, where the
    /// error is, and the message on a line of its own. A report on the chunk
    /// is its message alone.
    pub open spec fn rendering(self) -> Seq<char> {
        match self.location {
            Location::AtEnd => decimal_text(self.line as nat) + ": Error "@ + " at end"@ + self.detail(),
            Location::At(position) => decimal_text(self.line as nat) + ": Error "@ + "at "@ + decimal_text(
                position as nat,
            ) + self.detail(),
            Location::InChunk => match self.message {
                Some(message) => message.wording(),
                None => Seq::empty(),
            },
        }
    }

    /// Renders the report.
    pub fn text(&self) -> (text: String)
        ensures
            text@ == self.rendering(),
    {
        let mut text = String::from_str("");
        proof {
            reveal_strlit("");
            assert(text@ =~= Seq::<char>::empty());
        }
        match self.location {
            Location::InChunk => {
                match self.message {
                    Some(message) => {
                        text.append(message.text());
                        proof {
                            assert(text@ =~= message.wording());
                        }
                    },
                    None => {},
                }
                return text;
            },
            Location::AtEnd => {
                append_decimal(&mut text, self.line);
                text.append(": Error ");
                text.append(" at end");
            },
            Location::At(position) => {
                append_decimal(&mut text, self.line);
                text.append(": Error ");
                text.append("at ");
                append_decimal(&mut text, position as u64);
            },
        }
        let ghost head = text@;
        match self.message {
            Some(message) => {
                text.append("\n ");
                text.append(message.text());
                proof {
                    assert(text@ =~= head + self.detail());
                }
            },
            None => {
                proof {
                    assert(text@ =~= head + self.detail());
                }
            },
        }
        proof {
            assert(text@ =~= self.rendering());
        }
        text
    }
}

} // verus!
