//! The framing that a proxy serves its consumers in.

use vstd::prelude::*;
use std::str::FromStr;
use crate::text::ascii_lowercase;
use crate::text::same_text;
use crate::text::to_ascii_lowercase;

verus! {

/// Default port on which PTI consumers are served.
pub const DEFAULT_PTI_PORT: u16 = 4905;

/// The framing that a proxy serves its consumers in.
#[derive(Debug, Clone, Copy, PartialEq, Eq, Structural)]
pub enum ProxyProtocol {
    /// PTI framing in Debug Channel envelopes.
    Pti,
    /// The native framing.
    ZniffRs,
}

/// The text names no framing.
#[derive(Debug, Clone, Copy, PartialEq, Eq, Structural)]
pub struct ParseProxyProtocolError;

impl ParseProxyProtocolError {
    /// What went wrong, for the user.
    pub fn message(&self) -> (text: String)
        ensures
            text@ == "invalid proxy protocol"@,
    {
        "invalid proxy protocol".to_owned()
    }
}

impl ProxyProtocol {
    /// The framing that a text names, whatever the case of its ASCII
    /// letters: `pti` or `zniff-rs`.
    pub open spec fn of_text(text: Seq<char>) -> Option<ProxyProtocol> {
        if ascii_lowercase(text) == "pti"@ {
            Some(ProxyProtocol::Pti)
        } else if ascii_lowercase(text) == "zniff-rs"@ {
            Some(ProxyProtocol::ZniffRs)
        } else {
            None
        }
    }

    /// The name of the framing.
    pub open spec fn name_of(self) -> Seq<char> {
        match self {
            ProxyProtocol::Pti => "pti"@,
            ProxyProtocol::ZniffRs => "zniff-rs"@,
        }
    }

    /// The framing that a text names; an error for any other text.
    pub fn parse(s: &str) -> (protocol: Result<ProxyProtocol, ParseProxyProtocolError>)
        ensures
            protocol is Ok <==> ProxyProtocol::of_text(s@) is Some,
            protocol matches Ok(p) ==> ProxyProtocol::of_text(s@) == Some(p),
            protocol matches Err(e) ==> e == ParseProxyProtocolError,
    {
        let lower = to_ascii_lowercase(s);
        if same_text(lower.as_str(), "pti") {
            Ok(ProxyProtocol::Pti)
        } else if same_text(lower.as_str(), "zniff-rs") {
            Ok(ProxyProtocol::ZniffRs)
        } else {
            Err(ParseProxyProtocolError)
        }
    }

    /// The name of the framing.
    pub fn name(&self) -> (text: String)
        ensures
            text@ == self.name_of(),
    {
        match self {
            ProxyProtocol::Pti => "pti".to_owned(),
            ProxyProtocol::ZniffRs => "zniff-rs".to_owned(),
        }
    }
}

impl FromStr for ProxyProtocol {
    type Err = ParseProxyProtocolError;

    /// The framing that a text names, whatever the case of its ASCII
    /// letters; an error for any other text.
    fn from_str(s: &str) -> (protocol: Result<ProxyProtocol, ParseProxyProtocolError>)
        ensures
            protocol == (match ProxyProtocol::of_text(s@) {
                Some(p) => Ok::<ProxyProtocol, ParseProxyProtocolError>(p),
                None => Err::<ProxyProtocol, ParseProxyProtocolError>(ParseProxyProtocolError),
            }),
    {
        ProxyProtocol::parse(s)
    }
}

/// The name of a framing names that framing.
pub proof fn lemma_name_names_the_protocol(protocol: ProxyProtocol)
    ensures
        ProxyProtocol::of_text(protocol.name_of()) == Some(protocol),
{
    reveal_strlit("pti");
    reveal_strlit("zniff-rs");
    assert(ascii_lowercase("pti"@) =~= "pti"@);
    assert(ascii_lowercase("zniff-rs"@) =~= "zniff-rs"@);
}

} // verus!
