//! The forwarded-for chain recorded for an incoming request.
//!
//! The HTTP layer hands this module the two forwarded-for headers of a
//! request (as plain values) and the peer address; the logic that chooses
//! between the headers and joins the result with the peer address lives
//! here, with its contract.

use vstd::prelude::*;
use vstd::string::StringExecFns;

verus! {

/// A request header as this module sees it: absent, present but not
/// decodable as text, or present with its text.
#[derive(Debug)]
pub enum HeaderText {
    Absent,
    Undecodable,
    Text(String),
}

/// Mathematical model of `HeaderText`.
pub enum HeaderTextV {
    Absent,
    Undecodable,
    Text(Seq<char>),
}

impl DeepView for HeaderText {
    type V = HeaderTextV;

    open spec fn deep_view(&self) -> HeaderTextV {
        match self {
            HeaderText::Absent => HeaderTextV::Absent,
            HeaderText::Undecodable => HeaderTextV::Undecodable,
            HeaderText::Text(s) => HeaderTextV::Text(s@),
        }
    }
}

/// The text a chosen header contributes: its text if it decodes, nothing
/// otherwise.
pub open spec fn spec_header_value(h: HeaderTextV) -> Seq<char> {
    match h {
        HeaderTextV::Text(s) => s,
        _ => Seq::<char>::empty(),
    }
}

/// Which header speaks for a request: the Vercel header whenever it is
/// present — decodable or not — and the plain header only when the Vercel
/// one is absent.
pub open spec fn spec_forwarded_for(vercel: HeaderTextV, forwarded: HeaderTextV) -> Seq<char> {
    if !(vercel is Absent) {
        spec_header_value(vercel)
    } else {
        spec_header_value(forwarded)
    }
}

/// How the chosen forwarded value and the peer address combine: whichever
/// is empty gives way, otherwise they are joined with a comma.
pub open spec fn spec_forwarded_chain(forwarded: Seq<char>, peer: Seq<char>) -> Seq<char> {
    if forwarded.len() == 0 {
        peer
    } else if peer.len() == 0 {
        forwarded
    } else {
        forwarded + ", "@ + peer
    }
}

/// The forwarded-for chain attached to a request: the forwarded header
/// value, if any, followed by the peer address.
#[derive(Debug)]
pub struct ForwardedFor(pub String);

impl View for ForwardedFor {
    type V = Seq<char>;

    open spec fn view(&self) -> Seq<char> {
        self.0@
    }
}

impl ForwardedFor {
    pub const FORWARDED_HEADER: &'static str = "X-Forwarded-For";

    pub const VERCEL_FORWARDED_HEADER: &'static str = "X-Vercel-Forwarded-For";

    /// Chooses which forwarded header a request's value comes from. The
    /// Vercel header is preferred because the plain one can be overwritten
    /// along the way; a present but undecodable preferred header yields the
    /// empty string rather than falling back.
    pub fn get_forwarded_for_ip(vercel: HeaderText, forwarded: HeaderText) -> (r: String)
        ensures
            r@ == spec_forwarded_for(vercel.deep_view(), forwarded.deep_view()),
    {
        match vercel {
            HeaderText::Text(s) => s,
            HeaderText::Undecodable => String::new(),
            HeaderText::Absent => match forwarded {
                HeaderText::Text(s) => s,
                HeaderText::Undecodable => String::new(),
                HeaderText::Absent => String::new(),
            },
        }
    }

    /// Records the chain for a request: the chosen forwarded value and the
    /// peer address, joined as `spec_forwarded_chain` says.
    pub fn new(forwarded: String, peer_addr: String) -> (r: ForwardedFor)
        ensures
            r@ == spec_forwarded_chain(forwarded@, peer_addr@),
    {
        if forwarded.as_str().is_empty() {
            ForwardedFor(peer_addr)
        } else if peer_addr.as_str().is_empty() {
            ForwardedFor(forwarded)
        } else {
            let joined = forwarded.concat(", ").concat(peer_addr.as_str());
            ForwardedFor(joined)
        }
    }

    /// The recorded chain, as a plain string.
    pub fn into_inner(self) -> (r: String)
        ensures
            r == self.0,
            r@ == self@,
    {
        self.0
    }
}

impl From<ForwardedFor> for String {
    fn from(forwarded: ForwardedFor) -> (r: String) {
        forwarded.into_inner()
    }
}

impl vstd::std_specs::convert::FromSpecImpl<ForwardedFor> for String {
    open spec fn obeys_from_spec() -> bool {
        true
    }

    open spec fn from_spec(t: ForwardedFor) -> String {
        t.0
    }
}

} // verus!
