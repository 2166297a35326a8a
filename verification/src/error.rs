//! The failure values of the parsers: one per grammar, and one for the
//! identifier that is either a DID or a handle.

use vstd::prelude::*;

verus! {

/// Says which grammar rejected a text.
#[derive(Clone, Copy, Debug, PartialEq, Eq, Structural)]
pub enum ParseError {
    /// The text is no handle.
    Handle,
    /// The text is no DID.
    Did,
    /// The text is neither a DID nor a handle.
    AtIdentifier,
    /// The text is no NSID.
    Nsid,
    /// The text is no record key.
    RecordKey,
    /// The text is no TID.
    Tid,
    /// The text is no AT-URI.
    AtUri,
    /// The text is no datetime.
    DateTime,
    /// The text is no CID.
    Cid,
    /// The parts are not those of a blob reference.
    Blob,
}

impl ParseError {
    /// The failure of the handle grammar.
    pub fn handle() -> (e: ParseError)
        ensures
            e == ParseError::Handle,
    {
        ParseError::Handle
    }

    /// The failure of the DID grammar.
    pub fn did() -> (e: ParseError)
        ensures
            e == ParseError::Did,
    {
        ParseError::Did
    }

    /// The failure for a text that is neither a DID nor a handle.
    pub fn at_identifier() -> (e: ParseError)
        ensures
            e == ParseError::AtIdentifier,
    {
        ParseError::AtIdentifier
    }

    /// The failure of the NSID grammar.
    pub fn nsid() -> (e: ParseError)
        ensures
            e == ParseError::Nsid,
    {
        ParseError::Nsid
    }

    /// The failure of the record-key grammar.
    pub fn record_key() -> (e: ParseError)
        ensures
            e == ParseError::RecordKey,
    {
        ParseError::RecordKey
    }

    /// The failure of the TID grammar.
    pub fn tid() -> (e: ParseError)
        ensures
            e == ParseError::Tid,
    {
        ParseError::Tid
    }

    /// The failure of the AT-URI grammar.
    pub fn at_uri() -> (e: ParseError)
        ensures
            e == ParseError::AtUri,
    {
        ParseError::AtUri
    }

    /// The failure of the datetime grammar.
    pub fn datetime() -> (e: ParseError)
        ensures
            e == ParseError::DateTime,
    {
        ParseError::DateTime
    }

    /// The failure of the CID grammar.
    pub fn cid() -> (e: ParseError)
        ensures
            e == ParseError::Cid,
    {
        ParseError::Cid
    }

    /// The failure of the rules for blob references.
    pub fn blob() -> (e: ParseError)
        ensures
            e == ParseError::Blob,
    {
        ParseError::Blob
    }

    /// The message of this failure.
    pub fn message(&self) -> (m: &'static str)
        ensures
            m@ == self.spec_message(),
    {
        match self {
            ParseError::Handle => "invalid handle",
            ParseError::Did => "invalid DID",
            ParseError::AtIdentifier => "invalid at-identifier",
            ParseError::Nsid => "invalid NSID",
            ParseError::RecordKey => "invalid record key",
            ParseError::Tid => "invalid TID",
            ParseError::AtUri => "invalid AT-URI",
            ParseError::DateTime => "invalid datetime",
            ParseError::Cid => "invalid CID",
            ParseError::Blob => "invalid blob",
        }
    }

    /// The text of `message`.
    pub open spec fn spec_message(&self) -> Seq<char> {
        match self {
            ParseError::Handle => "invalid handle"@,
            ParseError::Did => "invalid DID"@,
            ParseError::AtIdentifier => "invalid at-identifier"@,
            ParseError::Nsid => "invalid NSID"@,
            ParseError::RecordKey => "invalid record key"@,
            ParseError::Tid => "invalid TID"@,
            ParseError::AtUri => "invalid AT-URI"@,
            ParseError::DateTime => "invalid datetime"@,
            ParseError::Cid => "invalid CID"@,
            ParseError::Blob => "invalid blob"@,
        }
    }
}

} // verus!
