//! The string types of the AT Protocol data model: identifiers, locators,
//! datetimes and references to content.
//!
//! Every type is parsed from text into a value that can only exist if its
//! grammar accepted the text, and is rendered back to text that the grammar
//! accepts again. The grammars are stated as predicates over byte sequences;
//! the parsers are proved to decide exactly those predicates.

use vstd::prelude::*;
use vstd::string::StringSliceAdditionalSpecFns;
use vstd::utf8::encode_utf8;

pub mod at_uri;
pub mod blob;
pub mod cid_link;
pub mod datetime;
pub mod did;
pub mod error;
pub mod handle;
pub mod laws;
pub mod nsid;
pub mod nullable;
pub mod rkey;
pub mod scan;
pub mod tid;

pub use crate::at_uri::AtUri;
pub use crate::blob::Blob;
pub use crate::cid_link::{CidLink, CidString};
pub use crate::datetime::DateTime;
pub use crate::did::Did;
pub use crate::error::ParseError;
pub use crate::handle::Handle;
pub use crate::nsid::Nsid;
pub use crate::nullable::Nullable;
pub use crate::rkey::RecordKey;
pub use crate::tid::Tid;

use crate::did::{is_valid_did, spec_is_valid_did};
use crate::handle::{is_valid_handle, spec_is_valid_handle};
use crate::scan::{is_alnum, is_alpha, spec_is_alnum, spec_is_alpha};

verus! {

/// Smallest number of bytes in a segment of a domain name or of an NSID.
pub const SEGMENT_LEN_MIN: usize = 1;

/// Largest number of bytes in a segment of a domain name or of an NSID.
pub const SEGMENT_LEN_MAX: usize = 63;

/// The byte `-`.
pub const HYPHEN: u8 = 0x2d;

/// A byte that may stand in a domain segment: an ASCII letter, a digit or `-`.
pub open spec fn spec_is_segment_char(b: u8) -> bool {
    spec_is_alnum(b) || b == HYPHEN
}

/// A domain segment: 1 to 63 bytes, each a letter, a digit or `-`, and `-`
/// neither first nor last.
pub open spec fn spec_is_valid_domain_segment(s: Seq<u8>) -> bool {
    &&& SEGMENT_LEN_MIN <= s.len() <= SEGMENT_LEN_MAX
    &&& s[0] != HYPHEN
    &&& s[s.len() - 1] != HYPHEN
    &&& forall|i: int| 0 <= i < s.len() ==> spec_is_segment_char(#[trigger] s[i])
}

/// A top-level-domain segment: a domain segment that starts with a letter.
pub open spec fn spec_is_valid_tld(s: Seq<u8>) -> bool {
    spec_is_valid_domain_segment(s) && spec_is_alpha(s[0])
}

/// An NSID name segment: 1 to 63 bytes, each an ASCII letter.
pub open spec fn spec_is_valid_nsid_name(s: Seq<u8>) -> bool {
    &&& SEGMENT_LEN_MIN <= s.len() <= SEGMENT_LEN_MAX
    &&& s[0] != HYPHEN
    &&& s[s.len() - 1] != HYPHEN
    &&& forall|i: int| 0 <= i < s.len() ==> spec_is_alpha(#[trigger] s[i])
}

/// Splits `slice` at the first byte that `pred` accepts, scanning from the
/// left: the bytes before it and the bytes after it. `None` when `pred`
/// accepts no byte.
pub fn split_once<'a, F>(slice: &'a [u8], pred: F) -> (res: Option<(&'a [u8], &'a [u8])>)
    where F: Fn(&u8) -> bool
    requires
        forall|i: int| 0 <= i < slice@.len() ==> call_requires(pred, (&#[trigger] slice@[i],)),
    ensures
        match res {
            Some((head, tail)) => {
                &&& head@.len() < slice@.len()
                &&& head@ == slice@.subrange(0, head@.len() as int)
                &&& tail@ == slice@.subrange(head@.len() as int + 1, slice@.len() as int)
                &&& call_ensures(pred, (&slice@[head@.len() as int],), true)
                &&& forall|i: int| 0 <= i < head@.len() ==> call_ensures(pred, (&#[trigger] slice@[i],), false)
            },
            None => forall|i: int| 0 <= i < slice@.len() ==> call_ensures(pred, (&#[trigger] slice@[i],), false),
        },
{
    let n: usize = slice.len();
    let mut index: usize = 0;
    while index < n
        invariant
            n == slice@.len(),
            index <= n,
            forall|i: int| 0 <= i < slice@.len() ==> call_requires(pred, (&#[trigger] slice@[i],)),
            forall|i: int| 0 <= i < index ==> call_ensures(pred, (&#[trigger] slice@[i],), false),
        decreases n - index,
    {
        if pred(&slice[index]) {
            let head: &[u8] = vstd::slice::slice_subrange(slice, 0, index);
            let tail: &[u8] = vstd::slice::slice_subrange(slice, index + 1, n);
            return Some((head, tail));
        }
        index += 1;
    }
    None
}

/// Decides whether `b` may stand in a domain segment.
pub fn is_segment_char(b: &u8) -> (res: bool)
    ensures
        res == spec_is_segment_char(*b),
{
    is_alnum(*b) || *b == HYPHEN
}

/// Decides whether `s` is a domain segment.
pub fn is_valid_domain_segment(s: &[u8]) -> (res: bool)
    ensures
        res == spec_is_valid_domain_segment(s@),
{
    let n: usize = s.len();
    if n < SEGMENT_LEN_MIN || n > SEGMENT_LEN_MAX {
        return false;
    }
    if s[0] == HYPHEN || s[n - 1] == HYPHEN {
        return false;
    }
    let mut i: usize = 0;
    while i < n
        invariant
            n == s@.len(),
            i <= n,
            forall|j: int| 0 <= j < i ==> spec_is_segment_char(#[trigger] s@[j]),
        decreases n - i,
    {
        if !is_segment_char(&s[i]) {
            return false;
        }
        i += 1;
    }
    true
}

/// Decides whether `s` is a top-level-domain segment.
pub fn is_valid_tld(s: &[u8]) -> (res: bool)
    ensures
        res == spec_is_valid_tld(s@),
{
    is_valid_domain_segment(s) && is_alpha(s[0])
}

/// Decides whether `s` is an NSID name segment.
pub fn is_valid_nsid_name(s: &[u8]) -> (res: bool)
    ensures
        res == spec_is_valid_nsid_name(s@),
{
    let n: usize = s.len();
    if n < SEGMENT_LEN_MIN || n > SEGMENT_LEN_MAX {
        return false;
    }
    if s[0] == HYPHEN || s[n - 1] == HYPHEN {
        return false;
    }
    let mut i: usize = 0;
    while i < n
        invariant
            n == s@.len(),
            i <= n,
            forall|j: int| 0 <= j < i ==> spec_is_alpha(#[trigger] s@[j]),
        decreases n - i,
    {
        if !is_alpha(s[i]) {
            return false;
        }
        i += 1;
    }
    true
}

/// The grammar of the identifier that is a DID or a handle.
pub open spec fn spec_is_valid_at_identifier(s: Seq<u8>) -> bool {
    spec_is_valid_did(s) || spec_is_valid_handle(s)
}

/// Decides whether `s` is a DID or a handle.
pub fn is_valid_at_identifier(s: &[u8]) -> (res: bool)
    ensures
        res == spec_is_valid_at_identifier(s@),
{
    is_valid_did(s) || is_valid_handle(s)
}

/// An identifier of an account: a DID or a handle.
#[derive(Debug)]
pub enum AtIdentifier {
    Did(Did),
    Handle(Handle),
}

impl View for AtIdentifier {
    type V = Seq<char>;

    /// The text of the identifier: that of the DID or of the handle it holds.
    open spec fn view(&self) -> Seq<char> {
        match self {
            AtIdentifier::Did(did) => did@,
            AtIdentifier::Handle(handle) => handle@,
        }
    }
}

impl AtIdentifier {
    /// Parses a DID or a handle. A text that the DID grammar accepts becomes a
    /// DID; any other that the handle grammar accepts becomes a handle. Where
    /// both grammars reject, the failure is that of the identifier and says
    /// nothing of either grammar.
    pub fn from_str(s: &str) -> (res: Result<AtIdentifier, ParseError>)
        ensures
            res is Ok <==> spec_is_valid_at_identifier(s.spec_bytes()),
            res matches Ok(id) ==> id@ == s@ && (id is Did <==> spec_is_valid_did(s.spec_bytes()))
                && (id is Handle <==> !spec_is_valid_did(s.spec_bytes())),
            res matches Err(e) ==> e == ParseError::AtIdentifier,
    {
        match Did::from_str(s) {
            Ok(did) => Ok(AtIdentifier::Did(did)),
            Err(_) => match Handle::from_str(s) {
                Ok(handle) => Ok(AtIdentifier::Handle(handle)),
                Err(_) => Err(ParseError::at_identifier()),
            },
        }
    }

    /// The text of the identifier, with nothing added to say which of the two
    /// it is. The grammar accepts it, and parsing it gives the same variant.
    pub fn as_str(&self) -> (res: &str)
        ensures
            res@ == self@,
            spec_is_valid_at_identifier(res.spec_bytes()),
            self is Did ==> spec_is_valid_did(res.spec_bytes()),
            self is Handle ==> spec_is_valid_handle(res.spec_bytes()),
    {
        match self {
            AtIdentifier::Did(did) => did.as_str(),
            AtIdentifier::Handle(handle) => handle.as_str(),
        }
    }

    /// The text of the identifier, as an owned string.
    pub fn to_string(&self) -> (res: String)
        ensures
            res@ == self@,
            spec_is_valid_at_identifier(encode_utf8(res@)),
    {
        match self {
            AtIdentifier::Did(did) => did.to_string(),
            AtIdentifier::Handle(handle) => handle.to_string(),
        }
    }
}

impl Clone for AtIdentifier {
    fn clone(&self) -> (res: AtIdentifier)
        ensures
            res@ == self@,
            res is Did <==> self is Did,
    {
        match self {
            AtIdentifier::Did(did) => AtIdentifier::Did(did.clone()),
            AtIdentifier::Handle(handle) => AtIdentifier::Handle(handle.clone()),
        }
    }
}

impl PartialEq for AtIdentifier {
    fn eq(&self, other: &AtIdentifier) -> (res: bool) {
        match (self, other) {
            (AtIdentifier::Did(a), AtIdentifier::Did(b)) => a == b,
            (AtIdentifier::Handle(a), AtIdentifier::Handle(b)) => a == b,
            _ => false,
        }
    }
}

impl Eq for AtIdentifier {}

impl vstd::std_specs::cmp::PartialEqSpecImpl for AtIdentifier {
    open spec fn obeys_eq_spec() -> bool {
        true
    }

    open spec fn eq_spec(&self, other: &AtIdentifier) -> bool {
        self@ == other@ && (self is Did <==> other is Did)
    }
}

} // verus!
